//! Promotion and demotion detection, and the demotion history they read.
//!
//! A player is promoted when they enter the tracked tiers with no stored
//! row, or when they return after a recorded demotion.  A player is
//! demoted when they drop out of all tracked tiers and no demotion has
//! been recorded for their current tenure yet — the stored demotion rows
//! of earlier cycles are read back precisely to keep a player who stays
//! out of the ladder from being flagged again every cycle.

use vstd::prelude::*;

use crate::apex_tier_players::{
    entry_key, ladder_contains, lemma_upsert_finds, lookup_row, row_key, row_of_entry,
    upsert_result,
};
use crate::config::Region;
use crate::entities::{
    DemotionRecord, DemotionRecordV, DemotionRow, DemotionRowV, LadderEntry, LadderEntryV,
    PlayerRow, PlayerRowV, PromotionRecord, PromotionRecordV, RankTier,
};
use crate::keyed::{
    contains_key, find_key, keys_unique, lemma_filter_map_all_none, lemma_filter_map_keyed,
    lemma_filter_map_congruence, lemma_filter_map_mem, lemma_find_key_characterization,
    lemma_find_key_skip,
};

verus! {

/// The demotion times recorded for one player, grouped out of the flat
/// demotion rows the store hands back.
pub struct DemotionGroup {
    pub summoner_id: String,
    pub times: Vec<i64>,
}

/// Ghost view of [`DemotionGroup`].
pub struct DemotionGroupV {
    pub summoner_id: Seq<char>,
    pub times: Seq<int>,
}

impl View for DemotionGroup {
    type V = DemotionGroupV;

    open spec fn view(&self) -> DemotionGroupV {
        DemotionGroupV {
            summoner_id: self.summoner_id@,
            times: self.times@.map_values(|v: i64| v as int),
        }
    }
}

impl DeepView for DemotionGroup {
    type V = DemotionGroupV;

    open spec fn deep_view(&self) -> DemotionGroupV {
        self.view()
    }
}

/// The identity a demotion group is keyed by.
pub open spec fn group_key() -> spec_fn(DemotionGroupV) -> Seq<char> {
    |g: DemotionGroupV| g.summoner_id
}

/// The identity a flat demotion row is keyed by.
pub open spec fn demotion_row_key() -> spec_fn(DemotionRowV) -> Seq<char> {
    |r: DemotionRowV| r.summoner_id
}

/// Picks, out of the flat demotion rows, the creation times of one player.
pub open spec fn time_picker(id: Seq<char>) -> spec_fn(DemotionRowV) -> Option<int> {
    |r: DemotionRowV|
        if r.summoner_id == id {
            Some(r.created_at_ms)
        } else {
            None
        }
}

/// The creation times of every demotion recorded for `id`, in row order.
pub open spec fn times_of(rows: Seq<DemotionRowV>, id: Seq<char>) -> Seq<int> {
    rows.filter_map(time_picker(id))
}

/// The times a grouped history holds for `id`; none when it has no group.
pub open spec fn group_times(hist: Seq<DemotionGroupV>, id: Seq<char>) -> Seq<int> {
    match find_key(hist, group_key(), id) {
        Some(g) => g.times,
        None => Seq::<int>::empty(),
    }
}

/// Whether the grouped history records a demotion of `id` after time `t`.
pub open spec fn grouped_demoted_after(hist: Seq<DemotionGroupV>, id: Seq<char>, t: int) -> bool {
    exists|i: int| 0 <= i < group_times(hist, id).len() && group_times(hist, id)[i] > t
}

/// Whether the flat demotion rows record a demotion of `id` after time `t`.
pub open spec fn demoted_after(rows: Seq<DemotionRowV>, id: Seq<char>, t: int) -> bool {
    exists|i: int|
        0 <= i < rows.len() && rows[i].summoner_id == id && rows[i].created_at_ms > t
}

/// Whether `id` counts as promoted this cycle: it has no stored row, or a
/// demotion was recorded after its stored row was last written.
pub open spec fn spec_has_promoted(
    id: Seq<char>,
    db: Seq<PlayerRowV>,
    hist: Seq<DemotionGroupV>,
) -> bool {
    match find_key(db, row_key(), id) {
        None => true,
        Some(row) => grouped_demoted_after(hist, id, row.updated_at_ms),
    }
}

/// Whether a stored row counts as freshly demoted: no demotion is recorded
/// after the row was last written.
pub open spec fn spec_has_demoted(row: PlayerRowV, hist: Seq<DemotionGroupV>) -> bool {
    !grouped_demoted_after(hist, row.summoner_id, row.updated_at_ms)
}

/// The grouped history for `id`, if it holds one.
fn lookup_group<'a>(hist: &'a Vec<DemotionGroup>, id: &String) -> (r: Option<&'a DemotionGroup>)
    ensures
        match r {
            Some(g) => find_key(hist.deep_view(), group_key(), id@) == Some(g.deep_view()),
            None => find_key(hist.deep_view(), group_key(), id@) is None,
        },
{
    let ghost dv = hist.deep_view();
    let n = hist.len();
    let mut i: usize = 0;
    while i < n
        invariant
            i <= n,
            n == hist.len(),
            dv == hist.deep_view(),
            forall|j: int| 0 <= j < i ==> #[trigger] dv[j].summoner_id != id@,
        decreases n - i,
    {
        if hist[i].summoner_id == *id {
            proof {
                lemma_find_key_skip(dv, group_key(), id@, i as int);
                assert(dv.skip(i as int)[0] == dv[i as int]);
                assert(find_key(dv, group_key(), id@) == Some(dv[i as int]));
            }
            return Some(&hist[i]);
        }
        i += 1;
    }
    proof {
        lemma_find_key_characterization(dv, group_key(), id@);
    }
    None
}

/// Whether any of the times is after `t`.
fn any_time_after(times: &Vec<i64>, t: i64) -> (r: bool)
    ensures
        r == exists|i: int| 0 <= i < times@.len() && times@[i] > t,
{
    let n = times.len();
    let mut i: usize = 0;
    while i < n
        invariant
            i <= n,
            n == times@.len(),
            forall|j: int| 0 <= j < i ==> !(#[trigger] times@[j] > t),
        decreases n - i,
    {
        if times[i] > t {
            return true;
        }
        i += 1;
    }
    false
}

/// Whether `id` counts as promoted this cycle (see [`spec_has_promoted`]).
pub fn has_promoted(
    summoner_id: &String,
    db_players: &Vec<PlayerRow>,
    demotions: &Vec<DemotionGroup>,
) -> (r: bool)
    ensures
        r == spec_has_promoted(summoner_id@, db_players.deep_view(), demotions.deep_view()),
{
    match lookup_row(db_players, summoner_id) {
        None => true,
        Some(row) => {
            match lookup_group(demotions, summoner_id) {
                None => {
                    proof {
                        assert(group_times(demotions.deep_view(), summoner_id@)
                            =~= Seq::<int>::empty());
                    }
                    false
                },
                Some(g) => {
                    let r = any_time_after(&g.times, row.updated_at_ms);
                    proof {
                        let ts = group_times(demotions.deep_view(), summoner_id@);
                        assert(ts == g@.times);
                        assert(forall|i: int|
                            0 <= i < ts.len() ==> ts[i] == #[trigger] g.times@[i] as int);
                    }
                    r
                },
            }
        },
    }
}

/// Whether a stored row counts as freshly demoted (see [`spec_has_demoted`]).
pub fn has_demoted(player: &PlayerRow, demotions: &Vec<DemotionGroup>) -> (r: bool)
    ensures
        r == spec_has_demoted(player.deep_view(), demotions.deep_view()),
{
    match lookup_group(demotions, &player.summoner_id) {
        None => {
            proof {
                assert(group_times(demotions.deep_view(), player.summoner_id@)
                    =~= Seq::<int>::empty());
            }
            true
        },
        Some(g) => {
            let r = any_time_after(&g.times, player.updated_at_ms);
            proof {
                let ts = group_times(demotions.deep_view(), player.summoner_id@);
                assert(ts == g@.times);
                assert(forall|i: int|
                    0 <= i < ts.len() ==> ts[i] == #[trigger] g.times@[i] as int);
            }
            !r
        },
    }
}

/// Collects the creation times of every row carrying `id`.
#[verifier::loop_isolation(false)]
fn collect_times(rows: &Vec<DemotionRow>, id: &String) -> (r: Vec<i64>)
    ensures
        r@.map_values(|v: i64| v as int) == times_of(rows.deep_view(), id@),
{
    let ghost rv = rows.deep_view();
    let ghost picker = time_picker(id@);
    let mut out: Vec<i64> = Vec::new();
    let n = rows.len();
    let mut i: usize = 0;
    while i < n
        invariant
            i <= n,
            out@.map_values(|v: i64| v as int) =~= rv.take(i as int).filter_map(picker),
        decreases n - i,
    {
        let ghost pre = out@;
        if rows[i].summoner_id == *id {
            out.push(rows[i].created_at_ms);
            proof {
                assert(picker(rv[i as int]) == Some(rv[i as int].created_at_ms));
                assert(out@.map_values(|v: i64| v as int) =~= pre.map_values(
                    |v: i64| v as int,
                ).push(rv[i as int].created_at_ms));
            }
        } else {
            proof {
                assert(picker(rv[i as int]) is None);
            }
        }
        proof {
            rv.lemma_filter_map_take_succ(picker, i as int);
            assert(out@.map_values(|v: i64| v as int) =~= rv.take(i + 1 as int).filter_map(
                picker,
            ));
        }
        i += 1;
    }
    proof {
        assert(rv.take(n as int) =~= rv);
    }
    out
}

/// Groups the flat demotion rows the store hands back into one entry per
/// player, carrying all of that player's demotion times in row order.
#[verifier::loop_isolation(false)]
pub fn group_demotions(rows: &Vec<DemotionRow>) -> (r: Vec<DemotionGroup>)
    ensures
        keys_unique(r.deep_view(), group_key()),
        forall|id: Seq<char>| #[trigger] group_times(r.deep_view(), id) == times_of(
            rows.deep_view(),
            id,
        ),
{
    let ghost rv = rows.deep_view();
    let mut out: Vec<DemotionGroup> = Vec::new();
    let n = rows.len();
    let mut i: usize = 0;
    while i < n
        invariant
            i <= n,
            keys_unique(out.deep_view(), group_key()),
            forall|k: int| 0 <= k < out.deep_view().len() ==> #[trigger] out.deep_view()[k].times
                == times_of(rv, out.deep_view()[k].summoner_id),
            forall|id: Seq<char>| contains_key(out.deep_view(), group_key(), id)
                == contains_key(rv.take(i as int), demotion_row_key(), id),
        decreases n - i,
    {
        let id = &rows[i].summoner_id;
        let ghost pre = out.deep_view();
        if lookup_group(&out, id).is_none() {
            let times = collect_times(rows, id);
            let group = DemotionGroup { summoner_id: id.clone(), times };
            proof {
                assert(group.deep_view().summoner_id == id@);
                assert(group.deep_view().times == times_of(rv, id@));
                lemma_find_key_characterization(pre, group_key(), id@);
                assert(!contains_key(pre, group_key(), id@));
            }
            out.push(group);
            proof {
                assert(out.deep_view() =~= pre.push(group.deep_view()));
                assert forall|id2: Seq<char>|
                    contains_key(out.deep_view(), group_key(), id2) == contains_key(
                    rv.take(i + 1 as int),
                    demotion_row_key(),
                    id2,
                ) by {
                    let dv = out.deep_view();
                    if contains_key(dv, group_key(), id2) {
                        let k = choose|k: int| 0 <= k < dv.len() && (#[trigger] dv[k]).summoner_id == id2;
                        if k < pre.len() {
                            assert(dv[k] == pre[k]);
                            assert(contains_key(pre, group_key(), id2));
                            assert(contains_key(rv.take(i as int), demotion_row_key(), id2));
                            let k2 = choose|k2: int|
                                0 <= k2 < rv.take(i as int).len() && (#[trigger] rv.take(
                                    i as int,
                                )[k2]).summoner_id == id2;
                            assert(rv.take(i + 1 as int)[k2] == rv.take(i as int)[k2]);
                            assert(contains_key(rv.take(i + 1 as int), demotion_row_key(), id2));
                        } else {
                            assert(dv[k] == group.deep_view());
                            assert(rv.take(i + 1 as int)[i as int] == rv[i as int]);
                            assert(rv[i as int].summoner_id == id@);
                            assert(contains_key(rv.take(i + 1 as int), demotion_row_key(), id2));
                        }
                    }
                    if contains_key(rv.take(i + 1 as int), demotion_row_key(), id2) {
                        let k = choose|k: int|
                            0 <= k < rv.take(i + 1 as int).len() && (#[trigger] rv.take(
                                i + 1 as int,
                            )[k]).summoner_id == id2;
                        if k < i {
                            assert(rv.take(i as int)[k] == rv.take(i + 1 as int)[k]);
                            assert(contains_key(rv.take(i as int), demotion_row_key(), id2));
                            assert(contains_key(pre, group_key(), id2));
                            let k2 = choose|k2: int|
                                0 <= k2 < pre.len() && (#[trigger] pre[k2]).summoner_id == id2;
                            assert(dv[k2] == pre[k2]);
                            assert(contains_key(dv, group_key(), id2));
                        } else {
                            assert(rv.take(i + 1 as int)[k] == rv[i as int]);
                            assert(id2 == id@);
                            assert(dv[pre.len() as int] == group.deep_view());
                            assert(contains_key(dv, group_key(), id2));
                        }
                    }
                }
            }
        } else {
            proof {
                lemma_find_key_characterization(pre, group_key(), id@);
                assert(contains_key(pre, group_key(), id@));
                assert forall|id2: Seq<char>|
                    contains_key(out.deep_view(), group_key(), id2) == contains_key(
                    rv.take(i + 1 as int),
                    demotion_row_key(),
                    id2,
                ) by {
                    if contains_key(rv.take(i + 1 as int), demotion_row_key(), id2) {
                        let k = choose|k: int|
                            0 <= k < rv.take(i + 1 as int).len() && (#[trigger] rv.take(
                                i + 1 as int,
                            )[k]).summoner_id == id2;
                        if k < i {
                            assert(rv.take(i as int)[k] == rv.take(i + 1 as int)[k]);
                            assert(contains_key(rv.take(i as int), demotion_row_key(), id2));
                        } else {
                            assert(rv.take(i + 1 as int)[k] == rv[i as int]);
                            assert(id2 == id@);
                        }
                    }
                    if contains_key(rv.take(i as int), demotion_row_key(), id2) {
                        let k = choose|k: int|
                            0 <= k < rv.take(i as int).len() && (#[trigger] rv.take(
                                i as int,
                            )[k]).summoner_id == id2;
                        assert(rv.take(i + 1 as int)[k] == rv.take(i as int)[k]);
                        assert(contains_key(rv.take(i + 1 as int), demotion_row_key(), id2));
                    }
                }
            }
        }
        i += 1;
    }
    proof {
        assert(rv.take(n as int) =~= rv);
        assert forall|id: Seq<char>| #[trigger] group_times(out.deep_view(), id) == times_of(
            rv,
            id,
        ) by {
            let dv = out.deep_view();
            lemma_find_key_characterization(dv, group_key(), id);
            match find_key(dv, group_key(), id) {
                Some(g) => {
                    let k = choose|k: int| 0 <= k < dv.len() && dv[k] == g;
                },
                None => {
                    // No group, so no row carries the identity and its
                    // time list is empty.
                    assert(!contains_key(rv, demotion_row_key(), id));
                    assert forall|j: int| 0 <= j < rv.len() implies (#[trigger] time_picker(id)(
                        rv[j],
                    )) is None by {
                        assert(rv[j].summoner_id != id);
                    }
                    lemma_filter_map_all_none(rv, time_picker(id));
                },
            }
        }
    }
    out
}

/// Grouping keeps exactly the recorded demotions: a demotion of `id` after
/// `t` is in the grouped history exactly when a flat row records one.
pub proof fn lemma_grouping_preserves_demotions(
    rows: Seq<DemotionRowV>,
    hist: Seq<DemotionGroupV>,
    id: Seq<char>,
    t: int,
)
    requires
        group_times(hist, id) == times_of(rows, id),
    ensures
        grouped_demoted_after(hist, id, t) == demoted_after(rows, id, t),
{
    let ts = times_of(rows, id);
    let picker = time_picker(id);
    if grouped_demoted_after(hist, id, t) {
        let i = choose|i: int| 0 <= i < ts.len() && ts[i] > t;
        rows.lemma_filter_map_contains(picker, ts[i]);
        let r = choose|r: DemotionRowV| #[trigger] rows.contains(r) && picker(r) == Some(ts[i]);
        let k = choose|k: int| 0 <= k < rows.len() && rows[k] == r;
        assert(demoted_after(rows, id, t));
    }
    if demoted_after(rows, id, t) {
        let k = choose|k: int|
            0 <= k < rows.len() && rows[k].summoner_id == id && rows[k].created_at_ms > t;
        lemma_filter_map_mem(rows, picker, k);
        assert(picker(rows[k]) == Some(rows[k].created_at_ms));
        let i = choose|i: int| 0 <= i < ts.len() && ts[i] == rows[k].created_at_ms;
        assert(grouped_demoted_after(hist, id, t));
    }
}

/// The identity a promotion record is keyed by.
pub open spec fn promotion_key() -> spec_fn(PromotionRecordV) -> Seq<char> {
    |p: PromotionRecordV| p.summoner_id
}

/// The identity a demotion record is keyed by.
pub open spec fn demotion_key() -> spec_fn(DemotionRecordV) -> Seq<char> {
    |d: DemotionRecordV| d.summoner_id
}

/// What one fetched entry contributes to the promotions: a record when its
/// player counts as promoted, nothing otherwise.
pub open spec fn promotion_candidate(
    db: Seq<PlayerRowV>,
    hist: Seq<DemotionGroupV>,
    region: Seq<char>,
) -> spec_fn((LadderEntryV, RankTier)) -> Option<PromotionRecordV> {
    |e: (LadderEntryV, RankTier)|
        if spec_has_promoted(e.0.summoner_id, db, hist) {
            Some(
                PromotionRecordV {
                    summoner_id: e.0.summoner_id,
                    region: region,
                    at_wins: e.0.wins,
                    at_losses: e.0.losses,
                },
            )
        } else {
            None
        }
}

/// All promotions of one cycle, in the order of the merged ladder.
pub open spec fn promotions_of(
    api: Seq<(LadderEntryV, RankTier)>,
    db: Seq<PlayerRowV>,
    hist: Seq<DemotionGroupV>,
    region: Seq<char>,
) -> Seq<PromotionRecordV> {
    api.filter_map(promotion_candidate(db, hist, region))
}

/// What one stored row contributes to the demotions: a record when its
/// player left the ladder and counts as freshly demoted, nothing otherwise.
pub open spec fn demotion_candidate(
    api: Seq<(LadderEntryV, RankTier)>,
    hist: Seq<DemotionGroupV>,
    region: Seq<char>,
) -> spec_fn(PlayerRowV) -> Option<DemotionRecordV> {
    |row: PlayerRowV|
        if !contains_key(api, entry_key(), row.summoner_id) && spec_has_demoted(row, hist) {
            Some(
                DemotionRecordV {
                    summoner_id: row.summoner_id,
                    region: region,
                    at_wins: row.wins,
                    at_losses: row.losses,
                },
            )
        } else {
            None
        }
}

/// All demotions of one cycle, in the order of the stored snapshot.
pub open spec fn demotions_of(
    db: Seq<PlayerRowV>,
    api: Seq<(LadderEntryV, RankTier)>,
    hist: Seq<DemotionGroupV>,
    region: Seq<char>,
) -> Seq<DemotionRecordV> {
    db.filter_map(demotion_candidate(api, hist, region))
}

/// Finds every promotion of one cycle: one record per fetched player who
/// either has no stored row or was recorded as demoted after their stored
/// row was last written.
#[verifier::loop_isolation(false)]
pub fn find_promotions(
    api_players: &Vec<(LadderEntry, RankTier)>,
    db_players: &Vec<PlayerRow>,
    demotions: &Vec<DemotionGroup>,
    region: Region,
) -> (r: Vec<PromotionRecord>)
    ensures
        r.deep_view() == promotions_of(
            api_players.deep_view(),
            db_players.deep_view(),
            demotions.deep_view(),
            region.code_spec(),
        ),
{
    let ghost apiv = api_players.deep_view();
    let ghost cand = promotion_candidate(
        db_players.deep_view(),
        demotions.deep_view(),
        region.code_spec(),
    );
    let mut out: Vec<PromotionRecord> = Vec::new();
    let n = api_players.len();
    let mut i: usize = 0;
    while i < n
        invariant
            i <= n,
            out.deep_view() =~= apiv.take(i as int).filter_map(cand),
        decreases n - i,
    {
        let e = &api_players[i];
        let ghost pre = out.deep_view();
        if has_promoted(&e.0.summoner_id, db_players, demotions) {
            let record = PromotionRecord {
                summoner_id: e.0.summoner_id.clone(),
                region: region.code(),
                at_wins: e.0.wins,
                at_losses: e.0.losses,
            };
            proof {
                assert(cand(apiv[i as int]) == Some(record.deep_view()));
            }
            out.push(record);
            proof {
                assert(out.deep_view() =~= pre.push(record.deep_view()));
            }
        } else {
            proof {
                assert(cand(apiv[i as int]) is None);
            }
        }
        proof {
            apiv.lemma_filter_map_take_succ(cand, i as int);
            assert(out.deep_view() =~= apiv.take(i + 1 as int).filter_map(cand));
        }
        i += 1;
    }
    proof {
        assert(apiv.take(n as int) =~= apiv);
    }
    out
}

/// Finds every demotion of one cycle: one record per stored player who is
/// absent from the fetched ladder and has no demotion recorded for their
/// current tenure.
#[verifier::loop_isolation(false)]
pub fn find_demotions(
    api_players: &Vec<(LadderEntry, RankTier)>,
    db_players: &Vec<PlayerRow>,
    demotions: &Vec<DemotionGroup>,
    region: Region,
) -> (r: Vec<DemotionRecord>)
    ensures
        r.deep_view() == demotions_of(
            db_players.deep_view(),
            api_players.deep_view(),
            demotions.deep_view(),
            region.code_spec(),
        ),
{
    let ghost dbv = db_players.deep_view();
    let ghost cand = demotion_candidate(
        api_players.deep_view(),
        demotions.deep_view(),
        region.code_spec(),
    );
    let mut out: Vec<DemotionRecord> = Vec::new();
    let n = db_players.len();
    let mut i: usize = 0;
    while i < n
        invariant
            i <= n,
            out.deep_view() =~= dbv.take(i as int).filter_map(cand),
        decreases n - i,
    {
        let row = &db_players[i];
        let ghost pre = out.deep_view();
        if !ladder_contains(api_players, &row.summoner_id) && has_demoted(row, demotions) {
            let record = DemotionRecord {
                summoner_id: row.summoner_id.clone(),
                region: region.code(),
                at_wins: row.wins,
                at_losses: row.losses,
            };
            proof {
                assert(cand(dbv[i as int]) == Some(record.deep_view()));
            }
            out.push(record);
            proof {
                assert(out.deep_view() =~= pre.push(record.deep_view()));
            }
        } else {
            proof {
                assert(cand(dbv[i as int]) is None);
            }
        }
        proof {
            dbv.lemma_filter_map_take_succ(cand, i as int);
            assert(out.deep_view() =~= dbv.take(i + 1 as int).filter_map(cand));
        }
        i += 1;
    }
    proof {
        assert(dbv.take(n as int) =~= dbv);
    }
    out
}

/// [`spec_has_promoted`], said directly over the flat demotion rows the
/// store hands back.
pub open spec fn flat_has_promoted(
    id: Seq<char>,
    db: Seq<PlayerRowV>,
    rows: Seq<DemotionRowV>,
) -> bool {
    match find_key(db, row_key(), id) {
        None => true,
        Some(row) => demoted_after(rows, id, row.updated_at_ms),
    }
}

/// [`promotion_candidate`], over the flat demotion rows.
pub open spec fn flat_promotion_candidate(
    db: Seq<PlayerRowV>,
    rows: Seq<DemotionRowV>,
    region: Seq<char>,
) -> spec_fn((LadderEntryV, RankTier)) -> Option<PromotionRecordV> {
    |e: (LadderEntryV, RankTier)|
        if flat_has_promoted(e.0.summoner_id, db, rows) {
            Some(
                PromotionRecordV {
                    summoner_id: e.0.summoner_id,
                    region: region,
                    at_wins: e.0.wins,
                    at_losses: e.0.losses,
                },
            )
        } else {
            None
        }
}

/// All promotions of one cycle, over the flat demotion rows.
pub open spec fn flat_promotions_of(
    api: Seq<(LadderEntryV, RankTier)>,
    db: Seq<PlayerRowV>,
    rows: Seq<DemotionRowV>,
    region: Seq<char>,
) -> Seq<PromotionRecordV> {
    api.filter_map(flat_promotion_candidate(db, rows, region))
}

/// [`demotion_candidate`], over the flat demotion rows.
pub open spec fn flat_demotion_candidate(
    api: Seq<(LadderEntryV, RankTier)>,
    rows: Seq<DemotionRowV>,
    region: Seq<char>,
) -> spec_fn(PlayerRowV) -> Option<DemotionRecordV> {
    |row: PlayerRowV|
        if !contains_key(api, entry_key(), row.summoner_id) && !demoted_after(
            rows,
            row.summoner_id,
            row.updated_at_ms,
        ) {
            Some(
                DemotionRecordV {
                    summoner_id: row.summoner_id,
                    region: region,
                    at_wins: row.wins,
                    at_losses: row.losses,
                },
            )
        } else {
            None
        }
}

/// All demotions of one cycle, over the flat demotion rows.
pub open spec fn flat_demotions_of(
    db: Seq<PlayerRowV>,
    api: Seq<(LadderEntryV, RankTier)>,
    rows: Seq<DemotionRowV>,
    region: Seq<char>,
) -> Seq<DemotionRecordV> {
    db.filter_map(flat_demotion_candidate(api, rows, region))
}

/// A grouped history standing for the flat rows yields the same
/// promotions as the flat rows themselves.
pub proof fn lemma_flat_promotions(
    api: Seq<(LadderEntryV, RankTier)>,
    db: Seq<PlayerRowV>,
    hist: Seq<DemotionGroupV>,
    rows: Seq<DemotionRowV>,
    region: Seq<char>,
)
    requires
        forall|id: Seq<char>| #[trigger] group_times(hist, id) == times_of(rows, id),
    ensures
        promotions_of(api, db, hist, region) == flat_promotions_of(api, db, rows, region),
{
    let f = promotion_candidate(db, hist, region);
    let g = flat_promotion_candidate(db, rows, region);
    assert forall|i: int| 0 <= i < api.len() implies #[trigger] f(api[i]) == g(api[i]) by {
        let id = api[i].0.summoner_id;
        match find_key(db, row_key(), id) {
            Some(row) => {
                lemma_grouping_preserves_demotions(rows, hist, id, row.updated_at_ms);
            },
            None => {},
        }
    }
    lemma_filter_map_congruence(api, f, g);
}

/// A grouped history standing for the flat rows yields the same
/// demotions as the flat rows themselves.
pub proof fn lemma_flat_demotions(
    db: Seq<PlayerRowV>,
    api: Seq<(LadderEntryV, RankTier)>,
    hist: Seq<DemotionGroupV>,
    rows: Seq<DemotionRowV>,
    region: Seq<char>,
)
    requires
        forall|id: Seq<char>| #[trigger] group_times(hist, id) == times_of(rows, id),
    ensures
        demotions_of(db, api, hist, region) == flat_demotions_of(db, api, rows, region),
{
    let f = demotion_candidate(api, hist, region);
    let g = flat_demotion_candidate(api, rows, region);
    assert forall|i: int| 0 <= i < db.len() implies #[trigger] f(db[i]) == g(db[i]) by {
        let row = db[i];
        lemma_grouping_preserves_demotions(rows, hist, row.summoner_id, row.updated_at_ms);
    }
    lemma_filter_map_congruence(db, f, g);
}

/// The promotion detector emits at most one record per player per cycle:
/// over a ladder without duplicate identities, the records' identities
/// are pairwise distinct.
pub proof fn lemma_promotions_unique(
    api: Seq<(LadderEntryV, RankTier)>,
    db: Seq<PlayerRowV>,
    hist: Seq<DemotionGroupV>,
    region: Seq<char>,
)
    requires
        keys_unique(api, entry_key()),
    ensures
        keys_unique(promotions_of(api, db, hist, region), promotion_key()),
{
    lemma_filter_map_keyed(
        api,
        promotion_candidate(db, hist, region),
        entry_key(),
        promotion_key(),
        Seq::<char>::empty(),
    );
}

/// The demotion detector emits at most one record per player per cycle:
/// over a snapshot without duplicate identities, the records' identities
/// are pairwise distinct.
pub proof fn lemma_demotions_unique(
    db: Seq<PlayerRowV>,
    api: Seq<(LadderEntryV, RankTier)>,
    hist: Seq<DemotionGroupV>,
    region: Seq<char>,
)
    requires
        keys_unique(db, row_key()),
    ensures
        keys_unique(demotions_of(db, api, hist, region), demotion_key()),
{
    lemma_filter_map_keyed(
        db,
        demotion_candidate(api, hist, region),
        row_key(),
        demotion_key(),
        Seq::<char>::empty(),
    );
}

/// Promotion on first sight: a fetched player with no stored row is
/// flagged as promoted, exactly once — the promotions carry no duplicate
/// identities and the player's record carries the fetched wins and losses.
pub proof fn lemma_promotion_on_first_sight(
    api: Seq<(LadderEntryV, RankTier)>,
    db: Seq<PlayerRowV>,
    hist: Seq<DemotionGroupV>,
    region: Seq<char>,
    id: Seq<char>,
)
    requires
        keys_unique(api, entry_key()),
        contains_key(api, entry_key(), id),
        !contains_key(db, row_key(), id),
    ensures
        keys_unique(promotions_of(api, db, hist, region), promotion_key()),
        find_key(promotions_of(api, db, hist, region), promotion_key(), id) == Some(
            PromotionRecordV {
                summoner_id: id,
                region: region,
                at_wins: find_key(api, entry_key(), id)->Some_0.0.wins,
                at_losses: find_key(api, entry_key(), id)->Some_0.0.losses,
            },
        ),
{
    let cand = promotion_candidate(db, hist, region);
    lemma_filter_map_keyed(api, cand, entry_key(), promotion_key(), id);
    lemma_find_key_characterization(api, entry_key(), id);
    lemma_find_key_characterization(db, row_key(), id);
    let e = find_key(api, entry_key(), id)->Some_0;
    assert(e.0.summoner_id == id);
    assert(spec_has_promoted(id, db, hist));
}

/// No duplicate promotion: a player fetched in one cycle, whose snapshot
/// row that cycle writes, is not flagged as promoted by the next cycle
/// unless a demotion was recorded in between.
pub proof fn lemma_no_duplicate_promotion(
    db: Seq<PlayerRowV>,
    api1: Seq<(LadderEntryV, RankTier)>,
    api2: Seq<(LadderEntryV, RankTier)>,
    hist2: Seq<DemotionGroupV>,
    region: Seq<char>,
    now1: int,
    id: Seq<char>,
)
    requires
        keys_unique(api1, entry_key()),
        keys_unique(api2, entry_key()),
        contains_key(api1, entry_key(), id),
        forall|i: int|
            0 <= i < group_times(hist2, id).len() ==> #[trigger] group_times(hist2, id)[i]
                <= now1,
    ensures
        !contains_key(
            promotions_of(api2, upsert_result(db, api1, region, now1), hist2, region),
            promotion_key(),
            id,
        ),
{
    let db2 = upsert_result(db, api1, region, now1);
    lemma_upsert_finds(db, api1, region, now1, id);
    lemma_find_key_characterization(api1, entry_key(), id);
    let e1 = find_key(api1, entry_key(), id)->Some_0;
    assert(find_key(db2, row_key(), id) == Some(row_of_entry(e1, region, now1)));
    assert(!grouped_demoted_after(hist2, id, now1));
    assert(!spec_has_promoted(id, db2, hist2));
    let cand = promotion_candidate(db2, hist2, region);
    lemma_filter_map_keyed(api2, cand, entry_key(), promotion_key(), id);
    lemma_find_key_characterization(api2, entry_key(), id);
    match find_key(api2, entry_key(), id) {
        Some(e2) => {
            assert(cand(e2) is None);
        },
        None => {},
    }
    lemma_find_key_characterization(
        promotions_of(api2, db2, hist2, region),
        promotion_key(),
        id,
    );
}

/// No duplicate promotion, over the stored demotion rows themselves: a
/// player fetched in one cycle, whose snapshot row that cycle writes, is
/// not flagged as promoted by the next cycle while every demotion row
/// recorded for them predates that write.
pub proof fn lemma_no_duplicate_promotion_rows(
    db: Seq<PlayerRowV>,
    api1: Seq<(LadderEntryV, RankTier)>,
    api2: Seq<(LadderEntryV, RankTier)>,
    rows2: Seq<DemotionRowV>,
    region: Seq<char>,
    now1: int,
    id: Seq<char>,
)
    requires
        keys_unique(api1, entry_key()),
        keys_unique(api2, entry_key()),
        contains_key(api1, entry_key(), id),
        forall|i: int|
            0 <= i < rows2.len() && rows2[i].summoner_id == id ==> #[trigger] rows2[i].created_at_ms
                <= now1,
    ensures
        !contains_key(
            flat_promotions_of(api2, upsert_result(db, api1, region, now1), rows2, region),
            promotion_key(),
            id,
        ),
{
    let db2 = upsert_result(db, api1, region, now1);
    lemma_upsert_finds(db, api1, region, now1, id);
    lemma_find_key_characterization(api1, entry_key(), id);
    let e1 = find_key(api1, entry_key(), id)->Some_0;
    assert(find_key(db2, row_key(), id) == Some(row_of_entry(e1, region, now1)));
    assert(!demoted_after(rows2, id, now1));
    assert(!flat_has_promoted(id, db2, rows2));
    let cand = flat_promotion_candidate(db2, rows2, region);
    lemma_filter_map_keyed(api2, cand, entry_key(), promotion_key(), id);
    lemma_find_key_characterization(api2, entry_key(), id);
    match find_key(api2, entry_key(), id) {
        Some(e2) => {
            assert(cand(e2) is None);
        },
        None => {},
    }
    lemma_find_key_characterization(
        flat_promotions_of(api2, db2, rows2, region),
        promotion_key(),
        id,
    );
}

/// No duplicate demotion, over the stored demotion rows themselves: once
/// a demotion row is recorded after a player's stored row was written,
/// further cycles in which the player stays absent emit no new demotion —
/// their row is not rewritten while they are absent.
pub proof fn lemma_no_duplicate_demotion_rows(
    db: Seq<PlayerRowV>,
    api1: Seq<(LadderEntryV, RankTier)>,
    api2: Seq<(LadderEntryV, RankTier)>,
    rows2: Seq<DemotionRowV>,
    region: Seq<char>,
    now1: int,
    id: Seq<char>,
)
    requires
        keys_unique(db, row_key()),
        keys_unique(api1, entry_key()),
        !contains_key(api1, entry_key(), id),
        !contains_key(api2, entry_key(), id),
        contains_key(db, row_key(), id),
        demoted_after(rows2, id, find_key(db, row_key(), id)->Some_0.updated_at_ms),
    ensures
        !contains_key(
            flat_demotions_of(upsert_result(db, api1, region, now1), api2, rows2, region),
            demotion_key(),
            id,
        ),
{
    let db2 = upsert_result(db, api1, region, now1);
    lemma_upsert_finds(db, api1, region, now1, id);
    lemma_find_key_characterization(api1, entry_key(), id);
    assert(find_key(api1, entry_key(), id) is None);
    lemma_find_key_characterization(db, row_key(), id);
    let row = find_key(db, row_key(), id)->Some_0;
    assert(find_key(db2, row_key(), id) == Some(row));
    let cand = flat_demotion_candidate(api2, rows2, region);
    lemma_filter_map_keyed(db2, cand, row_key(), demotion_key(), id);
    assert(row.summoner_id == id);
    assert(cand(row) is None);
    lemma_find_key_characterization(
        flat_demotions_of(db2, api2, rows2, region),
        demotion_key(),
        id,
    );
}

/// A player who drops out of the ladder with no demotion recorded for
/// their tenure is flagged as demoted, exactly once this cycle: the
/// demotions carry no duplicate identities and the player's record carries
/// the stored wins and losses.
pub proof fn lemma_demotion_emitted(
    db: Seq<PlayerRowV>,
    api: Seq<(LadderEntryV, RankTier)>,
    hist: Seq<DemotionGroupV>,
    region: Seq<char>,
    id: Seq<char>,
)
    requires
        keys_unique(db, row_key()),
        contains_key(db, row_key(), id),
        !contains_key(api, entry_key(), id),
        !grouped_demoted_after(hist, id, find_key(db, row_key(), id)->Some_0.updated_at_ms),
    ensures
        keys_unique(demotions_of(db, api, hist, region), demotion_key()),
        find_key(demotions_of(db, api, hist, region), demotion_key(), id) == Some(
            DemotionRecordV {
                summoner_id: id,
                region: region,
                at_wins: find_key(db, row_key(), id)->Some_0.wins,
                at_losses: find_key(db, row_key(), id)->Some_0.losses,
            },
        ),
{
    let cand = demotion_candidate(api, hist, region);
    lemma_filter_map_keyed(db, cand, row_key(), demotion_key(), id);
    lemma_find_key_characterization(db, row_key(), id);
    let row = find_key(db, row_key(), id)->Some_0;
    assert(row.summoner_id == id);
    assert(spec_has_demoted(row, hist));
}

/// No duplicate demotion: once a demotion is recorded after a player's
/// stored row was written, further cycles in which the player stays absent
/// emit no new demotion — the row is not rewritten while they are absent,
/// so the recorded demotion keeps covering their tenure.
pub proof fn lemma_no_duplicate_demotion(
    db: Seq<PlayerRowV>,
    api1: Seq<(LadderEntryV, RankTier)>,
    api2: Seq<(LadderEntryV, RankTier)>,
    hist2: Seq<DemotionGroupV>,
    region: Seq<char>,
    now1: int,
    id: Seq<char>,
)
    requires
        keys_unique(db, row_key()),
        keys_unique(api1, entry_key()),
        !contains_key(api1, entry_key(), id),
        !contains_key(api2, entry_key(), id),
        contains_key(db, row_key(), id),
        grouped_demoted_after(hist2, id, find_key(db, row_key(), id)->Some_0.updated_at_ms),
    ensures
        !contains_key(
            demotions_of(upsert_result(db, api1, region, now1), api2, hist2, region),
            demotion_key(),
            id,
        ),
{
    let db2 = upsert_result(db, api1, region, now1);
    lemma_upsert_finds(db, api1, region, now1, id);
    lemma_find_key_characterization(api1, entry_key(), id);
    assert(find_key(api1, entry_key(), id) is None);
    lemma_find_key_characterization(db, row_key(), id);
    let row = find_key(db, row_key(), id)->Some_0;
    assert(find_key(db2, row_key(), id) == Some(row));
    let cand = demotion_candidate(api2, hist2, region);
    lemma_filter_map_keyed(db2, cand, row_key(), demotion_key(), id);
    assert(row.summoner_id == id);
    assert(cand(row) is None);
    lemma_find_key_characterization(
        demotions_of(db2, api2, hist2, region),
        demotion_key(),
        id,
    );
}

} // verus!
