//! The per-region snapshot of apex-tier players: lookups, the merge of the
//! three fetched tier leaderboards, and the upsert semantics of the
//! snapshot writer.
//!
//! A stored snapshot is a sequence of [`PlayerRow`]s with pairwise distinct
//! player identities; a merged ladder is a sequence of leaderboard entries,
//! each tagged with the tier it came from.  The merge refuses a fetch in
//! which one player identity appears twice — the upstream tiers are
//! disjoint, so a duplicate means the data contradicts itself.

use vstd::prelude::*;

use crate::SyncError;
use crate::config::Region;
use crate::entities::{
    Duplicable, LadderEntry, LadderEntryV, PlayerRow, PlayerRowV, RankTier, TierCounts,
};
use crate::keyed::{
    contains_key, find_key, keys_unique, lemma_filter_map_all_none, lemma_filter_map_keyed,
    lemma_find_key_add, lemma_find_key_characterization, lemma_find_key_map_values,
    lemma_find_key_skip, lemma_find_key_unique,
};

verus! {

/// The identity a snapshot row is keyed by.
pub open spec fn row_key() -> spec_fn(PlayerRowV) -> Seq<char> {
    |r: PlayerRowV| r.summoner_id
}

/// The identity a tagged ladder entry is keyed by.
pub open spec fn entry_key() -> spec_fn((LadderEntryV, RankTier)) -> Seq<char> {
    |e: (LadderEntryV, RankTier)| e.0.summoner_id
}

/// The stored row for `id`, if the snapshot has one.
pub fn lookup_row<'a>(rows: &'a Vec<PlayerRow>, id: &String) -> (r: Option<&'a PlayerRow>)
    ensures
        match r {
            Some(p) => find_key(rows.deep_view(), row_key(), id@) == Some(p.deep_view()),
            None => find_key(rows.deep_view(), row_key(), id@) is None,
        },
{
    let ghost dv = rows.deep_view();
    let n = rows.len();
    let mut i: usize = 0;
    while i < n
        invariant
            i <= n,
            n == rows.len(),
            dv == rows.deep_view(),
            forall|j: int| 0 <= j < i ==> #[trigger] dv[j].summoner_id != id@,
        decreases n - i,
    {
        if rows[i].summoner_id == *id {
            proof {
                lemma_find_key_skip(dv, row_key(), id@, i as int);
                assert(dv.skip(i as int)[0] == dv[i as int]);
                assert(find_key(dv, row_key(), id@) == Some(dv[i as int]));
            }
            return Some(&rows[i]);
        }
        i += 1;
    }
    proof {
        lemma_find_key_characterization(dv, row_key(), id@);
    }
    None
}

/// The tagged entry for `id` in a merged ladder, if one is there.
pub fn lookup_entry<'a>(
    entries: &'a Vec<(LadderEntry, RankTier)>,
    id: &String,
) -> (r: Option<&'a (LadderEntry, RankTier)>)
    ensures
        match r {
            Some(e) => find_key(entries.deep_view(), entry_key(), id@) == Some(e.deep_view()),
            None => find_key(entries.deep_view(), entry_key(), id@) is None,
        },
{
    let ghost dv = entries.deep_view();
    let n = entries.len();
    let mut i: usize = 0;
    while i < n
        invariant
            i <= n,
            n == entries.len(),
            dv == entries.deep_view(),
            forall|j: int| 0 <= j < i ==> #[trigger] dv[j].0.summoner_id != id@,
        decreases n - i,
    {
        if entries[i].0.summoner_id == *id {
            proof {
                lemma_find_key_skip(dv, entry_key(), id@, i as int);
                assert(dv.skip(i as int)[0] == dv[i as int]);
                assert(find_key(dv, entry_key(), id@) == Some(dv[i as int]));
            }
            return Some(&entries[i]);
        }
        i += 1;
    }
    proof {
        lemma_find_key_characterization(dv, entry_key(), id@);
    }
    None
}

/// Whether a merged ladder carries an entry for `id`.
pub fn ladder_contains(entries: &Vec<(LadderEntry, RankTier)>, id: &String) -> (r: bool)
    ensures
        r == contains_key(entries.deep_view(), entry_key(), id@),
{
    proof {
        lemma_find_key_characterization(entries.deep_view(), entry_key(), id@);
    }
    lookup_entry(entries, id).is_some()
}

/// One tier's result set, each entry tagged with that tier.
pub open spec fn tag_entries(s: Seq<LadderEntryV>, tier: RankTier) -> Seq<(LadderEntryV, RankTier)> {
    s.map_values(|e: LadderEntryV| (e, tier))
}

/// What merging a fetch comes to: the three tier result sets concatenated,
/// highest tier last, each entry tagged with its source tier.
pub open spec fn merged_ladder(
    m: Seq<LadderEntryV>,
    g: Seq<LadderEntryV>,
    c: Seq<LadderEntryV>,
) -> Seq<(LadderEntryV, RankTier)> {
    tag_entries(m, RankTier::Master) + tag_entries(g, RankTier::Grandmaster) + tag_entries(
        c,
        RankTier::Challenger,
    )
}

/// A duplicated key in a prefix stays duplicated in the whole sequence.
proof fn lemma_not_unique_prefix<T>(s: Seq<T>, t: Seq<T>, key: spec_fn(T) -> Seq<char>)
    requires
        !keys_unique(s, key),
        s.len() <= t.len(),
        forall|i: int| 0 <= i < s.len() ==> s[i] == t[i],
    ensures
        !keys_unique(t, key),
{
    let (i, j) = choose|i: int, j: int|
        0 <= i < j < s.len() && key(s[i]) == key(s[j]);
    assert(t[i] == s[i] && t[j] == s[j]);
}

/// Appends one tier's entries to the merge accumulator, tagging each with
/// `tier` and refusing any identity the accumulator already carries.
#[verifier::loop_isolation(false)]
fn push_tier(
    acc: &mut Vec<(LadderEntry, RankTier)>,
    list: &Vec<LadderEntry>,
    tier: RankTier,
) -> (ok: bool)
    ensures
        ok ==> final(acc).deep_view() == old(acc).deep_view() + tag_entries(
            list.deep_view(),
            tier,
        ),
        ok && keys_unique(old(acc).deep_view(), entry_key()) ==> keys_unique(
            final(acc).deep_view(),
            entry_key(),
        ),
        !ok ==> !keys_unique(
            old(acc).deep_view() + tag_entries(list.deep_view(), tier),
            entry_key(),
        ),
{
    let ghost base = old(acc).deep_view();
    let ghost ldv = list.deep_view();
    let ghost full = base + tag_entries(ldv, tier);
    let n = list.len();
    let mut i: usize = 0;
    while i < n
        invariant
            i <= n,
            n == list.len(),
            ldv == list.deep_view(),
            acc.deep_view() =~= base + tag_entries(ldv.take(i as int), tier),
            keys_unique(base, entry_key()) ==> keys_unique(acc.deep_view(), entry_key()),
        decreases n - i,
    {
        let ghost pre = acc.deep_view();
        let id = &list[i].summoner_id;
        if ladder_contains(acc, id) {
            proof {
                // The accumulator is a pointwise prefix of the full tagged
                // sequence, and the entry being added duplicates a key in it.
                let k = choose|k: int| 0 <= k < pre.len() && entry_key()(pre[k]) == id@;
                let dup = pre.len() as int;
                assert(ldv.len() == n);
                assert(tag_entries(ldv.take(i as int), tier).len() == i);
                assert(pre.len() == base.len() + i);
                assert(full.len() == base.len() + n);
                assert(full[dup] == tag_entries(ldv, tier)[i as int]);
                assert(tag_entries(ldv, tier)[i as int] == (ldv[i as int], tier));
                assert(ldv[i as int].summoner_id == id@);
                assert(full[dup].0.summoner_id == id@);
                assert(forall|a: int| 0 <= a < base.len() ==> pre[a] == #[trigger] full[a]);
                assert forall|a: int| base.len() <= a < pre.len() implies pre[a] == #[trigger] full[a] by {
                    assert(pre[a] == tag_entries(ldv.take(i as int), tier)[a - base.len()]);
                    assert(full[a] == tag_entries(ldv, tier)[a - base.len()]);
                    assert(ldv.take(i as int)[a - base.len()] == ldv[a - base.len()]);
                }
                assert(!keys_unique(full.take(dup + 1), entry_key())) by {
                    assert(full.take(dup + 1)[k] == pre[k]);
                    assert(full.take(dup + 1)[dup] == full[dup]);
                    assert(entry_key()(full.take(dup + 1)[k]) == entry_key()(
                        full.take(dup + 1)[dup],
                    ));
                }
                lemma_not_unique_prefix(full.take(dup + 1), full, entry_key());
            }
            return false;
        }
        let tagged = (list[i].duplicate(), tier);
        proof {
            assert(tagged.deep_view() == (ldv[i as int], tier));
        }
        acc.push(tagged);
        proof {
            assert(acc.deep_view() =~= pre.push((ldv[i as int], tier)));
            assert(tag_entries(ldv.take(i + 1 as int), tier) =~= tag_entries(
                ldv.take(i as int),
                tier,
            ).push((ldv[i as int], tier)));
            assert(acc.deep_view() =~= base + tag_entries(ldv.take(i + 1 as int), tier));
            if keys_unique(base, entry_key()) {
                assert forall|a: int, b: int|
                    0 <= a < b < acc.deep_view().len() implies entry_key()(
                    acc.deep_view()[a],
                ) != entry_key()(acc.deep_view()[b]) by {
                    if b == acc.deep_view().len() - 1 {
                        assert(acc.deep_view()[a] == pre[a]);
                        assert(!contains_key(pre, entry_key(), id@));
                    }
                }
            }
        }
        i += 1;
    }
    proof {
        assert(ldv.take(n as int) =~= ldv);
    }
    true
}

/// Merges the three fetched tier leaderboards into one new snapshot,
/// tagging each entry with its tier, and reports the three raw tier sizes.
///
/// Succeeds exactly when no player identity appears twice across the three
/// result sets; a duplicate is a [`SyncError::DataIntegrityAnomaly`] and the
/// whole fetch is refused — no partial leaderboard is accepted.
pub fn merge_tiers(
    master: &Vec<LadderEntry>,
    grandmaster: &Vec<LadderEntry>,
    challenger: &Vec<LadderEntry>,
) -> (r: Result<(Vec<(LadderEntry, RankTier)>, TierCounts), SyncError>)
    ensures
        match r {
            Ok((ladder, counts)) => {
                &&& ladder.deep_view() == merged_ladder(
                    master.deep_view(),
                    grandmaster.deep_view(),
                    challenger.deep_view(),
                )
                &&& keys_unique(ladder.deep_view(), entry_key())
                &&& counts == (TierCounts {
                    master: master.len(),
                    grandmaster: grandmaster.len(),
                    challenger: challenger.len(),
                })
            },
            Err(e) => {
                &&& e == SyncError::DataIntegrityAnomaly
                &&& !keys_unique(
                    merged_ladder(
                        master.deep_view(),
                        grandmaster.deep_view(),
                        challenger.deep_view(),
                    ),
                    entry_key(),
                )
            },
        },
{
    let ghost full = merged_ladder(
        master.deep_view(),
        grandmaster.deep_view(),
        challenger.deep_view(),
    );
    let mut acc: Vec<(LadderEntry, RankTier)> = Vec::new();
    proof {
        assert(acc.deep_view() =~= Seq::<(LadderEntryV, RankTier)>::empty());
    }
    let ok_m = push_tier(&mut acc, master, RankTier::Master);
    proof {
        assert(Seq::<(LadderEntryV, RankTier)>::empty() + tag_entries(
            master.deep_view(),
            RankTier::Master,
        ) =~= tag_entries(master.deep_view(), RankTier::Master));
    }
    if !ok_m {
        proof {
            let part = tag_entries(master.deep_view(), RankTier::Master);
            lemma_not_unique_prefix(part, full, entry_key());
        }
        return Err(SyncError::DataIntegrityAnomaly);
    }
    let ok_g = push_tier(&mut acc, grandmaster, RankTier::Grandmaster);
    if !ok_g {
        proof {
            let part = tag_entries(master.deep_view(), RankTier::Master) + tag_entries(
                grandmaster.deep_view(),
                RankTier::Grandmaster,
            );
            assert(forall|i: int| 0 <= i < part.len() ==> part[i] == #[trigger] full[i]);
            lemma_not_unique_prefix(part, full, entry_key());
        }
        return Err(SyncError::DataIntegrityAnomaly);
    }
    let ok_c = push_tier(&mut acc, challenger, RankTier::Challenger);
    if !ok_c {
        proof {
            let part = (tag_entries(master.deep_view(), RankTier::Master) + tag_entries(
                grandmaster.deep_view(),
                RankTier::Grandmaster,
            )) + tag_entries(challenger.deep_view(), RankTier::Challenger);
            assert(part =~= full);
        }
        return Err(SyncError::DataIntegrityAnomaly);
    }
    proof {
        assert(acc.deep_view() =~= full);
    }
    let counts = TierCounts {
        master: master.len(),
        grandmaster: grandmaster.len(),
        challenger: challenger.len(),
    };
    Ok((acc, counts))
}

/// The snapshot row a tagged ladder entry is written as.
pub open spec fn row_of_entry(
    e: (LadderEntryV, RankTier),
    region: Seq<char>,
    now: int,
) -> PlayerRowV {
    PlayerRowV {
        summoner_id: e.0.summoner_id,
        region: region,
        rank_tier: e.1,
        current_lp: e.0.league_points,
        wins: e.0.wins,
        losses: e.0.losses,
        updated_at_ms: now,
    }
}

/// How the upsert rewrites a stored row: a row whose player is in the new
/// snapshot is overwritten with the fresh data, any other row is kept.
pub open spec fn upsert_replacer(
    api: Seq<(LadderEntryV, RankTier)>,
    region: Seq<char>,
    now: int,
) -> spec_fn(PlayerRowV) -> PlayerRowV {
    |r: PlayerRowV|
        match find_key(api, entry_key(), r.summoner_id) {
            Some(e) => row_of_entry(e, region, now),
            None => r,
        }
}

/// Which fetched entries the upsert appends: those whose player has no
/// stored row yet.
pub open spec fn upsert_appender(
    db: Seq<PlayerRowV>,
    region: Seq<char>,
    now: int,
) -> spec_fn((LadderEntryV, RankTier)) -> Option<PlayerRowV> {
    |e: (LadderEntryV, RankTier)|
        if contains_key(db, row_key(), e.0.summoner_id) {
            None
        } else {
            Some(row_of_entry(e, region, now))
        }
}

/// The stored snapshot after one upsert of the merged ladder: every row of
/// a fetched player is overwritten, every other row is kept, and players
/// without a row get one appended.  Rows are never deleted.
pub open spec fn upsert_result(
    db: Seq<PlayerRowV>,
    api: Seq<(LadderEntryV, RankTier)>,
    region: Seq<char>,
    now: int,
) -> Seq<PlayerRowV> {
    db.map_values(upsert_replacer(api, region, now)) + api.filter_map(
        upsert_appender(db, region, now),
    )
}

/// Whether the stored snapshot carries a row for `id`.
pub fn snapshot_contains(rows: &Vec<PlayerRow>, id: &String) -> (r: bool)
    ensures
        r == contains_key(rows.deep_view(), row_key(), id@),
{
    proof {
        lemma_find_key_characterization(rows.deep_view(), row_key(), id@);
    }
    lookup_row(rows, id).is_some()
}

/// The rows the snapshot writer hands to the store, one per fetched player,
/// all carrying this cycle's region and write time.
#[verifier::loop_isolation(false)]
pub fn snapshot_rows(
    api: &Vec<(LadderEntry, RankTier)>,
    region: Region,
    now_ms: i64,
) -> (r: Vec<PlayerRow>)
    ensures
        r.deep_view() == api.deep_view().map_values(
            |e: (LadderEntryV, RankTier)| row_of_entry(e, region.code_spec(), now_ms as int),
        ),
{
    let ghost apiv = api.deep_view();
    let ghost builder = |e: (LadderEntryV, RankTier)| row_of_entry(
        e,
        region.code_spec(),
        now_ms as int,
    );
    let mut out: Vec<PlayerRow> = Vec::new();
    let n = api.len();
    let mut i: usize = 0;
    while i < n
        invariant
            i <= n,
            out.deep_view() =~= apiv.take(i as int).map_values(builder),
        decreases n - i,
    {
        let e = &api[i];
        let row = PlayerRow {
            summoner_id: e.0.summoner_id.clone(),
            region: region.code(),
            rank_tier: e.1,
            current_lp: e.0.league_points,
            wins: e.0.wins,
            losses: e.0.losses,
            updated_at_ms: now_ms,
        };
        proof {
            assert(row.deep_view() == builder(apiv[i as int]));
        }
        let ghost pre = out.deep_view();
        out.push(row);
        proof {
            assert(out.deep_view() =~= pre.push(builder(apiv[i as int])));
            assert(apiv.take(i + 1 as int).map_values(builder) =~= apiv.take(
                i as int,
            ).map_values(builder).push(builder(apiv[i as int])));
        }
        i += 1;
    }
    proof {
        assert(apiv.take(n as int) =~= apiv);
    }
    out
}

/// Applies one upsert of the merged ladder to a stored snapshot, yielding
/// the snapshot the store holds afterwards.
#[verifier::loop_isolation(false)]
pub fn apply_upsert(
    db: &Vec<PlayerRow>,
    api: &Vec<(LadderEntry, RankTier)>,
    region: Region,
    now_ms: i64,
) -> (r: Vec<PlayerRow>)
    ensures
        r.deep_view() == upsert_result(
            db.deep_view(),
            api.deep_view(),
            region.code_spec(),
            now_ms as int,
        ),
{
    let ghost dbv = db.deep_view();
    let ghost apiv = api.deep_view();
    let ghost regv = region.code_spec();
    let ghost nowv = now_ms as int;
    let ghost repl = upsert_replacer(apiv, regv, nowv);
    let ghost app = upsert_appender(dbv, regv, nowv);
    let mut out: Vec<PlayerRow> = Vec::new();
    let n = db.len();
    let mut i: usize = 0;
    while i < n
        invariant
            i <= n,
            out.deep_view() =~= dbv.take(i as int).map_values(repl),
        decreases n - i,
    {
        let row = &db[i];
        let updated = match lookup_entry(api, &row.summoner_id) {
            Some(e) => PlayerRow {
                summoner_id: e.0.summoner_id.clone(),
                region: region.code(),
                rank_tier: e.1,
                current_lp: e.0.league_points,
                wins: e.0.wins,
                losses: e.0.losses,
                updated_at_ms: now_ms,
            },
            None => row.duplicate(),
        };
        proof {
            assert(updated.deep_view() == repl(dbv[i as int]));
        }
        let ghost pre = out.deep_view();
        out.push(updated);
        proof {
            assert(out.deep_view() =~= pre.push(repl(dbv[i as int])));
            assert(dbv.take(i + 1 as int).map_values(repl) =~= dbv.take(i as int).map_values(
                repl,
            ).push(repl(dbv[i as int])));
        }
        i += 1;
    }
    proof {
        assert(dbv.take(n as int) =~= dbv);
    }
    let m = api.len();
    let mut j: usize = 0;
    while j < m
        invariant
            j <= m,
            out.deep_view() =~= dbv.map_values(repl) + apiv.take(j as int).filter_map(app),
        decreases m - j,
    {
        let e = &api[j];
        let ghost pre = out.deep_view();
        if !snapshot_contains(db, &e.0.summoner_id) {
            let fresh = PlayerRow {
                summoner_id: e.0.summoner_id.clone(),
                region: region.code(),
                rank_tier: e.1,
                current_lp: e.0.league_points,
                wins: e.0.wins,
                losses: e.0.losses,
                updated_at_ms: now_ms,
            };
            proof {
                assert(fresh.deep_view() == row_of_entry(apiv[j as int], regv, nowv));
                assert(app(apiv[j as int]) == Some(fresh.deep_view()));
            }
            out.push(fresh);
            proof {
                assert(out.deep_view() =~= pre.push(row_of_entry(apiv[j as int], regv, nowv)));
            }
        } else {
            proof {
                assert(app(apiv[j as int]) is None);
            }
        }
        proof {
            apiv.lemma_filter_map_take_succ(app, j as int);
            assert(out.deep_view() =~= dbv.map_values(repl) + apiv.take(j + 1 as int).filter_map(
                app,
            ));
        }
        j += 1;
    }
    proof {
        assert(apiv.take(m as int) =~= apiv);
    }
    out
}

/// What one upsert leaves for each player identity: a fetched player ends
/// with exactly the fresh row for this cycle, anyone else keeps the row
/// they had — and a uniquely keyed snapshot stays uniquely keyed.
pub proof fn lemma_upsert_finds(
    db: Seq<PlayerRowV>,
    api: Seq<(LadderEntryV, RankTier)>,
    region: Seq<char>,
    now: int,
    id: Seq<char>,
)
    requires
        keys_unique(api, entry_key()),
    ensures
        find_key(upsert_result(db, api, region, now), row_key(), id) == (match find_key(
            api,
            entry_key(),
            id,
        ) {
            Some(e) => Some(row_of_entry(e, region, now)),
            None => find_key(db, row_key(), id),
        }),
        keys_unique(db, row_key()) ==> keys_unique(upsert_result(db, api, region, now), row_key()),
{
    let repl = upsert_replacer(api, region, now);
    let app = upsert_appender(db, region, now);
    let mpart = db.map_values(repl);
    let apart = api.filter_map(app);
    assert forall|x: PlayerRowV| row_key()(#[trigger] repl(x)) == row_key()(x) by {
        lemma_find_key_characterization(api, entry_key(), x.summoner_id);
    }
    lemma_find_key_map_values(db, repl, row_key(), id);
    lemma_filter_map_keyed(api, app, entry_key(), row_key(), id);
    lemma_find_key_add(mpart, apart, row_key(), id);
    lemma_find_key_characterization(db, row_key(), id);
    lemma_find_key_characterization(api, entry_key(), id);
    lemma_find_key_characterization(mpart, row_key(), id);
    if contains_key(db, row_key(), id) {
        let r0 = find_key(db, row_key(), id)->Some_0;
        assert(find_key(mpart, row_key(), id) == Some(repl(r0)));
    } else {
        match find_key(api, entry_key(), id) {
            Some(e) => {
                assert(app(e) == Some(row_of_entry(e, region, now)));
            },
            None => {},
        }
    }
    if keys_unique(db, row_key()) {
        assert forall|a: int, b: int|
            0 <= a < b < (mpart + apart).len() implies row_key()((mpart + apart)[a]) != row_key()(
            (mpart + apart)[b],
        ) by {
            if b < mpart.len() {
                assert((mpart + apart)[a] == mpart[a] && (mpart + apart)[b] == mpart[b]);
            } else if a >= mpart.len() {
                assert((mpart + apart)[a] == apart[a - mpart.len()]);
                assert((mpart + apart)[b] == apart[b - mpart.len()]);
            } else {
                // One row kept or rewritten, one appended: the appended
                // row's player had no stored row, the other one's did.
                assert((mpart + apart)[a] == mpart[a] && mpart[a] == repl(db[a]));
                let bv = apart[b - mpart.len()];
                assert((mpart + apart)[b] == bv);
                api.lemma_filter_map_contains(app, bv);
                let t = choose|t: (LadderEntryV, RankTier)|
                    #[trigger] api.contains(t) && app(t) == Some(bv);
                assert(!contains_key(db, row_key(), t.0.summoner_id));
                assert(row_key()(bv) == t.0.summoner_id);
                assert(row_key()(mpart[a]) == db[a].summoner_id);
                assert(contains_key(db, row_key(), db[a].summoner_id));
            }
        }
    }
}

/// The upsert never deletes: every player with a stored row still has one
/// afterwards — a demoted player keeps their last-known row until they
/// reappear.
pub proof fn lemma_upsert_never_deletes(
    db: Seq<PlayerRowV>,
    api: Seq<(LadderEntryV, RankTier)>,
    region: Seq<char>,
    now: int,
    id: Seq<char>,
)
    requires
        keys_unique(api, entry_key()),
        contains_key(db, row_key(), id),
    ensures
        contains_key(upsert_result(db, api, region, now), row_key(), id),
{
    lemma_upsert_finds(db, api, region, now, id);
    lemma_find_key_characterization(db, row_key(), id);
    lemma_find_key_characterization(api, entry_key(), id);
    lemma_find_key_characterization(upsert_result(db, api, region, now), row_key(), id);
}

/// Writing the same new snapshot twice leaves the stored snapshot exactly
/// as one write leaves it: the upsert is idempotent.
pub proof fn lemma_upsert_idempotent(
    db: Seq<PlayerRowV>,
    api: Seq<(LadderEntryV, RankTier)>,
    region: Seq<char>,
    now: int,
)
    requires
        keys_unique(api, entry_key()),
    ensures
        upsert_result(upsert_result(db, api, region, now), api, region, now) =~= upsert_result(
            db,
            api,
            region,
            now,
        ),
{
    let repl = upsert_replacer(api, region, now);
    let s1 = upsert_result(db, api, region, now);
    let app1 = upsert_appender(db, region, now);
    let app2 = upsert_appender(s1, region, now);
    let mpart = db.map_values(repl);
    let apart = api.filter_map(app1);

    // Every fetched player has a row in the once-upserted snapshot, so the
    // second upsert appends nothing.
    assert forall|i: int| 0 <= i < api.len() implies (#[trigger] app2(api[i])) is None by {
        let kid = api[i].0.summoner_id;
        lemma_upsert_finds(db, api, region, now, kid);
        lemma_find_key_characterization(api, entry_key(), kid);
        assert(contains_key(api, entry_key(), kid));
        lemma_find_key_characterization(s1, row_key(), kid);
    }
    lemma_filter_map_all_none(api, app2);

    // Rewriting the once-upserted snapshot changes no row: rewritten rows
    // are rewritten to themselves, kept rows are kept again.
    assert forall|k: int| 0 <= k < s1.len() implies repl(#[trigger] s1[k]) == s1[k] by {
        if k < mpart.len() {
            assert(s1[k] == mpart[k] && mpart[k] == repl(db[k]));
            let x = db[k];
            match find_key(api, entry_key(), x.summoner_id) {
                Some(e) => {
                    lemma_find_key_characterization(api, entry_key(), x.summoner_id);
                    assert(repl(x) == row_of_entry(e, region, now));
                    assert(repl(x).summoner_id == x.summoner_id);
                },
                None => {},
            }
        } else {
            let bv = apart[k - mpart.len()];
            assert(s1[k] == bv);
            api.lemma_filter_map_contains(app1, bv);
            let t = choose|t: (LadderEntryV, RankTier)|
                #[trigger] api.contains(t) && app1(t) == Some(bv);
            let ti = choose|ti: int| 0 <= ti < api.len() && api[ti] == t;
            lemma_find_key_unique(api, entry_key(), ti);
            assert(find_key(api, entry_key(), bv.summoner_id) == Some(t));
            assert(repl(bv) == row_of_entry(t, region, now));
        }
    }
    assert(s1.map_values(repl) =~= s1);
    assert(upsert_result(s1, api, region, now) =~= s1.map_values(repl) + api.filter_map(app2));
    assert(s1.map_values(repl) + Seq::<PlayerRowV>::empty() =~= s1.map_values(repl));
}

} // verus!
