//! Dodge detection: a rank-point loss with an unchanged game count.
//!
//! A queue-dodge penalty costs a few rank points and no game; inactivity
//! decay shares the "no new game" signature but costs far more.  A dodge is
//! therefore flagged exactly when points were lost, the game count is
//! unchanged, and the loss stays within [`DODGE_LP_CEILING`].

use vstd::prelude::*;

use crate::apex_tier_players::{entry_key, lookup_row, row_key};
use crate::config::DODGE_LP_CEILING;
use crate::entities::{
    DodgeRecord, DodgeRecordV, LadderEntry, LadderEntryV, PlayerRow, PlayerRowV, RankTier,
};
use crate::keyed::{find_key, keys_unique, lemma_filter_map_keyed, lemma_find_key_characterization};

verus! {

/// Whether the step from a stored row to a fresh entry is a dodge: points
/// were lost, no game was recorded, and the loss is within the ceiling.
pub open spec fn is_dodge(old: PlayerRowV, new: LadderEntryV) -> bool {
    &&& new.league_points < old.current_lp
    &&& new.wins + new.losses == old.wins + old.losses
    &&& old.current_lp - new.league_points <= DODGE_LP_CEILING as int
}

/// The log row a detected dodge is written as: points before and after,
/// and the tier, wins and losses at detection time.
pub open spec fn dodge_record_of(old: PlayerRowV, e: (LadderEntryV, RankTier)) -> DodgeRecordV {
    DodgeRecordV {
        summoner_id: old.summoner_id,
        region: old.region,
        lp_before: old.current_lp,
        lp_after: e.0.league_points,
        rank_tier: e.1,
        at_wins: old.wins,
        at_losses: old.losses,
    }
}

/// What one fetched entry contributes: a dodge record if its player has a
/// stored row and the step is a dodge, nothing otherwise.
pub open spec fn dodge_candidate(
    db: Seq<PlayerRowV>,
) -> spec_fn((LadderEntryV, RankTier)) -> Option<DodgeRecordV> {
    |e: (LadderEntryV, RankTier)|
        match find_key(db, row_key(), e.0.summoner_id) {
            Some(old) => if is_dodge(old, e.0) {
                Some(dodge_record_of(old, e))
            } else {
                None
            },
            None => None,
        }
}

/// All dodges of one cycle, in the order of the merged ladder.
pub open spec fn dodges_of(
    db: Seq<PlayerRowV>,
    api: Seq<(LadderEntryV, RankTier)>,
) -> Seq<DodgeRecordV> {
    api.filter_map(dodge_candidate(db))
}

/// The identity a dodge record is keyed by.
pub open spec fn dodge_key() -> spec_fn(DodgeRecordV) -> Seq<char> {
    |d: DodgeRecordV| d.summoner_id
}

/// Finds every dodge between the stored snapshot and the fetched ladder:
/// one record per player who is in both and whose step is a dodge.
#[verifier::loop_isolation(false)]
pub fn find_dodges(
    db_players: &Vec<PlayerRow>,
    api_players: &Vec<(LadderEntry, RankTier)>,
) -> (r: Vec<DodgeRecord>)
    ensures
        r.deep_view() == dodges_of(db_players.deep_view(), api_players.deep_view()),
{
    let ghost dbv = db_players.deep_view();
    let ghost apiv = api_players.deep_view();
    let ghost cand = dodge_candidate(dbv);
    let mut out: Vec<DodgeRecord> = Vec::new();
    let n = api_players.len();
    let mut i: usize = 0;
    while i < n
        invariant
            i <= n,
            out.deep_view() =~= apiv.take(i as int).filter_map(cand),
        decreases n - i,
    {
        let e = &api_players[i];
        let ghost pre = out.deep_view();
        match lookup_row(db_players, &e.0.summoner_id) {
            Some(old) => {
                let old_games: i64 = old.wins as i64 + old.losses as i64;
                let new_games: i64 = e.0.wins as i64 + e.0.losses as i64;
                let lp_diff: i64 = old.current_lp as i64 - e.0.league_points as i64;
                if (e.0.league_points as i64) < (old.current_lp as i64) && new_games == old_games
                    && lp_diff <= DODGE_LP_CEILING as i64 {
                    let record = DodgeRecord {
                        summoner_id: old.summoner_id.clone(),
                        region: old.region.clone(),
                        lp_before: old.current_lp,
                        lp_after: e.0.league_points,
                        rank_tier: e.1,
                        at_wins: old.wins,
                        at_losses: old.losses,
                    };
                    proof {
                        assert(record.deep_view() == dodge_record_of(
                            old.deep_view(),
                            apiv[i as int],
                        ));
                        assert(cand(apiv[i as int]) == Some(record.deep_view()));
                    }
                    out.push(record);
                    proof {
                        assert(out.deep_view() =~= pre.push(record.deep_view()));
                    }
                } else {
                    proof {
                        assert(cand(apiv[i as int]) is None);
                    }
                }
            },
            None => {
                proof {
                    assert(cand(apiv[i as int]) is None);
                }
            },
        }
        proof {
            apiv.lemma_filter_map_take_succ(cand, i as int);
            assert(out.deep_view() =~= apiv.take(i + 1 as int).filter_map(cand));
        }
        i += 1;
    }
    proof {
        assert(apiv.take(n as int) =~= apiv);
    }
    out
}

/// The player identities implicated in this cycle's dodges, in order; these
/// are the players whose identity records get the best-effort enrichment.
#[verifier::loop_isolation(false)]
pub fn dodged_ids(dodges: &Vec<DodgeRecord>) -> (r: Vec<String>)
    ensures
        r.deep_view() == dodges.deep_view().map_values(|d: DodgeRecordV| d.summoner_id),
{
    let ghost dv = dodges.deep_view();
    let mut out: Vec<String> = Vec::new();
    let n = dodges.len();
    let mut i: usize = 0;
    while i < n
        invariant
            i <= n,
            out.deep_view() =~= dv.take(i as int).map_values(|d: DodgeRecordV| d.summoner_id),
        decreases n - i,
    {
        let ghost pre = out.deep_view();
        out.push(dodges[i].summoner_id.clone());
        proof {
            assert(out.deep_view() =~= pre.push(dv[i as int].summoner_id));
            assert(dv.take(i + 1 as int).map_values(|d: DodgeRecordV| d.summoner_id) =~= dv.take(
                i as int,
            ).map_values(|d: DodgeRecordV| d.summoner_id).push(dv[i as int].summoner_id));
        }
        i += 1;
    }
    proof {
        assert(dv.take(n as int) =~= dv);
    }
    out
}

/// Dodge monotonicity: with an unchanged game count and points lost, a
/// dodge is flagged exactly when the loss is within the ceiling; a changed
/// game count or unlost points never flag one, whatever the points delta.
pub proof fn lemma_dodge_monotonicity(old: PlayerRowV, new: LadderEntryV)
    ensures
        old.wins + old.losses == new.wins + new.losses && old.current_lp > new.league_points
            ==> (is_dodge(old, new) <==> old.current_lp - new.league_points
            <= DODGE_LP_CEILING as int),
        old.wins + old.losses != new.wins + new.losses ==> !is_dodge(old, new),
        new.league_points >= old.current_lp ==> !is_dodge(old, new),
{
}

/// The dodge detector emits at most one record per player per cycle: over
/// a ladder without duplicate identities, the records' identities are
/// pairwise distinct.
pub proof fn lemma_dodges_unique(db: Seq<PlayerRowV>, api: Seq<(LadderEntryV, RankTier)>)
    requires
        keys_unique(api, entry_key()),
    ensures
        keys_unique(dodges_of(db, api), dodge_key()),
{
    let cand = dodge_candidate(db);
    assert forall|x: (LadderEntryV, RankTier)| (#[trigger] cand(x)) is Some implies dodge_key()(
        cand(x)->Some_0,
    ) == entry_key()(x) by {
        lemma_find_key_characterization(db, row_key(), x.0.summoner_id);
    }
    lemma_filter_map_keyed(api, cand, entry_key(), dodge_key(), Seq::<char>::empty());
}

} // verus!
