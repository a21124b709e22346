//! A model of the per-region store and of one whole synchronization
//! cycle against it.
//!
//! The relational store is an external collaborator; what is modelled
//! here is exactly the state one region's cycle reads and writes: the
//! snapshot rows, the demotion rows read back by later diffs, the three
//! append-only event logs and the population counters.  One cycle —
//! read, diff, write, commit — is a pure function over that state, and
//! its transactional discipline is the commit decision: every write of a
//! cycle becomes visible together, or none does.

use vstd::prelude::*;

use crate::apex_tier_players::{apply_upsert, upsert_result};
use crate::config::Region;
use crate::dodges::{dodges_of, find_dodges};
use crate::entities::{
    DemotionRecord, DemotionRecordV, DemotionRow, DemotionRowV, DodgeRecord, DodgeRecordV,
    LadderEntry, LadderEntryV, PlayerRow, PlayerRowV, PopulationRow, PopulationRowV,
    PromotionRecord, PromotionRecordV, RankTier, TierCounts, append_all,
};
use crate::player_counts::{
    counts_due, latest_count_time, population_rows, spec_counts_due, spec_latest_count_time,
    spec_population_rows,
};
use crate::promotions_demotions::{
    find_demotions, find_promotions, flat_demotions_of, flat_promotions_of, group_demotions,
    lemma_flat_demotions, lemma_flat_promotions,
};

verus! {

/// Everything the store holds for one region.
pub struct StoreState {
    /// The current snapshot: at most one row per player identity.
    pub players: Vec<PlayerRow>,
    /// What earlier cycles' demotion events left behind, as read back by
    /// the diff: who was demoted, and when the row was created.
    pub demotion_rows: Vec<DemotionRow>,
    /// Append-only dodge log.
    pub dodge_log: Vec<DodgeRecord>,
    /// Append-only promotion log.
    pub promotion_log: Vec<PromotionRecord>,
    /// Append-only demotion log.
    pub demotion_log: Vec<DemotionRecord>,
    /// Append-only tier-population observations.
    pub population_rows: Vec<PopulationRow>,
}

/// Ghost view of [`StoreState`].
pub struct StoreStateV {
    pub players: Seq<PlayerRowV>,
    pub demotion_rows: Seq<DemotionRowV>,
    pub dodge_log: Seq<DodgeRecordV>,
    pub promotion_log: Seq<PromotionRecordV>,
    pub demotion_log: Seq<DemotionRecordV>,
    pub population_rows: Seq<PopulationRowV>,
}

impl View for StoreState {
    type V = StoreStateV;

    open spec fn view(&self) -> StoreStateV {
        StoreStateV {
            players: self.players.deep_view(),
            demotion_rows: self.demotion_rows.deep_view(),
            dodge_log: self.dodge_log.deep_view(),
            promotion_log: self.promotion_log.deep_view(),
            demotion_log: self.demotion_log.deep_view(),
            population_rows: self.population_rows.deep_view(),
        }
    }
}

impl StoreState {
    /// A store with nothing in it yet.
    pub fn new() -> (r: StoreState)
        ensures
            r@.players.len() == 0,
            r@.demotion_rows.len() == 0,
            r@.dodge_log.len() == 0,
            r@.promotion_log.len() == 0,
            r@.demotion_log.len() == 0,
            r@.population_rows.len() == 0,
    {
        StoreState {
            players: Vec::new(),
            demotion_rows: Vec::new(),
            dodge_log: Vec::new(),
            promotion_log: Vec::new(),
            demotion_log: Vec::new(),
            population_rows: Vec::new(),
        }
    }
}

/// The events one cycle derives and hands to the store.
pub struct CycleEvents {
    pub dodges: Vec<DodgeRecord>,
    pub promotions: Vec<PromotionRecord>,
    pub demotions: Vec<DemotionRecord>,
    /// The population rows written this cycle; empty when the latest ones
    /// were still fresh and the write was skipped.
    pub populations: Vec<PopulationRow>,
}

/// The demotion rows that this cycle's demotion events leave behind, all
/// stamped with the cycle's time.
pub open spec fn demotion_rows_from(events: Seq<DemotionRecordV>, now: int) -> Seq<DemotionRowV> {
    events.map_values(|d: DemotionRecordV| DemotionRowV { summoner_id: d.summoner_id, created_at_ms: now })
}

/// What the store holds after one committed cycle: the upserted snapshot,
/// each event log extended by this cycle's events, the demotion rows
/// extended accordingly, and the population rows extended exactly when
/// the latest ones had gone stale.
pub open spec fn spec_cycle_store(
    s: StoreStateV,
    api: Seq<(LadderEntryV, RankTier)>,
    counts: TierCounts,
    region: Seq<char>,
    now: int,
) -> StoreStateV {
    let dodges = dodges_of(s.players, api);
    let promotions = flat_promotions_of(api, s.players, s.demotion_rows, region);
    let demotions = flat_demotions_of(s.players, api, s.demotion_rows, region);
    StoreStateV {
        players: upsert_result(s.players, api, region, now),
        demotion_rows: s.demotion_rows + demotion_rows_from(demotions, now),
        dodge_log: s.dodge_log + dodges,
        promotion_log: s.promotion_log + promotions,
        demotion_log: s.demotion_log + demotions,
        population_rows: if spec_counts_due(now, spec_latest_count_time(s.population_rows)) {
            s.population_rows + spec_population_rows(counts, region, now)
        } else {
            s.population_rows
        },
    }
}

/// Runs the in-memory part of one cycle: diffs the fetched ladder against
/// the stored snapshot, derives the three event batches, applies the
/// snapshot upsert and the staleness-gated population write, and returns
/// the refreshed store beside the derived events.
#[verifier::loop_isolation(false)]
pub fn run_cycle(
    store: StoreState,
    api: &Vec<(LadderEntry, RankTier)>,
    counts: TierCounts,
    region: Region,
    now_ms: i64,
) -> (r: (StoreState, CycleEvents))
    ensures
        r.0@ == spec_cycle_store(store@, api.deep_view(), counts, region.code_spec(), now_ms as int),
        r.1.dodges.deep_view() == dodges_of(store@.players, api.deep_view()),
        r.1.promotions.deep_view() == flat_promotions_of(
            api.deep_view(),
            store@.players,
            store@.demotion_rows,
            region.code_spec(),
        ),
        r.1.demotions.deep_view() == flat_demotions_of(
            store@.players,
            api.deep_view(),
            store@.demotion_rows,
            region.code_spec(),
        ),
        r.1.populations.deep_view() == (if spec_counts_due(
            now_ms as int,
            spec_latest_count_time(store@.population_rows),
        ) {
            spec_population_rows(counts, region.code_spec(), now_ms as int)
        } else {
            Seq::<PopulationRowV>::empty()
        }),
{
    let ghost sv = store@;
    let ghost apiv = api.deep_view();
    let ghost regv = region.code_spec();
    let StoreState {
        players,
        demotion_rows,
        dodge_log,
        promotion_log,
        demotion_log,
        population_rows: populations,
    } = store;

    let dodges = find_dodges(&players, api);
    let groups = group_demotions(&demotion_rows);
    let promotions = find_promotions(api, &players, &groups, region);
    let demotions = find_demotions(api, &players, &groups, region);
    proof {
        lemma_flat_promotions(apiv, sv.players, groups.deep_view(), sv.demotion_rows, regv);
        lemma_flat_demotions(sv.players, apiv, groups.deep_view(), sv.demotion_rows, regv);
    }
    let new_players = apply_upsert(&players, api, region, now_ms);

    let mut new_demotion_rows = demotion_rows;
    let ghost base_rows = sv.demotion_rows;
    let ghost demv = demotions.deep_view();
    let n = demotions.len();
    let mut i: usize = 0;
    while i < n
        invariant
            i <= n,
            new_demotion_rows.deep_view() =~= base_rows + demotion_rows_from(
                demv.take(i as int),
                now_ms as int,
            ),
        decreases n - i,
    {
        let ghost pre = new_demotion_rows.deep_view();
        new_demotion_rows.push(DemotionRow {
            summoner_id: demotions[i].summoner_id.clone(),
            created_at_ms: now_ms,
        });
        proof {
            assert(new_demotion_rows.deep_view() =~= pre.push(
                DemotionRowV { summoner_id: demv[i as int].summoner_id, created_at_ms: now_ms as int },
            ));
            assert(base_rows + demotion_rows_from(demv.take(i + 1 as int), now_ms as int)
                =~= pre.push(
                DemotionRowV { summoner_id: demv[i as int].summoner_id, created_at_ms: now_ms as int },
            ));
        }
        i += 1;
    }
    proof {
        assert(demv.take(n as int) =~= demv);
    }

    let mut new_dodge_log = dodge_log;
    append_all(&mut new_dodge_log, &dodges);
    let mut new_promotion_log = promotion_log;
    append_all(&mut new_promotion_log, &promotions);
    let mut new_demotion_log = demotion_log;
    append_all(&mut new_demotion_log, &demotions);

    let latest = latest_count_time(&populations);
    let due = counts_due(now_ms, latest);
    let mut new_populations = populations;
    let written: Vec<PopulationRow> = if due {
        let rows = population_rows(counts, region, now_ms);
        append_all(&mut new_populations, &rows);
        rows
    } else {
        Vec::new()
    };
    proof {
        if !spec_counts_due(now_ms as int, spec_latest_count_time(sv.population_rows)) {
            assert(written.deep_view() =~= Seq::<PopulationRowV>::empty());
        }
    }

    let new_store = StoreState {
        players: new_players,
        demotion_rows: new_demotion_rows,
        dodge_log: new_dodge_log,
        promotion_log: new_promotion_log,
        demotion_log: new_demotion_log,
        population_rows: new_populations,
    };
    let events = CycleEvents { dodges, promotions, demotions, populations: written };
    (new_store, events)
}

/// Ends a cycle's transaction.  A committed cycle publishes the snapshot
/// write, the event rows and the population rows together; a rolled-back
/// cycle publishes nothing at all — the store is left exactly as it was
/// read at the start, however far the cycle's writes had been issued.
pub fn finish_cycle(
    store: StoreState,
    api: &Vec<(LadderEntry, RankTier)>,
    counts: TierCounts,
    region: Region,
    now_ms: i64,
    commit: bool,
) -> (r: StoreState)
    ensures
        commit ==> r@ == spec_cycle_store(
            store@,
            api.deep_view(),
            counts,
            region.code_spec(),
            now_ms as int,
        ),
        !commit ==> r@ == store@,
{
    if commit {
        let (new_store, _) = run_cycle(store, api, counts, region, now_ms);
        new_store
    } else {
        store
    }
}

} // verus!
