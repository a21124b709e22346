//! The throttled tier-population counter.
//!
//! At most once per staleness window, a cycle appends one row per tier
//! with that cycle's raw tier sizes.  The decision reads the most recent
//! population row for the region; a fresh one makes the cycle skip the
//! write — a soft skip, not an error.

use vstd::prelude::*;

use crate::config::{COUNT_STALENESS_MS, Region};
use crate::entities::{PopulationRow, PopulationRowV, RankTier, TierCounts};

verus! {

/// When the most recent population row was written: the rows are
/// append-only, so the last one is the most recent.
pub open spec fn spec_latest_count_time(rows: Seq<PopulationRowV>) -> Option<int> {
    if rows.len() == 0 {
        None
    } else {
        Some(rows.last().at_time_ms)
    }
}

/// Whether new population rows are due: always when none were ever
/// written, otherwise only when the latest ones are at least a full
/// staleness window old.
pub open spec fn spec_counts_due(now: int, latest: Option<int>) -> bool {
    match latest {
        None => true,
        Some(t) => now - t >= COUNT_STALENESS_MS as int,
    }
}

/// When the most recent population row was written, if any was.
pub fn latest_count_time(rows: &Vec<PopulationRow>) -> (r: Option<i64>)
    ensures
        match r {
            Some(t) => spec_latest_count_time(rows.deep_view()) == Some(t as int),
            None => spec_latest_count_time(rows.deep_view()) is None,
        },
{
    if rows.len() == 0 {
        None
    } else {
        proof {
            assert(rows.deep_view().last() == rows@[rows@.len() - 1].deep_view());
        }
        Some(rows[rows.len() - 1].at_time_ms)
    }
}

/// Whether new population rows are due (see [`spec_counts_due`]).
pub fn counts_due(now_ms: i64, latest_ms: Option<i64>) -> (r: bool)
    ensures
        r == spec_counts_due(
            now_ms as int,
            match latest_ms {
                Some(t) => Some(t as int),
                None => None,
            },
        ),
{
    match latest_ms {
        None => true,
        Some(t) => now_ms as i128 - t as i128 >= COUNT_STALENESS_MS as i128,
    }
}

/// The three rows one refresh appends: the population of each tier, from
/// this cycle's raw tier sizes, stamped with the cycle's time.
pub open spec fn spec_population_rows(
    counts: TierCounts,
    region: Seq<char>,
    now: int,
) -> Seq<PopulationRowV> {
    seq![
        PopulationRowV {
            region: region,
            rank_tier: RankTier::Master,
            player_count: counts.master as int,
            at_time_ms: now,
        },
        PopulationRowV {
            region: region,
            rank_tier: RankTier::Grandmaster,
            player_count: counts.grandmaster as int,
            at_time_ms: now,
        },
        PopulationRowV {
            region: region,
            rank_tier: RankTier::Challenger,
            player_count: counts.challenger as int,
            at_time_ms: now,
        },
    ]
}

/// Builds the three population rows of one refresh.
pub fn population_rows(counts: TierCounts, region: Region, now_ms: i64) -> (r: Vec<PopulationRow>)
    ensures
        r.deep_view() == spec_population_rows(counts, region.code_spec(), now_ms as int),
{
    let mut out: Vec<PopulationRow> = Vec::new();
    out.push(PopulationRow {
        region: region.code(),
        rank_tier: RankTier::Master,
        player_count: counts.master,
        at_time_ms: now_ms,
    });
    out.push(PopulationRow {
        region: region.code(),
        rank_tier: RankTier::Grandmaster,
        player_count: counts.grandmaster,
        at_time_ms: now_ms,
    });
    out.push(PopulationRow {
        region: region.code(),
        rank_tier: RankTier::Challenger,
        player_count: counts.challenger,
        at_time_ms: now_ms,
    });
    proof {
        assert(out.deep_view() =~= spec_population_rows(counts, region.code_spec(), now_ms as int));
    }
    out
}

} // verus!
