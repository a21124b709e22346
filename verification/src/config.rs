//! Per-region configuration and the policy constants of the tracker.
//!
//! The throttle table is an explicit, immutable mapping handed to each
//! region task at startup; regions share no mutable state.

use vstd::prelude::*;

verus! {

/// The most rank points a player can lose without a recorded game and still
/// be counted as a queue dodge.  Larger losses with the same signature come
/// from inactivity decay.  This is a policy constant, not a protocol value.
pub const DODGE_LP_CEILING: i32 = 15;

/// Upper bound on the number of rows handed to the store in one insert.
pub const INSERT_CHUNK_SIZE: usize = 2000;

/// Fixed delay before a failed cycle is retried, in milliseconds.
pub const RETRY_WAIT_MS: u64 = 5000;

/// A tier-population row younger than this is still fresh; no new row is
/// written for the region while one is.  One hour, in milliseconds.
pub const COUNT_STALENESS_MS: i64 = 3_600_000;

/// Deadline for each leaderboard fetch, in milliseconds.
pub const FETCH_TIMEOUT_MS: u64 = 10_000;

/// Deadline for each best-effort enrichment lookup, in milliseconds.
pub const ENRICH_TIMEOUT_MS: u64 = 5_000;

/// One of the independent regions whose ladder is tracked.
#[derive(Clone, Copy, Debug, PartialEq, Eq, Structural)]
pub enum Region {
    Euw1,
    Eun1,
    Na1,
    Kr,
    Oc1,
}

impl Region {
    /// The region's code as the store and the provider spell it.
    pub open spec fn code_spec(self) -> Seq<char> {
        match self {
            Region::Euw1 => "EUW1"@,
            Region::Eun1 => "EUN1"@,
            Region::Na1 => "NA1"@,
            Region::Kr => "KR"@,
            Region::Oc1 => "OC1"@,
        }
    }

    /// The region's code, e.g. `"EUW1"`.
    pub fn code(self) -> (r: String)
        ensures
            r@ == self.code_spec(),
    {
        match self {
            Region::Euw1 => "EUW1".to_owned(),
            Region::Eun1 => "EUN1".to_owned(),
            Region::Na1 => "NA1".to_owned(),
            Region::Kr => "KR".to_owned(),
            Region::Oc1 => "OC1".to_owned(),
        }
    }

    /// Minimum interval between two provider fetches for this region, in
    /// milliseconds.
    pub open spec fn throttle_ms_spec(self) -> u64 {
        match self {
            Region::Euw1 => 3000,
            Region::Eun1 => 6000,
            Region::Na1 => 12000,
            Region::Kr => 12000,
            Region::Oc1 => 6000,
        }
    }

    /// The per-region throttle interval, in milliseconds.
    pub fn throttle_ms(self) -> (r: u64)
        ensures
            r == self.throttle_ms_spec(),
    {
        match self {
            Region::Euw1 => 3000,
            Region::Eun1 => 6000,
            Region::Na1 => 12000,
            Region::Kr => 12000,
            Region::Oc1 => 6000,
        }
    }

    /// All regions the tracker supports, each of which gets one independent
    /// cycle task.
    pub fn supported() -> (r: Vec<Region>)
        ensures
            r@ == seq![
                Region::Euw1,
                Region::Eun1,
                Region::Na1,
                Region::Kr,
                Region::Oc1,
            ],
    {
        let mut v: Vec<Region> = Vec::new();
        v.push(Region::Euw1);
        v.push(Region::Eun1);
        v.push(Region::Na1);
        v.push(Region::Kr);
        v.push(Region::Oc1);
        proof {
            assert(v@ =~= seq![
                Region::Euw1,
                Region::Eun1,
                Region::Na1,
                Region::Kr,
                Region::Oc1,
            ]);
        }
        v
    }
}

} // verus!
