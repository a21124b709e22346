//! Core of a ranked-ladder tracking daemon.
//!
//! Each supported region runs an endless synchronization cycle: the three
//! apex-tier leaderboards are fetched, merged into one new snapshot, and
//! compared against the snapshot stored for that region.  The comparison
//! derives three kinds of behavioral events — queue dodges (a rank-point
//! loss without a recorded game), promotions into the tracked tiers, and
//! demotions out of them — which are persisted together with the refreshed
//! snapshot in one transaction.
//!
//! This crate holds the verified core: the snapshot-diff algorithms, the
//! merge and upsert semantics, the staleness policy for tier-population
//! counters, the batching discipline, and the per-region cycle state
//! machine.  The unverified shell around it (provider calls, the relational
//! store, the enrichment lookups) hands plain values in and takes plain
//! values back.

use vstd::prelude::*;

pub mod config;
pub mod entities;
pub mod keyed;
pub mod apex_tier_players;
pub mod dodges;
pub mod promotions_demotions;
pub mod player_counts;
pub mod batching;
pub mod cycle;
pub mod lolpros;
pub mod riot_ids;
pub mod store;

verus! {

/// How a step of the synchronization cycle can fail.
///
/// A timeout is kept distinct from a plain call failure, but both unwind the
/// cycle the same way; an integrity anomaly (a player identity appearing in
/// two tiers of one fetch) is a hard failure that is never silently resolved.
#[derive(Clone, Copy, Debug, PartialEq, Eq, Structural)]
pub enum SyncError {
    /// A provider call failed (network or API error).
    TransientExternalFailure,
    /// A provider call exceeded its deadline.
    Timeout,
    /// A store operation (transaction, read or write) failed.
    StoreFailure,
    /// The fetched data contradicts itself, e.g. one player in two tiers.
    DataIntegrityAnomaly,
}

} // verus!
