//! The per-region cycle state machine.
//!
//! A region's task loops forever: open a transaction, fetch and read,
//! diff, enrich, write, commit, sleep, start over.  The decisions — what
//! to do next after each step's outcome — live here and are pure; the
//! unverified shell merely performs the chosen action and reports how it
//! went.  Any hard failure between opening the transaction and the commit
//! rolls the whole cycle back and retries after a fixed delay, so partial
//! cycles are never observable; a soft failure while enriching drops only
//! the affected lookups and the cycle goes on.

use vstd::prelude::*;

use crate::SyncError;
use crate::config::{RETRY_WAIT_MS, Region};

verus! {

/// Where in its cycle a region's task stands.
#[derive(Clone, Copy, Debug, PartialEq, Eq, Structural)]
pub enum Phase {
    Idle,
    TxnOpen,
    Fetching,
    Diffing,
    Enriching,
    Writing,
    Committing,
    Sleeping,
}

/// How the action just performed went.
#[derive(Clone, Copy, Debug, PartialEq, Eq, Structural)]
pub enum Outcome {
    /// The step succeeded.
    Success,
    /// The fetch succeeded, taking this long; the time spent feeds into
    /// the inter-cycle sleep so the provider is called at a bounded rate.
    FetchedIn { elapsed_ms: u64 },
    /// A best-effort lookup failed or timed out; only valid while
    /// enriching, and never aborts the cycle.
    SoftFailure,
    /// The step failed hard; the cycle is abandoned and retried.
    HardFailure(SyncError),
}

/// What the shell is to do next.
#[derive(Clone, Copy, Debug, PartialEq, Eq, Structural)]
pub enum Action {
    /// Begin the region's transaction.
    OpenTxn,
    /// Fetch the three tier leaderboards and read the stored snapshot.
    Fetch,
    /// Run the snapshot diff.
    Diff,
    /// Run the best-effort identity enrichment for dodge-implicated players.
    Enrich,
    /// Write the snapshot, the events and the population counters.
    Write,
    /// Commit the transaction.
    Commit,
    /// Abort the transaction, discarding every write of this cycle, wait
    /// `delay_ms`, then start over.
    RollbackAndRetry { delay_ms: u64 },
    /// Healthy end of a cycle: wait `delay_ms`, then start over.
    Sleep { delay_ms: u64 },
}

/// The phases during which a transaction is open; a hard failure in any
/// of them forces a rollback.
pub open spec fn spec_in_transaction(phase: Phase) -> bool {
    match phase {
        Phase::TxnOpen | Phase::Fetching | Phase::Diffing | Phase::Enriching | Phase::Writing
            | Phase::Committing => true,
        Phase::Idle | Phase::Sleeping => false,
    }
}

/// How long to sleep after a committed cycle: the region's throttle
/// interval less the time the fetch already took, and never negative.
pub open spec fn spec_cycle_sleep_ms(throttle_ms: u64, fetch_elapsed_ms: u64) -> int {
    if throttle_ms >= fetch_elapsed_ms {
        throttle_ms - fetch_elapsed_ms
    } else {
        0
    }
}

/// Computes the inter-cycle sleep (see [`spec_cycle_sleep_ms`]).
pub fn cycle_sleep_ms(throttle_ms: u64, fetch_elapsed_ms: u64) -> (r: u64)
    ensures
        r == spec_cycle_sleep_ms(throttle_ms, fetch_elapsed_ms),
{
    if throttle_ms >= fetch_elapsed_ms {
        throttle_ms - fetch_elapsed_ms
    } else {
        0
    }
}

/// The transition relation of the cycle: given the phase, the time the
/// last fetch took, the region's throttle and the outcome just reported,
/// the next phase, the next action, and the fetch time to carry forward.
pub open spec fn spec_step(
    phase: Phase,
    fetch_elapsed_ms: u64,
    throttle_ms: u64,
    outcome: Outcome,
) -> (Phase, Action, u64) {
    match outcome {
        Outcome::HardFailure(_) => if spec_in_transaction(phase) {
            (Phase::Sleeping, Action::RollbackAndRetry { delay_ms: RETRY_WAIT_MS }, fetch_elapsed_ms)
        } else {
            (Phase::TxnOpen, Action::OpenTxn, fetch_elapsed_ms)
        },
        Outcome::SoftFailure => if phase is Enriching {
            (Phase::Writing, Action::Write, fetch_elapsed_ms)
        } else if spec_in_transaction(phase) {
            (Phase::Sleeping, Action::RollbackAndRetry { delay_ms: RETRY_WAIT_MS }, fetch_elapsed_ms)
        } else {
            (Phase::TxnOpen, Action::OpenTxn, fetch_elapsed_ms)
        },
        Outcome::FetchedIn { elapsed_ms } => if phase is Fetching {
            (Phase::Diffing, Action::Diff, elapsed_ms)
        } else if spec_in_transaction(phase) {
            (Phase::Sleeping, Action::RollbackAndRetry { delay_ms: RETRY_WAIT_MS }, fetch_elapsed_ms)
        } else {
            (Phase::TxnOpen, Action::OpenTxn, fetch_elapsed_ms)
        },
        Outcome::Success => match phase {
            Phase::Idle => (Phase::TxnOpen, Action::OpenTxn, fetch_elapsed_ms),
            Phase::TxnOpen => (Phase::Fetching, Action::Fetch, fetch_elapsed_ms),
            Phase::Fetching => (Phase::Diffing, Action::Diff, fetch_elapsed_ms),
            Phase::Diffing => (Phase::Enriching, Action::Enrich, fetch_elapsed_ms),
            Phase::Enriching => (Phase::Writing, Action::Write, fetch_elapsed_ms),
            Phase::Writing => (Phase::Committing, Action::Commit, fetch_elapsed_ms),
            Phase::Committing => (
                Phase::Sleeping,
                Action::Sleep {
                    delay_ms: spec_cycle_sleep_ms(throttle_ms, fetch_elapsed_ms) as u64,
                },
                fetch_elapsed_ms,
            ),
            Phase::Sleeping => (Phase::TxnOpen, Action::OpenTxn, fetch_elapsed_ms),
        },
    }
}

/// The controller of one region's endless cycle.  There is no terminal
/// state: it runs until the process is stopped from outside.
pub struct CycleController {
    pub region: Region,
    pub phase: Phase,
    pub fetch_elapsed_ms: u64,
}

impl CycleController {
    /// A controller at the start of its region's first cycle.
    pub fn new(region: Region) -> (r: CycleController)
        ensures
            r.region == region,
            r.phase == Phase::Idle,
            r.fetch_elapsed_ms == 0,
    {
        CycleController { region, phase: Phase::Idle, fetch_elapsed_ms: 0 }
    }

    /// Takes the outcome of the last action and decides the next one,
    /// exactly as the transition relation says.
    pub fn next(&mut self, outcome: Outcome) -> (a: Action)
        ensures
            final(self).region == old(self).region,
            (final(self).phase, a, final(self).fetch_elapsed_ms) == spec_step(
                old(self).phase,
                old(self).fetch_elapsed_ms,
                old(self).region.throttle_ms_spec(),
                outcome,
            ),
    {
        let throttle = self.region.throttle_ms();
        match outcome {
            Outcome::HardFailure(_) => {
                if self.in_transaction() {
                    self.phase = Phase::Sleeping;
                    Action::RollbackAndRetry { delay_ms: RETRY_WAIT_MS }
                } else {
                    self.phase = Phase::TxnOpen;
                    Action::OpenTxn
                }
            },
            Outcome::SoftFailure => {
                if matches!(self.phase, Phase::Enriching) {
                    self.phase = Phase::Writing;
                    Action::Write
                } else if self.in_transaction() {
                    self.phase = Phase::Sleeping;
                    Action::RollbackAndRetry { delay_ms: RETRY_WAIT_MS }
                } else {
                    self.phase = Phase::TxnOpen;
                    Action::OpenTxn
                }
            },
            Outcome::FetchedIn { elapsed_ms } => {
                if matches!(self.phase, Phase::Fetching) {
                    self.phase = Phase::Diffing;
                    self.fetch_elapsed_ms = elapsed_ms;
                    Action::Diff
                } else if self.in_transaction() {
                    self.phase = Phase::Sleeping;
                    Action::RollbackAndRetry { delay_ms: RETRY_WAIT_MS }
                } else {
                    self.phase = Phase::TxnOpen;
                    Action::OpenTxn
                }
            },
            Outcome::Success => {
                match self.phase {
                    Phase::Idle => {
                        self.phase = Phase::TxnOpen;
                        Action::OpenTxn
                    },
                    Phase::TxnOpen => {
                        self.phase = Phase::Fetching;
                        Action::Fetch
                    },
                    Phase::Fetching => {
                        self.phase = Phase::Diffing;
                        Action::Diff
                    },
                    Phase::Diffing => {
                        self.phase = Phase::Enriching;
                        Action::Enrich
                    },
                    Phase::Enriching => {
                        self.phase = Phase::Writing;
                        Action::Write
                    },
                    Phase::Writing => {
                        self.phase = Phase::Committing;
                        Action::Commit
                    },
                    Phase::Committing => {
                        let delay = cycle_sleep_ms(throttle, self.fetch_elapsed_ms);
                        self.phase = Phase::Sleeping;
                        Action::Sleep { delay_ms: delay }
                    },
                    Phase::Sleeping => {
                        self.phase = Phase::TxnOpen;
                        Action::OpenTxn
                    },
                }
            },
        }
    }

    /// Whether a transaction is currently open.
    pub fn in_transaction(&self) -> (r: bool)
        ensures
            r == spec_in_transaction(self.phase),
    {
        match self.phase {
            Phase::TxnOpen | Phase::Fetching | Phase::Diffing | Phase::Enriching | Phase::Writing
                | Phase::Committing => true,
            Phase::Idle | Phase::Sleeping => false,
        }
    }
}

/// Any hard failure while a transaction is open makes the cycle roll back
/// — discarding every write — and retry after the fixed delay; partial
/// cycles are never observable.
pub proof fn lemma_hard_failure_rolls_back(
    phase: Phase,
    fetch_elapsed_ms: u64,
    throttle_ms: u64,
    e: SyncError,
)
    requires
        spec_in_transaction(phase),
    ensures
        spec_step(phase, fetch_elapsed_ms, throttle_ms, Outcome::HardFailure(e)) == (
            Phase::Sleeping,
            Action::RollbackAndRetry { delay_ms: RETRY_WAIT_MS },
            fetch_elapsed_ms,
        ),
{
}

/// A failed or timed-out enrichment lookup never aborts the cycle: the
/// cycle moves on to writing regardless.
pub proof fn lemma_soft_enrichment_failure_continues(fetch_elapsed_ms: u64, throttle_ms: u64)
    ensures
        spec_step(Phase::Enriching, fetch_elapsed_ms, throttle_ms, Outcome::SoftFailure) == (
            Phase::Writing,
            Action::Write,
            fetch_elapsed_ms,
        ),
        spec_step(Phase::Enriching, fetch_elapsed_ms, throttle_ms, Outcome::Success) == (
            Phase::Writing,
            Action::Write,
            fetch_elapsed_ms,
        ),
{
}

} // verus!
