use dodgetracker::SyncError;
use dodgetracker::config::{Region, RETRY_WAIT_MS};
use dodgetracker::cycle::{cycle_sleep_ms, Action, CycleController, Outcome, Phase};

#[test]
fn happy_path_walks_all_phases() {
    let mut ctrl = CycleController::new(Region::Euw1);
    assert!(ctrl.phase == Phase::Idle);

    assert!(ctrl.next(Outcome::Success) == Action::OpenTxn);
    assert!(ctrl.phase == Phase::TxnOpen);
    assert!(ctrl.next(Outcome::Success) == Action::Fetch);
    assert!(ctrl.phase == Phase::Fetching);
    assert!(ctrl.next(Outcome::FetchedIn { elapsed_ms: 1200 }) == Action::Diff);
    assert!(ctrl.phase == Phase::Diffing);
    assert!(ctrl.next(Outcome::Success) == Action::Enrich);
    assert!(ctrl.phase == Phase::Enriching);
    assert!(ctrl.next(Outcome::Success) == Action::Write);
    assert!(ctrl.phase == Phase::Writing);
    assert!(ctrl.next(Outcome::Success) == Action::Commit);
    assert!(ctrl.phase == Phase::Committing);
    // Throttle 3000 ms less the 1200 ms the fetch took.
    assert!(ctrl.next(Outcome::Success) == Action::Sleep { delay_ms: 1800 });
    assert!(ctrl.phase == Phase::Sleeping);
    // The loop never ends: waking starts the next transaction.
    assert!(ctrl.next(Outcome::Success) == Action::OpenTxn);
    assert!(ctrl.phase == Phase::TxnOpen);
}

#[test]
fn hard_failure_rolls_back_and_retries() {
    let mut ctrl = CycleController::new(Region::Euw1);
    ctrl.next(Outcome::Success);
    ctrl.next(Outcome::Success);
    ctrl.next(Outcome::FetchedIn { elapsed_ms: 100 });
    ctrl.next(Outcome::Success);
    ctrl.next(Outcome::Success);
    // A store failure while writing abandons the whole cycle.
    let action = ctrl.next(Outcome::HardFailure(SyncError::StoreFailure));
    assert!(
        action
            == Action::RollbackAndRetry {
                delay_ms: RETRY_WAIT_MS
            }
    );
    assert!(ctrl.phase == Phase::Sleeping);
    // After the delay, the cycle starts over from a fresh transaction.
    assert!(ctrl.next(Outcome::Success) == Action::OpenTxn);
}

#[test]
fn fetch_timeout_is_a_hard_failure() {
    let mut ctrl = CycleController::new(Region::Euw1);
    ctrl.next(Outcome::Success);
    ctrl.next(Outcome::Success);
    let action = ctrl.next(Outcome::HardFailure(SyncError::Timeout));
    assert!(
        action
            == Action::RollbackAndRetry {
                delay_ms: RETRY_WAIT_MS
            }
    );
}

#[test]
fn soft_enrichment_failure_continues() {
    let mut ctrl = CycleController::new(Region::Euw1);
    ctrl.next(Outcome::Success);
    ctrl.next(Outcome::Success);
    ctrl.next(Outcome::FetchedIn { elapsed_ms: 100 });
    ctrl.next(Outcome::Success);
    assert!(ctrl.phase == Phase::Enriching);
    // A failed best-effort lookup does not abort the cycle.
    assert!(ctrl.next(Outcome::SoftFailure) == Action::Write);
    assert!(ctrl.phase == Phase::Writing);
}

#[test]
fn slow_fetch_leaves_no_sleep() {
    assert_eq!(cycle_sleep_ms(3000, 5000), 0);
    assert_eq!(cycle_sleep_ms(3000, 3000), 0);
    assert_eq!(cycle_sleep_ms(12000, 2500), 9500);
}

#[test]
fn region_codes_and_throttles() {
    assert_eq!(Region::Euw1.code(), "EUW1");
    assert_eq!(Region::Eun1.code(), "EUN1");
    assert_eq!(Region::Na1.code(), "NA1");
    assert_eq!(Region::Kr.code(), "KR");
    assert_eq!(Region::Oc1.code(), "OC1");
    assert_eq!(Region::Euw1.throttle_ms(), 3000);
    assert_eq!(Region::Eun1.throttle_ms(), 6000);
    assert_eq!(Region::Na1.throttle_ms(), 12000);
    assert_eq!(Region::Kr.throttle_ms(), 12000);
    assert_eq!(Region::Oc1.throttle_ms(), 6000);
    assert_eq!(Region::supported().len(), 5);
}
