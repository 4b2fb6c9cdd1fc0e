use trybuild::lockfile::{lock_step, lockfile_stale, LockAction, LockEvent, RETRY_MILLIS};

const SECOND: i128 = 1_000_000_000;

#[test]
fn a_lockfile_more_than_the_skew_away_from_now_is_stale() {
    let now = 1_700_000_000 * SECOND;
    assert!(lockfile_stale(now - 2 * SECOND, now));
    assert!(lockfile_stale(now + 2 * SECOND, now));
    assert!(!lockfile_stale(now - SECOND, now));
    assert!(!lockfile_stale(now + SECOND, now));
    assert!(!lockfile_stale(now - 1_500_000_000, now), "exactly the skew away is still fresh");
    assert!(lockfile_stale(now - 1_500_000_001, now));
    assert!(!lockfile_stale(now + 1_500_000_000, now));
    assert!(lockfile_stale(now + 1_500_000_001, now));
}

#[test]
fn unrepresentable_cutoffs_never_count_as_passed() {
    assert!(!lockfile_stale(i128::MIN, i128::MIN));
    assert!(!lockfile_stale(i128::MAX, i128::MAX));
    assert!(lockfile_stale(i128::MIN, i128::MAX));
}

#[test]
fn each_report_leads_to_its_action() {
    assert_eq!(lock_step(LockEvent::Created), LockAction::Hold);
    assert_eq!(lock_step(LockEvent::Exists), LockAction::Inspect);
    assert_eq!(lock_step(LockEvent::CreateFailed), LockAction::GiveUp);
    assert_eq!(lock_step(LockEvent::Vanished), LockAction::Retry);
    assert_eq!(lock_step(LockEvent::Unreadable), LockAction::GiveUp);
    let now = 1_700_000_000 * SECOND;
    assert_eq!(lock_step(LockEvent::Modified { modified: now - 10 * SECOND, now }), LockAction::Reclaim);
    assert_eq!(lock_step(LockEvent::Modified { modified: now, now }), LockAction::WaitThenRetry(RETRY_MILLIS));
    assert_eq!(RETRY_MILLIS, 500);
}
