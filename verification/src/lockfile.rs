//! When a run may take the lockfile that keeps two runs from building the
//! same generated project at once: it is created afresh, or taken over when
//! its holder has evidently gone (its modification time lies more than a
//! skew away from now, in either direction), else waited for.
use vstd::prelude::*;

verus! {

/// The allowed distance between the lockfile's modification time and now,
/// in nanoseconds (1.5 s).
pub const SKEW_NANOS: i128 = 1_500_000_000;

/// How long to wait before trying again, in milliseconds.
pub const RETRY_MILLIS: u64 = 500;

/// Whether a lockfile last modified at `modified` (nanoseconds since the
/// epoch) is stale at `now`: older than `now` minus the skew, or newer than
/// `now` plus the skew. A cutoff that cannot be represented counts as not
/// passed.
pub open spec fn is_stale(modified: int, now: int) -> bool {
    let earliest = now - SKEW_NANOS;
    let latest = now + SKEW_NANOS;
    (i128::MIN <= earliest && modified < earliest) || (latest <= i128::MAX && latest < modified)
}

/// Whether the lockfile's holder has evidently gone.
pub fn lockfile_stale(modified: i128, now: i128) -> (r: bool)
    ensures
        r == is_stale(modified as int, now as int),
{
    let stale = match now.checked_sub(SKEW_NANOS) {
        Some(cutoff) => modified < cutoff,
        None => false,
    };
    let future = match now.checked_add(SKEW_NANOS) {
        Some(cutoff) => cutoff < modified,
        None => false,
    };
    stale || future
}

/// What the outside world reports while the lockfile is being taken.
#[derive(Clone, Copy, Debug, PartialEq, Eq, Structural)]
pub enum LockEvent {
    /// The lockfile did not exist and was created.
    Created,
    /// The lockfile already exists.
    Exists,
    /// Creating the lockfile failed for another reason.
    CreateFailed,
    /// The existing lockfile was last modified at `modified`; it is `now`
    /// (both in nanoseconds since the epoch).
    Modified { modified: i128, now: i128 },
    /// The existing lockfile disappeared before it could be inspected.
    Vanished,
    /// The existing lockfile's metadata or modification time could not be
    /// read.
    Unreadable,
}

/// What to do next.
#[derive(Clone, Copy, Debug, PartialEq, Eq, Structural)]
pub enum LockAction {
    /// Hold the newly created lockfile.
    Hold,
    /// Read the existing lockfile's modification time.
    Inspect,
    /// Try to create the lockfile again, at once.
    Retry,
    /// Take the stale lockfile over, by creating it anew.
    Reclaim,
    /// Wait this many milliseconds, then try to create the lockfile again.
    WaitThenRetry(u64),
    /// File-based locking does not work here: go on without it.
    GiveUp,
}

/// The action that follows an event.
pub open spec fn lock_reaction(event: LockEvent) -> LockAction {
    match event {
        LockEvent::Created => LockAction::Hold,
        LockEvent::Exists => LockAction::Inspect,
        LockEvent::CreateFailed => LockAction::GiveUp,
        LockEvent::Modified { modified, now } => if is_stale(modified as int, now as int) {
            LockAction::Reclaim
        } else {
            LockAction::WaitThenRetry(RETRY_MILLIS)
        },
        LockEvent::Vanished => LockAction::Retry,
        LockEvent::Unreadable => LockAction::GiveUp,
    }
}

/// One step of taking the lockfile: from what the last attempt reported,
/// what to do next.
pub fn lock_step(event: LockEvent) -> (r: LockAction)
    ensures
        r == lock_reaction(event),
{
    match event {
        LockEvent::Created => LockAction::Hold,
        LockEvent::Exists => LockAction::Inspect,
        LockEvent::CreateFailed => LockAction::GiveUp,
        LockEvent::Modified { modified, now } => if lockfile_stale(modified, now) {
            LockAction::Reclaim
        } else {
            LockAction::WaitThenRetry(RETRY_MILLIS)
        },
        LockEvent::Vanished => LockAction::Retry,
        LockEvent::Unreadable => LockAction::GiveUp,
    }
}

} // verus!
