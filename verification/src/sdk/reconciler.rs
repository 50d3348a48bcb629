//! When a controller looks at a resource again after reconciling it.
//!
//! One place for the intervals keeps requeue behaviour the same across
//! controllers.
use vstd::prelude::*;

verus! {

/// Seconds until the next look after a reconcile that left the resource
/// stable.
pub const REQUEUE_DEFAULT_SECS: u64 = 30;

/// Seconds until the next look after a transient failure.
pub const REQUEUE_ON_ERROR_SECS: u64 = 5;

/// Seconds until the next look while waiting on a long backend operation.
pub const REQUEUE_LONG_SECS: u64 = 300;

/// What the controller does next with a resource.
#[derive(Debug, Clone, Copy, PartialEq, Eq, Structural)]
pub enum Requeue {
    /// Look again after this many seconds.
    After(u64),
    /// Look again only when the resource changes.
    AwaitChange,
}

/// Requeue after the default interval.
pub fn requeue_default() -> (r: Requeue)
    ensures
        r == Requeue::After(REQUEUE_DEFAULT_SECS),
{
    Requeue::After(REQUEUE_DEFAULT_SECS)
}

/// Requeue after the short error interval.
pub fn requeue_on_error() -> (r: Requeue)
    ensures
        r == Requeue::After(REQUEUE_ON_ERROR_SECS),
{
    Requeue::After(REQUEUE_ON_ERROR_SECS)
}

/// Requeue after the long interval, for slow polls.
pub fn requeue_long() -> (r: Requeue)
    ensures
        r == Requeue::After(REQUEUE_LONG_SECS),
{
    Requeue::After(REQUEUE_LONG_SECS)
}

/// No requeue, for terminal states.
pub fn no_requeue() -> (r: Requeue)
    ensures
        r == Requeue::AwaitChange,
{
    Requeue::AwaitChange
}

/// An error is retried sooner than a stable resource is looked at again,
/// and a stable one sooner than a long operation is polled.
pub proof fn lemma_requeue_intervals_are_monotonic()
    ensures
        REQUEUE_ON_ERROR_SECS < REQUEUE_DEFAULT_SECS < REQUEUE_LONG_SECS,
{
}

} // verus!
