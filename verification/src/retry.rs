//! What to do after a store operation failed, and while the store is busy.
//!
//! The store is opened and written by the caller. This module only decides:
//! after a failure, whether to wait and try again or to give up; before
//! closing, whether to wait and ask again or to close.

use vstd::prelude::*;

verus! {

/// How long to wait before a busy store is asked again, in milliseconds.
pub const CLOSE_POLL_MS: u64 = 1000;

/// How often a failed operation is tried again, and how long to wait before each new try.
#[derive(Clone, Copy, Debug, PartialEq, Eq)]
pub struct RetryPolicy {
    pub retries: u32,
    pub delay_ms: u64,
}

/// What to do after a failed try.
#[derive(Clone, Copy, Debug, PartialEq, Eq)]
pub enum RetryStep {
    /// Wait this long, then try again.
    Wait { delay_ms: u64 },
    /// Stop trying: the failure stands.
    GiveUp,
}

/// What to do with a store that is to be closed.
#[derive(Clone, Copy, Debug, PartialEq, Eq)]
pub enum CloseStep {
    /// The store is in the middle of an operation: wait this long, then ask again.
    Wait { delay_ms: u64 },
    /// Nothing is in flight: close the store.
    Finalize,
}

/// The step that `policy` prescribes after `failures` failed tries in a row.
pub open spec fn step_after(policy: RetryPolicy, failures: nat) -> RetryStep {
    if failures <= policy.retries {
        RetryStep::Wait { delay_ms: policy.delay_ms }
    } else {
        RetryStep::GiveUp
    }
}

/// How many tries an operation gets under `policy` when every one of them fails.
pub open spec fn tries_allowed(policy: RetryPolicy) -> nat {
    (policy.retries + 1) as nat
}

/// An operation that keeps failing is tried again after each failure until
/// it has had all its tries, and given up after the last.
pub proof fn lemma_tries_are_bounded(policy: RetryPolicy, failures: nat)
    requires
        failures >= 1,
    ensures
        step_after(policy, failures) is Wait <==> failures < tries_allowed(policy),
        step_after(policy, failures) is GiveUp <==> failures >= tries_allowed(policy),
        step_after(policy, failures) matches RetryStep::Wait { delay_ms } ==> delay_ms
            == policy.delay_ms,
{
}

/// The policy for opening the store: one more try, ten seconds after the first.
pub fn open_policy() -> (policy: RetryPolicy)
    ensures
        policy == (RetryPolicy { retries: 1, delay_ms: 10_000 }),
{
    RetryPolicy { retries: 1, delay_ms: 10_000 }
}

/// The policy for writing a row: one more try, half a second after the first.
pub fn write_policy() -> (policy: RetryPolicy)
    ensures
        policy == (RetryPolicy { retries: 1, delay_ms: 500 }),
{
    RetryPolicy { retries: 1, delay_ms: 500 }
}

/// Decides what to do after `failures` failed tries in a row.
pub fn after_failure(policy: &RetryPolicy, failures: u32) -> (step: RetryStep)
    ensures
        step == step_after(*policy, failures as nat),
{
    if failures <= policy.retries {
        RetryStep::Wait { delay_ms: policy.delay_ms }
    } else {
        RetryStep::GiveUp
    }
}

/// Decides what to do with a store that is to be closed, given whether it
/// reports an operation in flight. A busy store is never closed.
pub fn stop_db(busy: bool) -> (step: CloseStep)
    ensures
        step == (if busy {
            CloseStep::Wait { delay_ms: CLOSE_POLL_MS }
        } else {
            CloseStep::Finalize
        }),
{
    if busy {
        CloseStep::Wait { delay_ms: CLOSE_POLL_MS }
    } else {
        CloseStep::Finalize
    }
}

} // verus!
