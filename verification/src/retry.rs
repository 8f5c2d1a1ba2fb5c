//! The retry policy for fetch failures: transient errors are retried a
//! bounded number of times with doubling backoff; permanent errors are
//! recorded immediately.

use vstd::prelude::*;

use crate::model::FetchErrorKind;

verus! {

/// How fetch failures are retried. `max_attempts` bounds the total number
/// of attempts per reference; delays double from `base_delay_ms` up to
/// `max_delay_ms`.
#[derive(Clone, Copy, Debug, PartialEq, Eq, Structural)]
pub struct RetryPolicy {
    pub max_attempts: u32,
    pub base_delay_ms: u64,
    pub max_delay_ms: u64,
}

/// What to do after one failed attempt.
#[derive(Clone, Copy, Debug, PartialEq, Eq, Structural)]
pub enum RetryDecision {
    /// Try again after waiting this many milliseconds.
    RetryAfterMs(u64),
    /// Record the failure and move on.
    GiveUp,
}

/// The delay before retrying attempt `attempt + 1`: the base delay
/// doubled `attempt` times, capped at the maximum delay.
pub open spec fn backoff_spec(base: u64, max: u64, attempt: nat) -> u64
    decreases attempt,
{
    if attempt == 0 {
        if base >= max {
            max
        } else {
            base
        }
    } else {
        let prev = backoff_spec(base, max, (attempt - 1) as nat);
        if prev >= max - prev {
            max
        } else {
            (prev + prev) as u64
        }
    }
}

/// Compute the backoff delay for the attempt that just failed.
pub fn backoff_delay(policy: &RetryPolicy, attempt: u32) -> (d: u64)
    ensures
        d == backoff_spec(policy.base_delay_ms, policy.max_delay_ms, attempt as nat),
{
    let max = policy.max_delay_ms;
    let mut d: u64 = if policy.base_delay_ms >= max {
        max
    } else {
        policy.base_delay_ms
    };
    let mut k: u32 = 0;
    while k < attempt
        invariant
            k <= attempt,
            max == policy.max_delay_ms,
            d == backoff_spec(policy.base_delay_ms, max, k as nat),
            d <= max,
        decreases attempt - k,
    {
        if d >= max - d {
            d = max;
        } else {
            d = d + d;
        }
        k = k + 1;
    }
    d
}

/// The decision after a failed attempt: retry, with doubling backoff,
/// exactly when the failure is transient and another attempt is still
/// allowed by the policy; give up otherwise. `attempt` counts the
/// attempts already made, starting at zero for the first.
pub open spec fn retry_spec(policy: RetryPolicy, kind: FetchErrorKind, attempt: u32) -> RetryDecision {
    if kind == FetchErrorKind::Transient && attempt + 1 < policy.max_attempts {
        RetryDecision::RetryAfterMs(
            backoff_spec(policy.base_delay_ms, policy.max_delay_ms, attempt as nat),
        )
    } else {
        RetryDecision::GiveUp
    }
}

/// Decide what to do after one failed fetch attempt.
pub fn decide_retry(policy: &RetryPolicy, kind: FetchErrorKind, attempt: u32) -> (r: RetryDecision)
    ensures
        r == retry_spec(*policy, kind, attempt),
{
    let transient = match kind {
        FetchErrorKind::Transient => true,
        FetchErrorKind::Permanent => false,
    };
    if transient && (attempt as u64) + 1 < policy.max_attempts as u64 {
        RetryDecision::RetryAfterMs(backoff_delay(policy, attempt))
    } else {
        RetryDecision::GiveUp
    }
}

} // verus!
