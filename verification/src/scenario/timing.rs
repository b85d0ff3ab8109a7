//! Retries and timeouts of scenario steps: what follows a failed attempt,
//! and the message of a step that ran out of time.

use vstd::prelude::*;
use crate::text::{decimal, fmt_u64};

verus! {

/// What follows a failed attempt.
pub enum RetryStep {
    /// The retries are used up: the failure stands.
    GiveUp,
    /// Try again as attempt `next_attempt`, after sleeping `sleep_ms` when
    /// that is given.
    Retry { next_attempt: u32, sleep_ms: Option<u64> },
}

/// After a failure at attempt `attempt` (counted from zero), an operation
/// with `retries` retries tries again while attempts are left, sleeping
/// `delay_ms` first when it is not zero.
pub open spec fn retry_step(attempt: u32, retries: u32, delay_ms: u64) -> RetryStep {
    if attempt >= retries {
        RetryStep::GiveUp
    } else {
        RetryStep::Retry {
            next_attempt: (attempt + 1) as u32,
            sleep_ms: if delay_ms > 0 { Some(delay_ms) } else { None },
        }
    }
}

/// Decide what follows a failed attempt.
pub fn retry_after_failure(attempt: u32, retries: u32, delay_ms: u64) -> (r: RetryStep)
    ensures
        r == retry_step(attempt, retries, delay_ms),
        r matches RetryStep::Retry { next_attempt, .. } ==> next_attempt == attempt + 1 && next_attempt <= retries,
{
    if attempt >= retries {
        RetryStep::GiveUp
    } else {
        RetryStep::Retry { next_attempt: attempt + 1, sleep_ms: if delay_ms > 0 { Some(delay_ms) } else { None } }
    }
}

/// An operation run through `retry_after_failure` from attempt zero makes
/// at most `retries + 1` attempts: each retry raises the attempt number by
/// one and none goes past `retries`.
pub proof fn lemma_retry_bounded(attempt: u32, retries: u32, delay_ms: u64)
    ensures
        retry_step(attempt, retries, delay_ms) matches RetryStep::Retry { next_attempt, .. } ==> attempt
            < retries && next_attempt == attempt + 1,
        attempt >= retries ==> retry_step(attempt, retries, delay_ms) is GiveUp,
{
}

/// The message of an operation that ran out of time.
pub open spec fn timeout_text(label: Seq<char>, timeout_ms: u64) -> Seq<char> {
    label + " timed out after "@ + decimal(timeout_ms as nat) + "ms"@
}

/// The message of an operation that ran out of time.
pub fn timeout_message(label: &str, timeout_ms: u64) -> (r: String)
    ensures
        r@ == timeout_text(label@, timeout_ms),
{
    let mut m = String::from_str(label);
    m.append(" timed out after ");
    let n = fmt_u64(timeout_ms);
    m.append(n.as_str());
    m.append("ms");
    m
}

} // verus!
