use vstd::prelude::*;
use vstd::string::StringExecFns;

use crate::text::{decimal, decimal_string};

verus! {

/// Seconds to wait before a new attempt.
pub const RETRY_DELAY_SECS: u64 = 1;

/// What the sender does after an attempt failed.
#[derive(Debug)]
pub enum RetryDecision {
    /// Wait `delay_secs`, then start attempt number `next_attempt`.
    Retry { next_attempt: u32, delay_secs: u64 },
    /// Stop, and report this error.
    GiveUp { message: String },
}

/// The attempt that follows a failed `attempt`, if any is left.
pub open spec fn next_attempt(attempt: u32, max_attempts: u32) -> Option<u32> {
    if attempt < max_attempts {
        Some((attempt + 1) as u32)
    } else {
        None
    }
}

/// The error reported once all attempts failed.
pub open spec fn exhausted_message(max_attempts: u32, last_error: Seq<char>) -> Seq<char> {
    "All "@ + decimal(max_attempts as nat) + " attempts failed. Last error: "@ + last_error
}

/// Decides what follows the failure of attempt number `attempt` (counted
/// from 1) out of `max_attempts`.
pub fn after_failure(attempt: u32, max_attempts: u32, last_error: &str) -> (r: RetryDecision)
    requires
        1 <= attempt <= max_attempts,
    ensures
        match next_attempt(attempt, max_attempts) {
            Some(n) => r == (RetryDecision::Retry { next_attempt: n, delay_secs: RETRY_DELAY_SECS }),
            None => r is GiveUp && r->message@ == exhausted_message(max_attempts, last_error@),
        },
{
    if attempt < max_attempts {
        RetryDecision::Retry { next_attempt: attempt + 1, delay_secs: RETRY_DELAY_SECS }
    } else {
        let mut message = String::from_str("All ");
        let n = decimal_string(max_attempts as u64);
        message.append(n.as_str());
        message.append(" attempts failed. Last error: ");
        message.append(last_error);
        RetryDecision::GiveUp { message }
    }
}

/// The error when no attempt may be made at all.
pub fn no_attempts_error() -> (r: String)
    ensures
        r@ == "Transfer failed"@,
{
    String::from_str("Transfer failed")
}

/// How many attempts are made from `attempt` on when each of them fails.
pub open spec fn attempts_until_exhausted(attempt: u32, max_attempts: u32) -> nat
    decreases max_attempts - attempt,
{
    match next_attempt(attempt, max_attempts) {
        Some(n) => 1 + attempts_until_exhausted(n, max_attempts),
        None => 1,
    }
}

/// Retry exhaustion: when every attempt fails, the sender makes exactly
/// `max_attempts` attempts, the first numbered 1, before it gives up.
pub proof fn lemma_retry_exhaustion(max_attempts: u32)
    requires
        max_attempts >= 1,
    ensures
        attempts_until_exhausted(1, max_attempts) == max_attempts,
{
    lemma_attempts_from(1, max_attempts);
}

proof fn lemma_attempts_from(attempt: u32, max_attempts: u32)
    requires
        1 <= attempt <= max_attempts,
    ensures
        attempts_until_exhausted(attempt, max_attempts) == max_attempts - attempt + 1,
    decreases max_attempts - attempt,
{
    if attempt < max_attempts {
        lemma_attempts_from((attempt + 1) as u32, max_attempts);
    }
}

} // verus!
