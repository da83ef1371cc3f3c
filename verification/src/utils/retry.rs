//! Retry with exponential backoff and jitter.
//!
//! Attempts are counted from 1. After a failed attempt `n` the next one waits
//! for a delay drawn between half of a ceiling and the ceiling, where the
//! ceiling doubles with every attempt until it meets the largest delay.

use vstd::prelude::*;

verus! {

/// How often and how patiently a failing call is tried again.
#[derive(Clone, Copy, Debug, PartialEq, Eq, Structural)]
pub struct RetryPolicy {
    /// The number of attempts after which a call is given up; at least 1.
    pub max_attempts: u32,
    /// The ceiling of the delay after the first failed attempt, in ms.
    pub base_delay_ms: u64,
    /// The largest ceiling, in ms.
    pub max_delay_ms: u64,
}

/// Whether a status of HTTP asks for another attempt: 429, which asks to
/// slow down, or 500 to 599, a failure on the side that answered.
pub open spec fn status_retryable(code: u16) -> bool {
    code == 429 || (500 <= code <= 599)
}

/// Whether a status of HTTP asks for another attempt.
pub fn is_retryable_status(code: u16) -> (yes: bool)
    ensures
        yes == status_retryable(code),
{
    code == 429 || (500 <= code && code <= 599)
}

/// `base` doubled `times` times.
pub open spec fn doubled(base: int, times: nat) -> int
    decreases times,
{
    if times == 0 {
        base
    } else {
        2 * doubled(base, (times - 1) as nat)
    }
}

/// The number of attempts before attempt `attempt` (from 1).
pub open spec fn earlier_attempts(attempt: u32) -> nat {
    if attempt == 0 {
        0
    } else {
        (attempt - 1) as nat
    }
}

/// The ceiling of the delay after failed attempt `attempt` (from 1): the base
/// delay doubled once per earlier attempt, and no more than the largest delay.
pub open spec fn backoff_ceiling(policy: RetryPolicy, attempt: u32) -> int {
    let grown = doubled(policy.base_delay_ms as int, earlier_attempts(attempt));
    if grown <= policy.max_delay_ms {
        grown
    } else {
        policy.max_delay_ms as int
    }
}

/// The delay after failed attempt `attempt`, for the random sample `jitter`:
/// half of the ceiling, plus a share of the other half picked by the sample.
pub open spec fn backoff_delay(policy: RetryPolicy, attempt: u32, jitter: u64) -> int {
    let ceiling = backoff_ceiling(policy, attempt);
    let floor = ceiling / 2;
    floor + jitter as int % (ceiling - floor + 1)
}

/// Doubling never shrinks a non-negative delay.
pub proof fn lemma_doubled_grows(base: int, fewer: nat, more: nat)
    requires
        0 <= base,
        fewer <= more,
    ensures
        base <= doubled(base, fewer) <= doubled(base, more),
    decreases more,
{
    if fewer < more {
        lemma_doubled_grows(base, fewer, (more - 1) as nat);
    } else if fewer > 0 {
        lemma_doubled_grows(base, (fewer - 1) as nat, (more - 1) as nat);
    }
}

impl RetryPolicy {
    /// The policy used where none is configured: 5 attempts, delays that
    /// start at half a second and stop growing at 30 seconds.
    pub fn standard() -> (policy: RetryPolicy)
        ensures
            policy == (RetryPolicy { max_attempts: 5, base_delay_ms: 500, max_delay_ms: 30_000 }),
    {
        RetryPolicy { max_attempts: 5, base_delay_ms: 500, max_delay_ms: 30_000 }
    }

    /// Whether another attempt may follow failed attempt `attempt`.
    pub fn allows_retry(&self, attempt: u32) -> (yes: bool)
        ensures
            yes == (attempt < self.max_attempts),
    {
        attempt < self.max_attempts
    }

    /// The ceiling of the delay after failed attempt `attempt`.
    pub fn ceiling_ms(&self, attempt: u32) -> (ceiling: u64)
        ensures
            ceiling == backoff_ceiling(*self, attempt),
            ceiling <= self.max_delay_ms,
    {
        let cap = self.max_delay_ms;
        if self.base_delay_ms >= cap {
            proof {
                lemma_doubled_grows(self.base_delay_ms as int, 0, earlier_attempts(attempt));
            }
            return cap;
        }
        let mut ceiling: u64 = self.base_delay_ms;
        let mut done: u32 = 1;
        while done < attempt && ceiling < cap
            invariant
                1 <= done,
                done <= attempt || (attempt == 0 && done == 1),
                cap == self.max_delay_ms,
                ceiling <= cap,
                ceiling < cap ==> ceiling == doubled(self.base_delay_ms as int, (done - 1) as nat),
                ceiling == cap ==> doubled(self.base_delay_ms as int, (done - 1) as nat) >= cap,
            decreases attempt - done,
        {
            if ceiling > cap - ceiling {
                ceiling = cap;
            } else {
                ceiling = ceiling + ceiling;
            }
            done += 1;
        }
        proof {
            if ceiling == cap {
                lemma_doubled_grows(
                    self.base_delay_ms as int,
                    (done - 1) as nat,
                    earlier_attempts(attempt),
                );
            }
        }
        ceiling
    }

    /// The delay in ms before the attempt that follows failed attempt
    /// `attempt`, for the random sample `jitter`. It lies between half of the
    /// ceiling and the ceiling.
    pub fn delay_ms(&self, attempt: u32, jitter: u64) -> (delay: u64)
        ensures
            delay == backoff_delay(*self, attempt, jitter),
            backoff_ceiling(*self, attempt) / 2 <= delay <= backoff_ceiling(*self, attempt),
            delay <= self.max_delay_ms,
    {
        let ceiling = self.ceiling_ms(attempt);
        let floor = ceiling / 2;
        floor + jitter % (ceiling - floor + 1)
    }
}

} // verus!
