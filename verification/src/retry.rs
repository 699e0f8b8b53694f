//! How often a failed attempt is repeated, and how long to wait before each
//! repetition.

use vstd::prelude::*;

verus! {

/// A bound on attempts and a doubling delay with a ceiling.
#[derive(Clone, Copy, Debug, PartialEq, Eq, Structural)]
pub struct RetryPolicy {
    /// How many attempts are made in all before giving up.
    pub max_attempts: u32,
    /// The wait before the second attempt, in milliseconds.
    pub base_delay_ms: u64,
    /// No wait is longer than this, in milliseconds.
    pub max_delay_ms: u64,
}

/// What to do after a failed attempt.
#[derive(Clone, Copy, Debug, PartialEq, Eq, Structural)]
pub enum RetryDecision {
    /// Wait this many milliseconds, then try again.
    RetryAfter(u64),
    /// The attempts are used up.
    GiveUp,
}

/// `base` doubled `times` times.
pub open spec fn doubled(base: int, times: nat) -> int
    decreases times,
{
    if times == 0 {
        base
    } else {
        2 * doubled(base, (times - 1) as nat)
    }
}

/// The number of doublings after `failures` failed attempts: one for each
/// failure after the first.
pub open spec fn doublings(failures: nat) -> nat {
    if failures <= 1 {
        0
    } else {
        (failures - 1) as nat
    }
}

/// The wait after `failures` failed attempts: the base delay, doubled once
/// for each failure after the first, and cut at the ceiling.
pub open spec fn backoff(policy: RetryPolicy, failures: nat) -> int {
    let grown = doubled(policy.base_delay_ms as int, doublings(failures));
    if grown > policy.max_delay_ms {
        policy.max_delay_ms as int
    } else {
        grown
    }
}

/// The decision after `failures` failed attempts: another attempt while
/// fewer than `max_attempts` have been made, after the wait that `backoff`
/// gives.
pub open spec fn decision(policy: RetryPolicy, failures: nat) -> RetryDecision {
    if 0 < failures < policy.max_attempts {
        RetryDecision::RetryAfter(backoff(policy, failures) as u64)
    } else {
        RetryDecision::GiveUp
    }
}

/// Doubling never shrinks a delay.
pub proof fn lemma_doubled_grows(base: int, times: nat)
    requires
        base >= 0,
    ensures
        doubled(base, times) >= base,
        doubled(base, times + 1) >= doubled(base, times),
    decreases times,
{
    if times > 0 {
        lemma_doubled_grows(base, (times - 1) as nat);
    }
}

impl RetryPolicy {
    /// The wait after `failures` failed attempts.
    pub fn delay_after(&self, failures: u32) -> (delay: u64)
        ensures
            delay == backoff(*self, failures as nat),
            delay <= self.max_delay_ms,
    {
        let mut delay: u64 = if self.base_delay_ms > self.max_delay_ms {
            self.max_delay_ms
        } else {
            self.base_delay_ms
        };
        let mut done: u32 = 1;
        while done < failures
            invariant
                1 <= done,
                done <= failures || (failures == 0 && done == 1),
                delay <= self.max_delay_ms,
                delay <= doubled(self.base_delay_ms as int, (done - 1) as nat),
                delay < self.max_delay_ms ==> delay == doubled(
                    self.base_delay_ms as int,
                    (done - 1) as nat,
                ),
            decreases failures - done,
        {
            proof {
                lemma_doubled_grows(self.base_delay_ms as int, (done - 1) as nat);
            }
            if delay >= self.max_delay_ms - delay {
                delay = self.max_delay_ms;
            } else {
                delay = delay + delay;
            }
            done += 1;
        }
        delay
    }

    /// Decides what follows `failures` failed attempts of one piece of work.
    pub fn decide(&self, failures: u32) -> (next: RetryDecision)
        ensures
            next == decision(*self, failures as nat),
    {
        if failures >= 1 && failures < self.max_attempts {
            RetryDecision::RetryAfter(self.delay_after(failures))
        } else {
            RetryDecision::GiveUp
        }
    }
}

/// Retrying ends: once `max_attempts` attempts have failed the decision is
/// to give up, and every wait is within the ceiling.
pub proof fn lemma_retry_bounded(policy: RetryPolicy, failures: nat)
    ensures
        failures >= policy.max_attempts ==> decision(policy, failures) == RetryDecision::GiveUp,
        decision(policy, failures) matches RetryDecision::RetryAfter(wait) ==> wait
            <= policy.max_delay_ms,
{
    lemma_doubled_grows(policy.base_delay_ms as int, doublings(failures));
}

} // verus!
