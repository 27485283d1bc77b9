//! The retry policy: how often a failed action is tried again, and how long
//! the agent waits in between.

use vstd::prelude::*;

verus! {

/// Bounded attempts with exponential backoff.
#[derive(Clone, Copy, Debug, PartialEq, Eq)]
pub struct RetryPolicy {
    /// Attempts allowed for one action, the first one included.
    pub max_attempts: u32,
    /// Seconds to wait before the first retry.
    pub base_delay_seconds: u64,
    /// Longest wait between two attempts, in seconds.
    pub max_delay_seconds: u64,
}

/// What follows a failure.
#[derive(Clone, Copy, Debug, PartialEq, Eq)]
pub enum RetryDecision {
    /// Try again once this many seconds have passed.
    RetryAfter { seconds: u64 },
    /// The attempts are used up.
    GiveUp,
}

/// `base` doubled `times` times.
pub open spec fn doubled(base: nat, times: nat) -> nat
    decreases times,
{
    if times == 0 {
        base
    } else {
        2 * doubled(base, (times - 1) as nat)
    }
}

/// The wait after the `failures`-th failure in a row: the base delay, doubled
/// for every failure after the first, and never more than the longest wait.
pub open spec fn backoff_seconds(policy: RetryPolicy, failures: nat) -> nat {
    let grown = doubled(
        policy.base_delay_seconds as nat,
        if failures == 0 {
            0
        } else {
            (failures - 1) as nat
        },
    );
    if grown < policy.max_delay_seconds {
        grown
    } else {
        policy.max_delay_seconds as nat
    }
}

/// Whether a further attempt is allowed once `failures` attempts in a row
/// have failed.
pub open spec fn attempts_remain(policy: RetryPolicy, failures: nat) -> bool {
    failures < policy.max_attempts
}

/// What the policy says after the `failures`-th failure in a row.
pub open spec fn decision(policy: RetryPolicy, failures: nat) -> RetryDecision {
    if attempts_remain(policy, failures) {
        RetryDecision::RetryAfter { seconds: backoff_seconds(policy, failures) as u64 }
    } else {
        RetryDecision::GiveUp
    }
}

/// Doubling never shrinks a delay.
pub proof fn lemma_doubled_grows(base: nat, fewer: nat, more: nat)
    requires
        fewer <= more,
    ensures
        doubled(base, fewer) <= doubled(base, more),
    decreases more,
{
    if fewer < more {
        lemma_doubled_grows(base, fewer, (more - 1) as nat);
    }
}

/// The wait never exceeds the longest wait of the policy.
pub proof fn law_backoff_is_capped(policy: RetryPolicy, failures: nat)
    ensures
        backoff_seconds(policy, failures) <= policy.max_delay_seconds,
{
}

/// A longer run of failures never shortens the wait.
pub proof fn law_backoff_never_shrinks(policy: RetryPolicy, fewer: nat, more: nat)
    requires
        fewer <= more,
    ensures
        backoff_seconds(policy, fewer) <= backoff_seconds(policy, more),
{
    let a: nat = if fewer == 0 { 0 } else { (fewer - 1) as nat };
    let b: nat = if more == 0 { 0 } else { (more - 1) as nat };
    lemma_doubled_grows(policy.base_delay_seconds as nat, a, b);
}

impl RetryPolicy {
    /// The wait after the `failures`-th failure in a row, in seconds.
    pub fn backoff(&self, failures: u32) -> (seconds: u64)
        ensures
            seconds == backoff_seconds(*self, failures as nat),
    {
        let cap: u64 = self.max_delay_seconds;
        let base: u64 = self.base_delay_seconds;
        if base >= cap {
            proof {
                let times: nat = if failures == 0 { 0 } else { (failures - 1) as nat };
                lemma_doubled_grows(base as nat, 0, times);
            }
            return cap;
        }
        if base == 0 {
            proof {
                let times: nat = if failures == 0 { 0 } else { (failures - 1) as nat };
                lemma_doubled_zero(times);
            }
            return 0;
        }
        let mut delay: u64 = base;
        let mut done: u32 = 1;
        while done < failures && delay < cap
            invariant
                1 <= done,
                failures == 0 ==> done == 1,
                failures != 0 ==> done <= failures,
                0 < base < cap,
                base == self.base_delay_seconds,
                cap == self.max_delay_seconds,
                delay <= cap,
                delay == cap || delay == doubled(base as nat, (done - 1) as nat),
                delay == cap ==> doubled(base as nat, (done - 1) as nat) >= cap,
            decreases failures - done,
        {
            if delay > cap / 2 {
                delay = cap;
            } else {
                delay = delay * 2;
            }
            done = done + 1;
        }
        proof {
            if delay == cap {
                let times: nat = if failures == 0 { 0 } else { (failures - 1) as nat };
                if failures != 0 {
                    lemma_doubled_grows(base as nat, (done - 1) as nat, times);
                }
            }
        }
        delay
    }

    /// What to do after the `failures`-th failure in a row: wait and try
    /// again while attempts remain, give up once they are used up.
    pub fn decide(&self, failures: u32) -> (verdict: RetryDecision)
        ensures
            verdict == decision(*self, failures as nat),
    {
        if failures < self.max_attempts {
            RetryDecision::RetryAfter { seconds: self.backoff(failures) }
        } else {
            RetryDecision::GiveUp
        }
    }
}

/// Nothing doubled is still nothing.
proof fn lemma_doubled_zero(times: nat)
    ensures
        doubled(0, times) == 0,
    decreases times,
{
    if times > 0 {
        lemma_doubled_zero((times - 1) as nat);
    }
}

} // verus!
