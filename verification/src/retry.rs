use vstd::prelude::*;

verus! {

/// The attempt budget for transient network failures.
pub const DEFAULT_MAX_ATTEMPTS: u64 = 10;

/// A bounded exponential backoff policy: an explicit object handed to the
/// fetch layer, so the schedule can be driven by any clock.  A delay starts
/// at `base_delay_ms`, grows by `multiplier` per failure and never exceeds
/// `max_delay_ms`; after `max_attempts` failures the fetch gives up and the
/// run aborts.
#[derive(Debug, Clone, Copy, PartialEq, Eq, Structural)]
pub struct RetryPolicy {
    pub base_delay_ms: u64,
    pub multiplier: u64,
    pub max_delay_ms: u64,
    pub max_attempts: u64,
}

impl RetryPolicy {
    /// A growth factor below one would make the schedule meaningless.
    pub open spec fn wf(self) -> bool {
        self.multiplier >= 1
    }

    /// The delay before the retry that follows the given number of failures:
    /// the base delay grown once per earlier failure, capped.
    pub open spec fn delay_spec(self, failures: u64) -> u64
        decreases failures,
    {
        if failures == 0 {
            if self.base_delay_ms <= self.max_delay_ms {
                self.base_delay_ms
            } else {
                self.max_delay_ms
            }
        } else {
            let prev = self.delay_spec((failures - 1) as u64);
            if prev * self.multiplier <= self.max_delay_ms {
                (prev * self.multiplier) as u64
            } else {
                self.max_delay_ms
            }
        }
    }

    pub fn new(
        base_delay_ms: u64,
        multiplier: u64,
        max_delay_ms: u64,
        max_attempts: u64,
    ) -> (r: RetryPolicy)
        requires
            multiplier >= 1,
        ensures
            r == (RetryPolicy { base_delay_ms, multiplier, max_delay_ms, max_attempts }),
            r.wf(),
    {
        RetryPolicy { base_delay_ms, multiplier, max_delay_ms, max_attempts }
    }

    /// Whether the fetch may try again after the given number of failures.
    pub fn should_retry(&self, failures: u64) -> (r: bool)
        ensures
            r == (failures < self.max_attempts),
    {
        failures < self.max_attempts
    }

    /// The delay in milliseconds before the next attempt, or nothing once
    /// the attempt budget is spent.
    pub fn backoff_delay_ms(&self, failures: u64) -> (r: Option<u64>)
        requires
            self.wf(),
        ensures
            r is None <==> failures >= self.max_attempts,
            failures < self.max_attempts ==> r == Some(self.delay_spec(failures)),
    {
        if failures >= self.max_attempts {
            return None;
        }
        let mut d: u64 = if self.base_delay_ms <= self.max_delay_ms {
            self.base_delay_ms
        } else {
            self.max_delay_ms
        };
        let mut i: u64 = 0;
        while i < failures
            invariant
                0 <= i <= failures,
                self.wf(),
                d == self.delay_spec(i),
                d <= self.max_delay_ms,
            decreases failures - i,
        {
            proof {
                lemma_grow_within_bound(d, self.multiplier, self.max_delay_ms);
            }
            d = if d <= self.max_delay_ms / self.multiplier {
                d * self.multiplier
            } else {
                self.max_delay_ms
            };
            i = i + 1;
        }
        Some(d)
    }
}

/// Growing a delay stays within the machine word exactly when it stays under
/// the cap, and the division test decides that.
proof fn lemma_grow_within_bound(d: u64, m: u64, cap: u64)
    requires
        m >= 1,
        d <= cap,
    ensures
        d <= cap / m ==> d * m <= cap,
        d > cap / m ==> d * m > cap,
{
    assert((d <= cap / m ==> d * m <= cap) && (d > cap / m ==> d * m > cap)) by (nonlinear_arith)
        requires
            m >= 1,
            d >= 0,
            cap >= 0,
    ;
}

} // verus!
