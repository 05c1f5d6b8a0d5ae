//! Exponential backoff retry policy with jitter.
//!
//! Delays are tracked in milliseconds. The base delay for attempt `k`
//! (counting from 1) is `min(initial * 2^(k-1), max_delay)`; the returned
//! delay adds symmetric jitter of up to a fifth of the base in either
//! direction and is never negative.

use vstd::prelude::*;

verus! {

/// Base delay before jitter for the attempt numbered `attempt` (1-based):
/// `min(initial * 2^(attempt-1), max_delay)`.
pub open spec fn backoff_base(initial_ms: u64, max_ms: u64, attempt: nat) -> int
    decreases attempt,
{
    if attempt <= 1 {
        if initial_ms <= max_ms {
            initial_ms as int
        } else {
            max_ms as int
        }
    } else {
        let prev = backoff_base(initial_ms, max_ms, (attempt - 1) as nat);
        if 2 * prev <= max_ms {
            2 * prev
        } else {
            max_ms as int
        }
    }
}

/// Exponential backoff retry policy with jitter and reset.
pub struct RetryPolicy {
    max_retries: usize,
    current_attempt: usize,
    initial_delay_ms: u64,
    max_delay_ms: u64,
}

/// Draws a machine-random value; nothing is promised of the result.
///
/// Relies on rand::random: returns an arbitrary `u64`.
#[verifier::external_body]
fn random_u64() -> u64 {
    rand::random::<u64>()
}

impl RetryPolicy {
    pub closed spec fn max_retries_spec(&self) -> usize {
        self.max_retries
    }

    pub closed spec fn current_attempt_spec(&self) -> usize {
        self.current_attempt
    }

    pub closed spec fn initial_delay_ms_spec(&self) -> u64 {
        self.initial_delay_ms
    }

    pub closed spec fn max_delay_ms_spec(&self) -> u64 {
        self.max_delay_ms
    }

    /// Bound under which all jittered delays stay clear of `u64` overflow.
    pub closed spec fn wf(&self) -> bool {
        self.max_delay_ms <= u64::MAX - u64::MAX / 5
    }

    pub fn new(max_retries: usize, initial_delay_ms: u64, max_delay_ms: u64) -> (r: RetryPolicy)
        requires
            max_delay_ms <= u64::MAX - u64::MAX / 5,
        ensures
            r.wf(),
            r.max_retries_spec() == max_retries,
            r.current_attempt_spec() == 0,
            r.initial_delay_ms_spec() == initial_delay_ms,
            r.max_delay_ms_spec() == max_delay_ms,
    {
        RetryPolicy {
            max_retries,
            current_attempt: 0,
            initial_delay_ms,
            max_delay_ms,
        }
    }

    /// Delay in milliseconds before the next retry attempt, or `None` once
    /// the retry budget is spent. Each returned delay lies within a fifth of
    /// the exponential base for its attempt.
    pub fn next_delay(&mut self) -> (r: Option<u64>)
        requires
            old(self).wf(),
        ensures
            final(self).wf(),
            final(self).max_retries_spec() == old(self).max_retries_spec(),
            final(self).initial_delay_ms_spec() == old(self).initial_delay_ms_spec(),
            final(self).max_delay_ms_spec() == old(self).max_delay_ms_spec(),
            old(self).current_attempt_spec() >= old(self).max_retries_spec() ==> {
                &&& r is None
                &&& final(self).current_attempt_spec() == old(self).current_attempt_spec()
            },
            old(self).current_attempt_spec() < old(self).max_retries_spec() ==> {
                let base = backoff_base(
                    old(self).initial_delay_ms_spec(),
                    old(self).max_delay_ms_spec(),
                    (old(self).current_attempt_spec() + 1) as nat,
                );
                &&& final(self).current_attempt_spec() == old(self).current_attempt_spec() + 1
                &&& r is Some
                &&& base - base / 5 <= r->Some_0 <= base + base / 5
            },
    {
        if self.current_attempt >= self.max_retries {
            return None;
        }
        self.current_attempt = self.current_attempt + 1;

        let mut base: u64 = if self.initial_delay_ms <= self.max_delay_ms {
            self.initial_delay_ms
        } else {
            self.max_delay_ms
        };
        let mut k: usize = 1;
        while k < self.current_attempt
            invariant
                1 <= k <= self.current_attempt,
                base == backoff_base(self.initial_delay_ms, self.max_delay_ms, k as nat),
                base <= self.max_delay_ms,
            decreases self.current_attempt - k,
        {
            if base > self.max_delay_ms / 2 {
                base = self.max_delay_ms;
            } else {
                base = 2 * base;
            }
            k = k + 1;
        }

        let span: u64 = base / 5;
        let draw: u64 = random_u64() % (2 * span + 1);
        Some(base - span + draw)
    }

    /// Restores the full retry budget.
    pub fn reset(&mut self)
        ensures
            final(self).current_attempt_spec() == 0,
            final(self).max_retries_spec() == old(self).max_retries_spec(),
            final(self).initial_delay_ms_spec() == old(self).initial_delay_ms_spec(),
            final(self).max_delay_ms_spec() == old(self).max_delay_ms_spec(),
            final(self).wf() == old(self).wf(),
    {
        self.current_attempt = 0;
    }

    pub fn current_attempt(&self) -> (r: usize)
        ensures
            r == self.current_attempt_spec(),
    {
        self.current_attempt
    }

    pub fn max_retries(&self) -> (r: usize)
        ensures
            r == self.max_retries_spec(),
    {
        self.max_retries
    }
}

} // verus!
