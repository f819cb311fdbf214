//! Exponential backoff.

use vstd::prelude::*;

verus! {

/// The longest pause that can be configured.
pub const LONGEST_MS: u64 = 0x4000_0000_0000_0000;

/// A pause that doubles with each failure, up to a limit, and starts over after a success.
#[derive(Clone, Copy, Debug, PartialEq, Eq, Structural)]
pub struct Backoff {
    start_ms: u64,
    current_ms: u64,
    max_ms: u64,
}

/// Twice the pause, at most the limit.
pub open spec fn doubled_ms(current: u64, max: u64) -> u64 {
    if 2 * current < max {
        (2 * current) as u64
    } else {
        max
    }
}

impl Backoff {
    #[verifier::type_invariant]
    spec fn inv(self) -> bool {
        self.start_ms <= self.max_ms <= LONGEST_MS && self.current_ms <= self.max_ms
    }

    pub closed spec fn start(self) -> u64 {
        self.start_ms
    }

    pub closed spec fn current(self) -> u64 {
        self.current_ms
    }

    pub closed spec fn max(self) -> u64 {
        self.max_ms
    }

    pub fn new(start_ms: u64, max_ms: u64) -> (r: Self)
        requires
            start_ms <= max_ms <= LONGEST_MS,
        ensures
            r.start() == start_ms,
            r.current() == start_ms,
            r.max() == max_ms,
    {
        Backoff { start_ms, current_ms: start_ms, max_ms }
    }

    /// The pause before the next try.
    pub fn current_ms(&self) -> (r: u64)
        ensures
            r == self.current(),
            r <= self.max(),
    {
        proof {
            use_type_invariant(self);
        }
        self.current_ms
    }

    /// Notes a failure: the pause to make now; the next one will be twice as long.
    pub fn failed(&mut self) -> (r: u64)
        ensures
            r == old(self).current(),
            final(self).start() == old(self).start(),
            final(self).max() == old(self).max(),
            final(self).current() == doubled_ms(old(self).current(), old(self).max()),
    {
        proof {
            use_type_invariant(&*self);
        }
        let pause: u64 = self.current_ms;
        self.current_ms = if 2 * pause < self.max_ms {
            2 * pause
        } else {
            self.max_ms
        };
        pause
    }

    /// Notes a success: the next pause is the first one again.
    pub fn succeeded(&mut self)
        ensures
            final(self).start() == old(self).start(),
            final(self).max() == old(self).max(),
            final(self).current() == old(self).start(),
    {
        proof {
            use_type_invariant(&*self);
        }
        self.current_ms = self.start_ms;
    }
}

/// The pause after `n` failures in a row.
pub open spec fn pause_after(start: u64, max: u64, n: nat) -> u64
    decreases n,
{
    if n == 0 {
        start
    } else {
        doubled_ms(pause_after(start, max, (n - 1) as nat), max)
    }
}

/// Pauses never shrink from failure to failure and never pass the limit.
pub proof fn law_pauses_grow_to_limit(start: u64, max: u64, n: nat)
    requires
        start <= max,
    ensures
        start <= pause_after(start, max, n) <= max,
        pause_after(start, max, n) <= pause_after(start, max, n + 1),
    decreases n,
{
    if n > 0 {
        law_pauses_grow_to_limit(start, max, (n - 1) as nat);
    }
    assert(pause_after(start, max, n + 1) == doubled_ms(pause_after(start, max, n), max));
}

/// A pause is twice the one before it, up to the limit.
pub proof fn law_pauses_double(current: u64, max: u64)
    ensures
        2 * current <= max ==> doubled_ms(current, max) == 2 * current,
        2 * current > max ==> doubled_ms(current, max) == max,
{
}

} // verus!
