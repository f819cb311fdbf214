//! Counters of the logger, shared between threads.

use std::sync::atomic::AtomicU64;
use vstd::prelude::*;

verus! {

/// Counters of the logger. Their values change under any thread that shares them.
#[derive(Debug)]
pub struct LoggerCounters {
    pub events_received: AtomicU64,
    pub events_dropped: AtomicU64,
    pub batches_flushed: AtomicU64,
    pub flush_errors: AtomicU64,
}

/// One of the counters.
#[derive(Clone, Copy, Debug, PartialEq, Eq, Structural)]
pub enum Counter {
    Received,
    Dropped,
    Flushed,
    FlushErrors,
}

/// The counter was made with this count. What an atomic holds is not visible to contracts: they
/// say how it is made and what is done to it.
pub open spec fn starts_at(counter: AtomicU64, n: u64) -> bool {
    call_ensures(AtomicU64::new, (n,), counter)
}

/// One more was counted, after `before` others.
pub open spec fn counted_after(counter: AtomicU64, before: u64) -> bool {
    call_ensures(
        AtomicU64::fetch_add,
        (&counter, 1u64, std::sync::atomic::Ordering::Relaxed),
        before,
    )
}

/// One more was counted.
pub open spec fn counted_one(counter: AtomicU64) -> bool {
    exists|before: u64| #[trigger] counted_after(counter, before)
}

impl Default for LoggerCounters {
    fn default() -> (r: Self)
        ensures
            r.starts_at_zero(),
    {
        Self::new()
    }
}

impl LoggerCounters {
    /// All counters were made with zero.
    pub open spec fn starts_at_zero(self) -> bool {
        &&& starts_at(self.events_received, 0)
        &&& starts_at(self.events_dropped, 0)
        &&& starts_at(self.batches_flushed, 0)
        &&& starts_at(self.flush_errors, 0)
    }

    /// All counters at zero.
    pub fn new() -> (r: Self)
        ensures
            r.starts_at_zero(),
    {
        LoggerCounters {
            events_received: AtomicU64::new(0),
            events_dropped: AtomicU64::new(0),
            batches_flushed: AtomicU64::new(0),
            flush_errors: AtomicU64::new(0),
        }
    }

    pub fn inc_received(&self)
        ensures
            counted_one(self.events_received),
    {
        let before: u64 = self.events_received.fetch_add(1, std::sync::atomic::Ordering::Relaxed);
        assert(counted_after(self.events_received, before));
    }

    pub fn inc_dropped(&self)
        ensures
            counted_one(self.events_dropped),
    {
        let before: u64 = self.events_dropped.fetch_add(1, std::sync::atomic::Ordering::Relaxed);
        assert(counted_after(self.events_dropped, before));
    }

    pub fn inc_flushed(&self)
        ensures
            counted_one(self.batches_flushed),
    {
        let before: u64 = self.batches_flushed.fetch_add(1, std::sync::atomic::Ordering::Relaxed);
        assert(counted_after(self.batches_flushed, before));
    }

    pub fn inc_flush_errors(&self)
        ensures
            counted_one(self.flush_errors),
    {
        let before: u64 = self.flush_errors.fetch_add(1, std::sync::atomic::Ordering::Relaxed);
        assert(counted_after(self.flush_errors, before));
    }
}

} // verus!
