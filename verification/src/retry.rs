//! Retry policy for the poll and persistence loops: the decision how long
//! to wait before the next cycle.
//!
//! A failed cycle doubles the wait, up to a ceiling, so repeated API or
//! store failures back off instead of hammering the remote; a successful
//! cycle snaps the wait back to the regular interval. The loops that
//! actually sleep, fetch and report live outside the library; every delay
//! they use is decided here.

use vstd::prelude::*;

verus! {

/// Backoff state: the regular cycle interval, the ceiling, and the wait
/// currently in force.
pub struct RetryBackoff {
    pub interval_ms: u64,
    pub max_delay_ms: u64,
    pub delay_ms: u64,
}

impl RetryBackoff {
    /// The state is well formed: the wait in force stays between the
    /// regular interval and the ceiling.
    pub open spec fn wf(&self) -> bool {
        0 < self.interval_ms <= self.delay_ms <= self.max_delay_ms
    }

    /// A fresh policy: the next cycle runs after the regular interval.
    pub fn new(interval_ms: u64, max_delay_ms: u64) -> (p: RetryBackoff)
        requires
            0 < interval_ms <= max_delay_ms,
        ensures
            p.wf(),
            p.interval_ms == interval_ms,
            p.max_delay_ms == max_delay_ms,
            p.delay_ms == interval_ms,
    {
        RetryBackoff { interval_ms, max_delay_ms, delay_ms: interval_ms }
    }

    /// Decide the wait before the next cycle from this cycle's outcome:
    /// success returns to the regular interval, failure doubles the current
    /// wait, capped at the ceiling. A well-formed state stays well formed,
    /// so the wait is always bounded.
    pub fn next_delay(&mut self, succeeded: bool) -> (d: u64)
        ensures
            final(self).interval_ms == old(self).interval_ms,
            final(self).max_delay_ms == old(self).max_delay_ms,
            succeeded ==> final(self).delay_ms == old(self).interval_ms,
            !succeeded ==> final(self).delay_ms == (if 2 * old(self).delay_ms
                <= old(self).max_delay_ms {
                2 * old(self).delay_ms
            } else {
                old(self).max_delay_ms as int
            }),
            d == final(self).delay_ms,
            old(self).wf() ==> final(self).wf(),
    {
        if succeeded {
            self.delay_ms = self.interval_ms;
        } else if self.delay_ms <= self.max_delay_ms / 2 {
            self.delay_ms = self.delay_ms * 2;
        } else {
            self.delay_ms = self.max_delay_ms;
        }
        self.delay_ms
    }
}

} // verus!
