//! Repeating interval timer: accumulates elapsed time and fires at most once
//! per check, carrying the surplus over into the next interval.

use vstd::prelude::*;
use crate::config::MAX_TIME;

verus! {

/// A repeating timer. It fires on the call of `advance` that carries its
/// accumulated time to the interval or past it; the surplus is kept, modulo
/// the interval.
#[derive(Clone, Copy, Debug, PartialEq, Eq, Structural)]
pub struct Timer {
    /// The configured interval, in time units.
    pub interval: u64,
    /// Time accumulated since the timer last fired; always below `interval`.
    pub accumulated: u64,
}

impl Timer {
    /// The interval is positive and in range, and the accumulator below it.
    pub open spec fn wf(self) -> bool {
        &&& 0 < self.interval <= MAX_TIME
        &&& self.accumulated < self.interval
    }

    /// Whether a timer in this state fires when `delta` more time units pass.
    pub open spec fn spec_fires(self, delta: u64) -> bool {
        self.accumulated + delta >= self.interval
    }

    /// The accumulator after `delta` more time units pass.
    pub open spec fn spec_accumulated_after(self, delta: u64) -> int {
        (self.accumulated + delta) % (self.interval as int)
    }

    /// A fresh timer with the given interval and nothing accumulated.
    pub fn new(interval: u64) -> (t: Timer)
        requires
            0 < interval <= MAX_TIME,
        ensures
            t.wf(),
            t.interval == interval,
            t.accumulated == 0,
    {
        Timer { interval, accumulated: 0 }
    }

    /// Advances the timer by `delta` elapsed time units and reports whether
    /// it fired.
    pub fn advance(&mut self, delta: u64) -> (fired: bool)
        requires
            old(self).wf(),
            delta <= MAX_TIME,
        ensures
            final(self).wf(),
            final(self).interval == old(self).interval,
            fired == old(self).spec_fires(delta),
            final(self).accumulated == old(self).spec_accumulated_after(delta),
    {
        let total = self.accumulated + delta;
        if total >= self.interval {
            self.accumulated = total % self.interval;
            true
        } else {
            proof {
                vstd::arithmetic::div_mod::lemma_small_mod(total as nat, self.interval as nat);
            }
            self.accumulated = total;
            false
        }
    }
}

} // verus!
