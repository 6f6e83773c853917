//! The tick clock: a counter the main loop advances once per update, read by
//! background tasks to decide how long to keep waiting.

use vstd::prelude::*;

verus! {

/// How many updates the main loop has completed since startup. The counter
/// wraps on overflow; targets are computed with wrapping addition and compared
/// with `>=`, which is correct as long as waits stay far below the counter's
/// range.
pub struct UpdateTicks {
    ticks: usize,
}

impl View for UpdateTicks {
    type V = usize;

    closed spec fn view(&self) -> usize {
        self.ticks
    }
}

impl UpdateTicks {
    /// A fresh clock, before the first update.
    pub fn new() -> (clock: Self)
        ensures
            clock@ == 0,
    {
        UpdateTicks { ticks: 0 }
    }

    /// The current tick count.
    pub fn tick(&self) -> (t: usize)
        ensures
            t == self@,
    {
        self.ticks
    }

    /// Advances the clock by one update, wrapping on overflow, and returns the
    /// new count. Called by the main loop only, once per update; the caller is
    /// expected to broadcast a change notification afterwards so that waiting
    /// tasks re-check their targets.
    pub fn increment_ticks(&mut self) -> (t: usize)
        ensures
            final(self)@ == old(self)@.wrapping_add(1),
            t == final(self)@,
    {
        self.ticks = self.ticks.wrapping_add(1);
        self.ticks
    }
}

/// Installs the tick clock: the host loop builds one clock at startup and
/// advances it at the end of every update.
pub struct TicksPlugin;

impl TicksPlugin {
    /// The clock this plugin hands to the host loop, starting at zero.
    pub fn build(&self) -> (clock: UpdateTicks)
        ensures
            clock@ == 0,
    {
        UpdateTicks::new()
    }
}

/// The tick a sleeping task waits for: the count at the time of the call plus
/// the number of updates to sleep, wrapping on overflow.
pub fn sleep_target(current: usize, updates_to_sleep: usize) -> (target: usize)
    ensures
        target == current.wrapping_add(updates_to_sleep),
{
    current.wrapping_add(updates_to_sleep)
}

/// Whether a task sleeping until `target` may wake now that the clock reads
/// `current`. The waiting loop re-checks this after every change
/// notification; losing intermediate notifications is harmless because the
/// check is idempotent and the clock only grows.
pub fn sleep_done(current: usize, target: usize) -> (done: bool)
    ensures
        done == (current >= target),
{
    current >= target
}

/// Sleeping is sound and productive as long as the target does not wrap: a
/// task that called in at tick `t` asking for `n` more updates wakes exactly
/// at the counts that are at least `t + n`, and is free to return immediately
/// when `n` is zero.
pub proof fn lemma_sleep_updates(t: usize, n: usize, c: usize)
    requires
        t + n <= usize::MAX,
    ensures
        t.wrapping_add(n) == t + n,
        (c >= t.wrapping_add(n)) <==> (c >= t + n),
        n == 0 ==> t >= t.wrapping_add(n),
{
}

} // verus!
