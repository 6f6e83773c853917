//! Choosing where in the update cycle a main-thread callback runs.

use crate::task_channels::Phase;
use vstd::prelude::*;

verus! {

/// Where a callback handed to the main thread is drained and executed.
/// Callbacks submitted without an explicit configuration use the update
/// phase.
pub struct MainThreadRunConfiguration {
    pub schedule: Phase,
}

impl Default for MainThreadRunConfiguration {
    /// The default target: the update phase.
    fn default() -> (c: Self)
        ensures
            c.schedule == Phase::Update,
    {
        MainThreadRunConfiguration { schedule: Phase::Update }
    }
}

impl MainThreadRunConfiguration {
    /// A configuration that targets `schedule`.
    pub fn new_with_schedule(schedule: Phase) -> (c: Self)
        ensures
            c.schedule == schedule,
    {
        MainThreadRunConfiguration { schedule }
    }

    /// The same configuration, retargeted at `schedule`.
    pub fn with_schedule(self, schedule: Phase) -> (c: Self)
        ensures
            c.schedule == schedule,
    {
        MainThreadRunConfiguration { schedule }
    }

    /// Targets the first phase of the update cycle.
    pub fn on_first() -> (c: Self)
        ensures
            c.schedule == Phase::First,
    {
        Self::new_with_schedule(Phase::First)
    }

    /// Targets the phase before the update phase.
    pub fn on_pre_update() -> (c: Self)
        ensures
            c.schedule == Phase::PreUpdate,
    {
        Self::new_with_schedule(Phase::PreUpdate)
    }

    /// Targets the update phase.
    pub fn on_update() -> (c: Self)
        ensures
            c.schedule == Phase::Update,
    {
        Self::new_with_schedule(Phase::Update)
    }

    /// Targets the phase after the update phase.
    pub fn on_post_update() -> (c: Self)
        ensures
            c.schedule == Phase::PostUpdate,
    {
        Self::new_with_schedule(Phase::PostUpdate)
    }

    /// Targets the last phase of the update cycle.
    pub fn on_last() -> (c: Self)
        ensures
            c.schedule == Phase::Last,
    {
        Self::new_with_schedule(Phase::Last)
    }
}

} // verus!
