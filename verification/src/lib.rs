//! Cooperation between a tick-driven main loop and background async tasks:
//! a monotone (wrapping) tick clock, per-phase FIFO mailboxes for callbacks
//! that must run on the main thread, and a keyed, deduplicating scheduler for
//! background jobs.
//!
//! This crate holds the verified core: the clock arithmetic, the mailbox
//! queues, and the scheduler's state machine. The async plumbing that drives
//! it (runtimes, channels, the host loop) lives outside and consults these
//! types once per update.

use vstd::prelude::*;

pub mod main_thread;
pub mod scheduler;
pub mod task_channels;
pub mod ticks;

pub use main_thread::MainThreadRunConfiguration;
pub use scheduler::{JobKey, JobState, Run, ScheduleOutcome, Scheduler};
pub use task_channels::{Phase, TaskChannels};
pub use ticks::{TicksPlugin, UpdateTicks};

verus! {

/// Returned when a callback is handed to a mailbox that has been torn down
/// (the process is shutting down); the callback is not queued.
#[derive(Clone, Copy, Debug, PartialEq, Eq, Structural)]
pub struct BridgeClosed;

} // verus!
