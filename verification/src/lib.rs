//! A small async runtime: tasks, a run queue, wakers, `block_on`, `spawn` and
//! `sleep`.
//!
//! The crate holds the decisions of the runtime as verified state machines.
//! Locks, threads, clocks and the polling of `std` futures stay with the
//! caller, which performs the actions these machines ask for and reports back
//! what happened.

pub mod call_laws;
pub mod executor;
pub mod heap;
pub mod join;
pub mod laws;
mod lemmas;
pub mod model;
pub mod parking;
pub mod queue;
pub mod state_laws;
pub mod time;
pub mod timer;
pub mod timer_call_laws;
pub mod timer_laws;
pub mod timers;
pub mod waker;

pub use executor::{block_on, spawn, Action, BlockOn, Executor, JoinHandle, Task};
pub use join::{Poll, ShareState};
pub use model::{JoinCell, Outcome, Released};
pub use queue::{RunQueue, TaskId};
pub use time::{Duration, Instant};
pub use timer::{TimerEntry, TimerId, TimerShareState};
pub use timers::{
    sleep, Event, InvalidDuration, Sleep, TimerAction, TimerCell, Timers, Wait, MAX_QUEUE_SIZE,
};
pub use waker::{get_raw_waker, RawWaker};
