//! The handle by which a task is woken.

use crate::queue::TaskId;
use vstd::prelude::*;

verus! {

/// An owned reference to a task, able to put it back on its run queue.
///
/// A `RawWaker` is counted: the task it refers to stays alive until the waker
/// is consumed by [`Executor::wake`](crate::Executor::wake) or
/// [`Executor::drop_waker`](crate::Executor::drop_waker). It is neither `Clone`
/// nor `Copy`; a second reference comes from
/// [`Executor::clone_waker`](crate::Executor::clone_waker).
#[derive(Debug)]
pub struct RawWaker {
    data: TaskId,
}

impl RawWaker {
    /// The task this waker refers to.
    pub closed spec fn task(&self) -> TaskId {
        self.data
    }

    /// The id of the task this waker refers to.
    pub fn data(&self) -> (task: TaskId)
        ensures
            task == self.task(),
    {
        self.data
    }

    /// Whether both wakers wake the same task.
    pub fn will_wake(&self, other: &RawWaker) -> (same: bool)
        ensures
            same <==> self.task() == other.task(),
    {
        self.data == other.data
    }
}

/// Wraps one reference to the task `data` as a waker. The reference passes to
/// the waker: nothing is counted here.
pub fn get_raw_waker(data: TaskId) -> (waker: RawWaker)
    ensures
        waker.task() == data,
{
    RawWaker { data }
}

} // verus!
