//! The run queue: the tasks that are ready to be polled, in the order in which
//! they were woken.

use std::collections::VecDeque;
use vstd::prelude::*;

verus! {

/// Names a task of one executor. An id is never used twice by its executor.
pub type TaskId = u64;

/// Number of entries a fresh queue has room for.
pub const INITIAL_CAPACITY: usize = 1000;

/// What a [`RunQueue`] holds.
#[verifier::ext_equal]
pub struct QueueModel {
    /// The queued tasks, the next one to run first.
    pub ready: Seq<TaskId>,
    /// A thread panicked while it held the queue's lock.
    pub poisoned: bool,
    /// The executor thread is owed an unpark.
    pub notified: bool,
}

impl QueueModel {
    /// The queue after `task` was pushed: behind all others, unless the lock is
    /// poisoned. The executor thread is to be woken either way.
    pub open spec fn push(self, task: TaskId) -> QueueModel {
        QueueModel {
            ready: if self.poisoned { self.ready } else { self.ready.push(task) },
            notified: true,
            ..self
        }
    }

    /// Whether a pop finds nothing.
    pub open spec fn is_drained(self) -> bool {
        self.poisoned || self.ready.len() == 0
    }
}

/// A first-in, first-out queue of ready tasks.
///
/// One thread, the executor thread, pops; any thread may push. The queue is
/// meant to be kept behind a lock; `poisoned` records that this lock was found
/// poisoned.
pub struct RunQueue {
    queue: VecDeque<TaskId>,
    poisoned: bool,
    notified: bool,
}

impl View for RunQueue {
    type V = QueueModel;

    closed spec fn view(&self) -> QueueModel {
        QueueModel { ready: self.queue@, poisoned: self.poisoned, notified: self.notified }
    }
}

impl RunQueue {
    /// An empty queue.
    pub fn new() -> (queue: Self)
        ensures
            queue@ == (QueueModel { ready: Seq::empty(), poisoned: false, notified: false }),
    {
        RunQueue {
            queue: VecDeque::with_capacity(INITIAL_CAPACITY),
            poisoned: false,
            notified: false,
        }
    }

    /// Takes the task that has waited longest. A poisoned queue gives out
    /// nothing.
    pub fn pop(&mut self) -> (task: Option<TaskId>)
        ensures
            match task {
                Some(id) => {
                    &&& !old(self)@.is_drained()
                    &&& id == old(self)@.ready[0]
                    &&& final(self)@ == (QueueModel {
                        ready: old(self)@.ready.drop_first(),
                        ..old(self)@
                    })
                },
                None => old(self)@.is_drained() && final(self)@ == old(self)@,
            },
    {
        if self.poisoned {
            return None;
        }
        self.queue.pop_front()
    }

    /// Queues `task` behind all others and asks for the executor thread to be
    /// woken. A poisoned queue drops the task and still asks.
    pub fn push(&mut self, task: TaskId)
        ensures
            final(self)@ == old(self)@.push(task),
    {
        if !self.poisoned {
            self.queue.push_back(task);
        }
        // Unconditional: the executor may be about to park.
        self.notified = true;
    }

    /// Whether the queue's lock was found poisoned.
    pub fn is_poisoned(&self) -> (poisoned: bool)
        ensures
            poisoned == self@.poisoned,
    {
        self.poisoned
    }

    /// Records that the queue's lock was found poisoned.
    pub fn poison(&mut self)
        ensures
            final(self)@ == (QueueModel { poisoned: true, ..old(self)@ }),
    {
        self.poisoned = true;
    }

    /// Takes the pending request to unpark the executor thread, if there is
    /// one.
    pub fn take_unpark(&mut self) -> (unpark: bool)
        ensures
            unpark == old(self)@.notified,
            final(self)@ == (QueueModel { notified: false, ..old(self)@ }),
    {
        let unpark = self.notified;
        self.notified = false;
        unpark
    }
}

} // verus!
