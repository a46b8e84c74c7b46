//! What an executor is, as a mathematical object: the tasks that exist, the
//! order in which they will run, and the results that wait to be claimed.

use crate::join::ShareState;
use crate::queue::{QueueModel, TaskId};
use vstd::prelude::*;

verus! {

/// What polling a task's future came to.
#[derive(Debug)]
pub enum Outcome<F, T> {
    /// The future is not done; it is handed back.
    Pending(F),
    /// The future finished with this value.
    Ready(T),
    /// The poll panicked; the future is gone.
    Unwound,
}

/// Where a task's result goes.
#[derive(Debug)]
#[verifier::ext_equal]
pub struct JoinCell<T, W> {
    pub state: ShareState<T, W>,
    /// Whether somebody still holds the handle that claims the result.
    pub handle: bool,
}

/// What an operation let go of. The caller drops it, outside of any lock.
#[derive(Debug)]
#[verifier::ext_equal]
pub struct Released<F, T, W> {
    /// The future of a task that nothing refers to any more.
    pub fut: Option<F>,
    /// A result cell that nobody can reach any more.
    pub cell: Option<ShareState<T, W>>,
}

/// A task.
#[verifier::ext_equal]
pub struct TaskModel<F> {
    /// The future, while it is neither being polled nor finished.
    pub fut: Option<F>,
    /// How many wakers refer to the task.
    pub wakers: nat,
    /// Whether its future is being polled.
    pub running: bool,
}

/// An executor.
#[verifier::ext_equal]
pub struct Model<F, T, W> {
    pub queue: QueueModel,
    pub tasks: Map<TaskId, TaskModel<F>>,
    pub cells: Map<TaskId, JoinCell<T, W>>,
    /// The id of the next task.
    pub next: nat,
}

impl<F, T, W> Model<F, T, W> {
    /// How many entries of the run queue name the task.
    pub open spec fn queued(self, id: TaskId) -> nat {
        self.queue.ready.to_multiset().count(id)
    }

    /// How many references to the task there are: queue entries and wakers.
    pub open spec fn strong(self, id: TaskId) -> nat {
        self.queued(id) + self.tasks[id].wakers
    }

    /// A task lives as long as something refers to it: a queue entry, a waker,
    /// or the executor that is polling it.
    pub open spec fn live(self, id: TaskId) -> bool {
        self.strong(id) > 0 || self.tasks[id].running
    }

    /// Whether the task's future still exists, at rest or being polled.
    pub open spec fn unfinished(self, id: TaskId) -> bool {
        self.tasks.contains_key(id) && (self.tasks[id].fut is Some || self.tasks[id].running)
    }

    /// Whether the task's future is there to be polled.
    pub open spec fn runnable(self, id: TaskId) -> bool {
        self.tasks.contains_key(id) && self.tasks[id].fut is Some
    }

    /// Whether a waker of the task is held.
    pub open spec fn has_waker(self, id: TaskId) -> bool {
        self.tasks.contains_key(id) && self.tasks[id].wakers > 0
    }

    /// Whether the task is being polled.
    pub open spec fn running(self, id: TaskId) -> bool {
        self.tasks.contains_key(id) && self.tasks[id].running
    }

    /// Whether the handle to the task's result is held.
    pub open spec fn has_handle(self, id: TaskId) -> bool {
        self.cells.contains_key(id) && self.cells[id].handle
    }

    /// The executor without the tasks that nothing refers to, and without the
    /// cells that nobody can write or claim any more.
    pub open spec fn collect(self) -> Self {
        let kept = Model {
            tasks: Map::new(
                |id: TaskId| self.tasks.contains_key(id) && self.live(id),
                |id: TaskId| self.tasks[id],
            ),
            ..self
        };
        Model {
            cells: Map::new(
                |id: TaskId|
                    self.cells.contains_key(id) && (self.cells[id].handle || kept.unfinished(id)),
                |id: TaskId| self.cells[id],
            ),
            ..kept
        }
    }

    /// What [`collect`](Model::collect) takes away of the task `id`.
    pub open spec fn released(self, id: TaskId) -> Released<F, T, W> {
        Released {
            fut: if self.tasks.contains_key(id) && !self.live(id) {
                self.tasks[id].fut
            } else {
                None
            },
            cell: if self.cells.contains_key(id) && !self.collect().cells.contains_key(id) {
                Some(self.cells[id].state)
            } else {
                None
            },
        }
    }

    /// The invariant of an executor.
    pub open spec fn valid(self) -> bool {
        self.valid_but(None)
    }

    /// The invariant, except that the task `loose` and its cell may be
    /// unreachable.
    pub open spec fn valid_but(self, loose: Option<TaskId>) -> bool {
        // Every queue entry names a task.
        &&& forall|i: int|
            0 <= i < self.queue.ready.len() ==> self.tasks.contains_key(
                #[trigger] self.queue.ready[i],
            )
        // Every task is referred to, and a task that runs has its future taken.
        &&& forall|id: TaskId| #[trigger]
            self.tasks.contains_key(id) ==> {
                &&& id < self.next
                &&& self.tasks[id].running ==> self.tasks[id].fut is None
                &&& Some(id) != loose ==> self.live(id)
            }
        // An unfinished task has somewhere to put its result.
        &&& forall|id: TaskId| #[trigger]
            self.unfinished(id) ==> {
                &&& self.cells.contains_key(id)
                &&& self.cells[id].state.result is None
            }
        // Every cell can still be claimed or written.
        &&& forall|id: TaskId| #[trigger]
            self.cells.contains_key(id) ==> {
                &&& id < self.next
                &&& Some(id) != loose ==> self.cells[id].handle || self.unfinished(id)
            }
    }

    /// An executor with no tasks.
    pub open spec fn initial() -> Self {
        Model {
            queue: QueueModel { ready: Seq::empty(), poisoned: false, notified: false },
            tasks: Map::empty(),
            cells: Map::empty(),
            next: 0,
        }
    }

    /// A new task with the future `fut`, on the run queue, and a cell for its
    /// result with a handle to it.
    pub open spec fn spawned(self, fut: F) -> Self {
        let id = self.next as TaskId;
        Model {
            queue: self.queue.push(id),
            tasks: self.tasks.insert(id, TaskModel { fut: Some(fut), wakers: 0, running: false }),
            cells: self.cells.insert(
                id,
                JoinCell { state: ShareState { result: None, waker: None }, handle: true },
            ),
            next: self.next + 1,
        }
    }

    /// The task is put on the run queue.
    pub open spec fn woken_by_ref(self, id: TaskId) -> Self {
        Model { queue: self.queue.push(id), ..self }
    }

    /// One more waker refers to the task.
    pub open spec fn waker_added(self, id: TaskId) -> Self {
        let task = self.tasks[id];
        Model {
            tasks: self.tasks.insert(id, TaskModel { wakers: task.wakers + 1, ..task }),
            ..self
        }
    }

    /// One waker less refers to the task.
    pub open spec fn waker_removed(self, id: TaskId) -> Self {
        let task = self.tasks[id];
        Model {
            tasks: self.tasks.insert(id, TaskModel { wakers: (task.wakers - 1) as nat, ..task }),
            ..self
        }
    }

    /// How many entries at the front of `ready` name tasks without a future to
    /// poll.
    pub open spec fn stale(self, ready: Seq<TaskId>) -> nat
        decreases ready.len(),
    {
        if ready.len() == 0 || self.runnable(ready[0]) {
            0
        } else {
            1 + self.stale(ready.drop_first())
        }
    }

    /// The task that is polled next: the first one on the run queue that has a
    /// future to poll.
    pub open spec fn next_task(self) -> Option<TaskId> {
        let at = self.stale(self.queue.ready);
        if self.queue.poisoned || at >= self.queue.ready.len() {
            None
        } else {
            Some(self.queue.ready[at as int])
        }
    }

    /// The task's future was taken out to be polled with a new waker.
    pub open spec fn taken(self, id: TaskId) -> Self {
        let task = self.tasks[id];
        Model {
            tasks: self.tasks.insert(
                id,
                TaskModel { fut: None, wakers: task.wakers + 1, running: true },
            ),
            ..self
        }
    }

    /// The run queue holds only `ready`.
    pub open spec fn with_ready(self, ready: Seq<TaskId>) -> Self {
        Model { queue: QueueModel { ready, ..self.queue }, ..self }
    }

    /// The next task's future has been taken to be polled with a new waker.
    /// Entries before it are gone, or all of them if no task is runnable.
    pub open spec fn dispatched(self) -> Self {
        let ready = self.queue.ready;
        if self.queue.poisoned {
            self
        } else {
            match self.next_task() {
                None => self.with_ready(Seq::empty()),
                Some(id) => self.taken(id).with_ready(ready.skip(self.stale(ready) as int + 1)),
            }
        }
    }

    /// The poll of the task is over.
    pub open spec fn polled(self, id: TaskId, outcome: Outcome<F, T>) -> Self {
        let task = self.tasks[id];
        let fut = match outcome {
            Outcome::Pending(fut) => Some(fut),
            _ => None,
        };
        let cells = match outcome {
            Outcome::Ready(result) => self.cells.insert(
                id,
                JoinCell {
                    state: ShareState { result: Some(result), waker: None },
                    ..self.cells[id]
                },
            ),
            _ => self.cells,
        };
        Model {
            tasks: self.tasks.insert(id, TaskModel { fut, running: false, ..task }),
            cells,
            ..self
        }
    }

    /// The waker to be woken because of how the poll of the task ended.
    pub open spec fn completion_waker(self, id: TaskId, outcome: Outcome<F, T>) -> Option<W> {
        if outcome is Ready {
            self.cells[id].state.waker
        } else {
            None
        }
    }

    /// The result cell of the task holds `state`.
    pub open spec fn with_cell(self, id: TaskId, state: ShareState<T, W>) -> Self {
        Model {
            cells: self.cells.insert(id, JoinCell { state, ..self.cells[id] }),
            ..self
        }
    }

    /// The handle to the task's result was polled.
    pub open spec fn join_polled(self, id: TaskId, waker: W, will_wake: bool) -> Self {
        self.with_cell(id, self.cells[id].state.after_poll(waker, will_wake))
    }

    /// The handle to the task's result is gone.
    pub open spec fn detached(self, id: TaskId) -> Self {
        Model {
            cells: self.cells.insert(id, JoinCell { handle: false, ..self.cells[id] }),
            ..self
        }
    }

    /// The task's result was claimed together with the handle to it.
    pub open spec fn claimed(self, id: TaskId) -> Self {
        Model { cells: self.cells.remove(id), ..self }
    }
}

} // verus!
