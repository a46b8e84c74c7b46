//! The executor: spawning tasks, waking them, and deciding what the executor
//! thread does next.

use crate::join::{needs_waker, Poll, ShareState};
use crate::model::{JoinCell, Model, Outcome, Released, TaskModel};
use crate::queue::{QueueModel, RunQueue, TaskId};
use crate::waker::{get_raw_waker, RawWaker};
use std::collections::HashMap;
use vstd::prelude::*;

verus! {

/// A unit of work: a future and what is known of it.
pub struct Task<F> {
    fut: Option<F>,
    /// References to the task: entries of the run queue and wakers.
    strong: u64,
    running: bool,
    wakers: Ghost<nat>,
}

impl<F> View for Task<F> {
    type V = TaskModel<F>;

    closed spec fn view(&self) -> TaskModel<F> {
        TaskModel { fut: self.fut, wakers: self.wakers@, running: self.running }
    }
}

spec fn task_models<F>(tasks: Map<TaskId, Task<F>>) -> Map<TaskId, TaskModel<F>> {
    Map::new(|id: TaskId| tasks.contains_key(id), |id: TaskId| tasks[id]@)
}

/// A single-threaded executor of futures `F` with results `T`, whose results
/// are awaited with wakers `W`.
///
/// It is meant to be kept behind a lock. The lock is released while a future
/// is polled, so any operation may come between a dispatch and the report of
/// how the poll ended.
pub struct Executor<F, T, W> {
    queue: RunQueue,
    tasks: HashMap<TaskId, Task<F>>,
    cells: HashMap<TaskId, JoinCell<T, W>>,
    next: TaskId,
}

impl<F, T, W> View for Executor<F, T, W> {
    type V = Model<F, T, W>;

    closed spec fn view(&self) -> Model<F, T, W> {
        Model {
            queue: self.queue@,
            tasks: task_models(self.tasks@),
            cells: self.cells@,
            next: self.next as nat,
        }
    }
}

impl<F, T, W> Executor<F, T, W> {
    /// The executor's invariant.
    pub open spec fn wf(&self) -> bool {
        self@.valid() && self.counted()
    }

    /// Every task's count is the number of references to it.
    pub closed spec fn counted(&self) -> bool {
        forall|id: TaskId| #[trigger]
            self.tasks@.contains_key(id) ==> self.tasks@[id].strong == self@.strong(id)
    }

    /// An executor with no tasks.
    pub fn new() -> (rt: Self)
        ensures
            rt.wf(),
            rt@ == Model::<F, T, W>::initial(),
    {
        let rt = Executor {
            queue: RunQueue::new(),
            tasks: HashMap::new(),
            cells: HashMap::new(),
            next: 0,
        };
        assert(rt@ == Model::<F, T, W>::initial());
        rt
    }

    /// Drops the task `id` if nothing refers to it, and its cell if nobody can
    /// write or claim it any more.
    fn settle(&mut self, id: TaskId) -> (released: Released<F, T, W>)
        requires
            old(self)@.valid_but(Some(id)),
            old(self).counted(),
        ensures
            final(self).wf(),
            final(self)@ == old(self)@.collect(),
            released == old(self)@.released(id),
    {
        let ghost before = self@;
        let dead = match self.tasks.get(&id) {
            Some(task) => task.strong == 0 && !task.running,
            None => false,
        };
        let fut = if dead {
            match self.tasks.remove(&id) {
                Some(task) => task.fut,
                None => None,
            }
        } else {
            None
        };
        let unfinished = match self.tasks.get(&id) {
            Some(task) => task.fut.is_some() || task.running,
            None => false,
        };
        let orphan = match self.cells.get(&id) {
            Some(cell) => !cell.handle && !unfinished,
            None => false,
        };
        let cell = if orphan {
            match self.cells.remove(&id) {
                Some(cell) => Some(cell.state),
                None => None,
            }
        } else {
            None
        };
        proof {
            crate::lemmas::lemma_collect_one(before, id);
            assert(self@.tasks =~= before.collect().tasks);
            assert(self@.cells =~= before.collect().cells);
        }
        Released { fut, cell }
    }

    /// Wakes the task of `waker`, which stays usable: the task goes to the back
    /// of the run queue.
    pub fn wake_by_ref(&mut self, waker: &RawWaker)
        requires
            old(self).wf(),
            old(self)@.has_waker(waker.task()),
            old(self)@.strong(waker.task()) < u64::MAX,
        ensures
            final(self).wf(),
            final(self)@ == old(self)@.woken_by_ref(waker.task()),
    {
        let id = waker.data();
        let ghost before = self@;
        let poisoned = self.queue.is_poisoned();
        self.queue.push(id);
        match self.tasks.remove(&id) {
            Some(mut task) => {
                if !poisoned {
                    task.strong = task.strong + 1;
                }
                self.tasks.insert(id, task);
            },
            None => {},
        }
        proof {
            crate::lemmas::lemma_woken_by_ref(before, id, None);
            assert(self@.tasks =~= before.tasks);
        }
    }

    /// Wakes the task of `waker` and consumes the waker: its reference passes
    /// to the run queue.
    pub fn wake(&mut self, waker: RawWaker) -> (released: Released<F, T, W>)
        requires
            old(self).wf(),
            old(self)@.has_waker(waker.task()),
        ensures
            final(self).wf(),
            final(self)@ == old(self)@.waker_removed(waker.task()).woken_by_ref(
                waker.task(),
            ).collect(),
            !old(self)@.queue.poisoned ==> final(self)@ == old(self)@.waker_removed(
                waker.task(),
            ).woken_by_ref(waker.task()),
            released == old(self)@.waker_removed(waker.task()).woken_by_ref(
                waker.task(),
            ).released(waker.task()),
    {
        let id = waker.data();
        let ghost before = self@;
        let poisoned = self.queue.is_poisoned();
        self.queue.push(id);
        match self.tasks.remove(&id) {
            Some(mut task) => {
                if poisoned {
                    task.strong = task.strong - 1;
                }
                task.wakers = Ghost((task.wakers@ - 1) as nat);
                self.tasks.insert(id, task);
            },
            None => {},
        }
        proof {
            crate::lemmas::lemma_waker_removed(before, id);
            crate::lemmas::lemma_woken_by_ref(before.waker_removed(id), id, Some(id));
            assert(self@.tasks =~= before.waker_removed(id).tasks);
            if !poisoned {
                crate::lemmas::lemma_valid_if_live(before.waker_removed(id).woken_by_ref(id), id);
            }
        }
        self.settle(id)
    }

    /// A second waker of the same task.
    pub fn clone_waker(&mut self, waker: &RawWaker) -> (second: RawWaker)
        requires
            old(self).wf(),
            old(self)@.has_waker(waker.task()),
            old(self)@.strong(waker.task()) < u64::MAX,
        ensures
            final(self).wf(),
            final(self)@ == old(self)@.waker_added(waker.task()),
            second.task() == waker.task(),
    {
        let id = waker.data();
        let ghost before = self@;
        match self.tasks.remove(&id) {
            Some(mut task) => {
                task.strong = task.strong + 1;
                task.wakers = Ghost(task.wakers@ + 1);
                self.tasks.insert(id, task);
            },
            None => {},
        }
        proof {
            crate::lemmas::lemma_waker_added(before, id);
            assert(self@.tasks =~= before.waker_added(id).tasks);
        }
        get_raw_waker(id)
    }

    /// Gives up a waker. A task that nothing else refers to is dropped.
    pub fn drop_waker(&mut self, waker: RawWaker) -> (released: Released<F, T, W>)
        requires
            old(self).wf(),
            old(self)@.has_waker(waker.task()),
        ensures
            final(self).wf(),
            final(self)@ == old(self)@.waker_removed(waker.task()).collect(),
            released == old(self)@.waker_removed(waker.task()).released(waker.task()),
    {
        let id = waker.data();
        let ghost before = self@;
        match self.tasks.remove(&id) {
            Some(mut task) => {
                task.strong = task.strong - 1;
                task.wakers = Ghost((task.wakers@ - 1) as nat);
                self.tasks.insert(id, task);
            },
            None => {},
        }
        proof {
            crate::lemmas::lemma_waker_removed(before, id);
            assert(self@.tasks =~= before.waker_removed(id).tasks);
        }
        self.settle(id)
    }

    /// Takes the next task off the run queue, with its future and a waker for
    /// it. Entries of tasks that have no future to poll are passed over.
    fn dispatch(&mut self) -> (next: Option<(TaskId, F, RawWaker)>)
        requires
            old(self).wf(),
        ensures
            final(self).wf(),
            final(self)@ == old(self)@.dispatched().collect(),
            match next {
                Some((id, fut, waker)) => {
                    &&& old(self)@.next_task() == Some(id)
                    &&& old(self)@.tasks[id].fut == Some(fut)
                    &&& waker.task() == id
                },
                None => old(self)@.next_task() is None,
            },
    {
        let ghost start = self@;
        let ghost mut passed: int = 0;
        proof {
            crate::lemmas::lemma_collect_valid(start);
            assert(start.queue.ready.skip(0) =~= start.queue.ready);
        }
        loop
            invariant
                self.wf(),
                start.valid(),
                start == old(self)@,
                0 <= passed <= start.queue.ready.len(),
                start.stale(start.queue.ready) == passed + start.stale(
                    start.queue.ready.skip(passed),
                ),
                self@ == start.with_ready(start.queue.ready.skip(passed)).collect(),
                start.queue.poisoned ==> passed == 0,
            decreases self@.queue.ready.len(),
        {
            let ghost here = self@;
            let ghost rest = start.queue.ready.skip(passed);
            match self.queue.pop() {
                None => {
                    proof {
                        assert(start.queue.poisoned || rest =~= Seq::empty());
                        assert(start.queue.poisoned ==> start.with_ready(rest) =~= start);
                    }
                    return None;
                },
                Some(id) => {
                    proof {
                        assert(here.tasks.contains_key(here.queue.ready[0]));
                        assert(rest.drop_first() =~= start.queue.ready.skip(passed + 1));
                        crate::lemmas::lemma_pop(here);
                    }
                    match self.tasks.remove(&id) {
                        Some(mut task) => {
                            task.strong = task.strong - 1;
                            match task.fut.take() {
                                Some(fut) => {
                                    task.strong = task.strong + 1;
                                    task.running = true;
                                    task.wakers = Ghost(task.wakers@ + 1);
                                    self.tasks.insert(id, task);
                                    proof {
                                        crate::lemmas::lemma_take_future(start, rest);
                                        assert(self@.tasks =~= here.taken(id).tasks);
                                        assert(self@ == here.taken(id).with_ready(
                                            rest.drop_first(),
                                        ));
                                        crate::lemmas::lemma_drop_first_count(rest);
                                    }
                                    return Some((id, fut, get_raw_waker(id)));
                                },
                                None => {
                                    self.tasks.insert(id, task);
                                    proof {
                                        assert(self@.tasks =~= here.tasks);
                                        assert(self@ == here.with_ready(rest.drop_first()));
                                        crate::lemmas::lemma_collect_twice(start, rest);
                                    }
                                    let released = self.settle(id);
                                    assert(released.fut is None && released.cell is None);
                                    proof {
                                        passed = passed + 1;
                                    }
                                },
                            }
                        },
                        None => {},
                    }
                },
            }
        }
    }

    /// Reports how the poll of the task `id` ended. A future that is pending is
    /// put back; a result goes to the task's cell, and the waker on record
    /// there is handed out to be woken.
    pub fn polled(&mut self, id: TaskId, outcome: Outcome<F, T>) -> (ended: (
        Option<W>,
        Released<F, T, W>,
    ))
        requires
            old(self).wf(),
            old(self)@.running(id),
        ensures
            final(self).wf(),
            final(self)@ == old(self)@.polled(id, outcome).collect(),
            ended.0 == old(self)@.completion_waker(id, outcome),
            ended.1 == old(self)@.polled(id, outcome).released(id),
    {
        let ghost before = self@;
        proof {
            crate::lemmas::lemma_polled(before, id, outcome);
        }
        let (fut, waker) = match outcome {
            Outcome::Pending(fut) => (Some(fut), None),
            Outcome::Ready(result) => match self.cells.remove(&id) {
                Some(mut cell) => {
                    let waker = cell.state.complete(result);
                    self.cells.insert(id, cell);
                    (None, waker)
                },
                None => (None, None),
            },
            Outcome::Unwound => (None, None),
        };
        match self.tasks.remove(&id) {
            Some(mut task) => {
                task.fut = fut;
                task.running = false;
                self.tasks.insert(id, task);
            },
            None => {},
        }
        proof {
            assert(self@.tasks =~= before.polled(id, outcome).tasks);
            assert(self@.cells =~= before.polled(id, outcome).cells);
        }
        let released = self.settle(id);
        (waker, released)
    }

    /// Gives up the handle to the result of the task `id`.
    fn detach(&mut self, id: TaskId) -> (cell: Option<ShareState<T, W>>)
        requires
            old(self).wf(),
            old(self)@.has_handle(id),
        ensures
            final(self).wf(),
            final(self)@ == old(self)@.detached(id).collect(),
            cell == old(self)@.detached(id).released(id).cell,
    {
        let ghost before = self@;
        match self.cells.remove(&id) {
            Some(mut cell) => {
                cell.handle = false;
                self.cells.insert(id, cell);
            },
            None => {},
        }
        proof {
            crate::lemmas::lemma_detached(before, id);
            assert(self@.cells =~= before.detached(id).cells);
        }
        self.settle(id).cell
    }

    /// How many references there are to the task of `waker`.
    pub fn strong_count(&self, waker: &RawWaker) -> (count: u64)
        requires
            self.wf(),
            self@.has_waker(waker.task()),
        ensures
            count == self@.strong(waker.task()),
    {
        match self.tasks.get(&waker.data()) {
            Some(task) => task.strong,
            None => 0,
        }
    }

    /// Whether there is an id left for another task.
    pub fn can_spawn(&self) -> (can: bool)
        ensures
            can <==> self@.next < u64::MAX,
    {
        self.next < u64::MAX
    }

    /// Records that the executor's lock was found poisoned.
    pub fn poison(&mut self)
        requires
            old(self).wf(),
        ensures
            final(self).wf(),
            final(self)@ == (Model {
                queue: QueueModel { poisoned: true, ..old(self)@.queue },
                ..old(self)@
            }),
    {
        let ghost before = self@;
        self.queue.poison();
        proof {
            crate::lemmas::lemma_same_ready(before, self@);
        }
    }

    /// Takes the pending request to unpark the executor thread, if there is
    /// one.
    pub fn take_unpark(&mut self) -> (unpark: bool)
        requires
            old(self).wf(),
        ensures
            final(self).wf(),
            unpark == old(self)@.queue.notified,
            final(self)@ == (Model {
                queue: QueueModel { notified: false, ..old(self)@.queue },
                ..old(self)@
            }),
    {
        let ghost before = self@;
        let unpark = self.queue.take_unpark();
        proof {
            crate::lemmas::lemma_same_ready(before, self@);
        }
        unpark
    }
}

/// The right to the result of a spawned task.
#[derive(Debug)]
pub struct JoinHandle {
    task: TaskId,
}

impl JoinHandle {
    /// The task whose result this handle claims.
    pub closed spec fn task(&self) -> TaskId {
        self.task
    }

    /// The id of the task whose result this handle claims.
    pub fn id(&self) -> (task: TaskId)
        ensures
            task == self.task(),
    {
        self.task
    }

    /// Whether a poll has to put a new waker on record: there is no result yet,
    /// and no waker of which `will_wake` says that it wakes the right task.
    pub fn needs_waker<F, T, W, S: Fn(&W) -> bool>(
        &self,
        rt: &Executor<F, T, W>,
        will_wake: S,
    ) -> (needed: bool)
        requires
            rt.wf(),
            rt@.has_handle(self.task()),
            forall|a: &W| call_requires(will_wake, (a,)),
        ensures
            match rt@.cells[self.task()].state {
                ShareState { result: Some(_), .. } => !needed,
                ShareState { result: None, waker: Some(waker) } => call_ensures(
                    will_wake,
                    (&waker,),
                    !needed,
                ),
                ShareState { result: None, waker: None } => needed,
            },
    {
        match rt.cells.get(&self.task) {
            Some(cell) => cell.state.result.is_none() && needs_waker(&cell.state.waker, will_wake),
            None => false,
        }
    }

    /// Takes the task's result if it is there, otherwise puts a clone of `waker`
    /// on record to be woken, unless the waker on record wakes the same task by
    /// `will_wake`. The second component is the waker that is not needed.
    pub fn poll<F, T, W: Clone, S: Fn(&W, &W) -> bool>(
        &mut self,
        rt: &mut Executor<F, T, W>,
        waker: &W,
        will_wake: S,
    ) -> (polled: (Poll<T>, Option<W>))
        requires
            old(rt).wf(),
            old(rt)@.has_handle(old(self).task()),
            forall|a: &W, b: &W| call_requires(will_wake, (a, b)),
        ensures
            *final(self) == *old(self),
            final(rt).wf(),
            ({
                let id = old(self).task();
                let before = old(rt)@.cells[id].state;
                let after = final(rt)@.cells[id].state;
                &&& final(rt)@ == old(rt)@.with_cell(id, after)
                &&& polled.0 == before.poll_result()
                &&& before.result is Some ==> {
                    &&& after == (ShareState { result: None, ..before })
                    &&& polled.1 is None
                }
                &&& before.result is None ==> {
                    &&& after.result is None
                    &&& crate::join::registers(
                        before.waker,
                        waker,
                        will_wake,
                        after.waker,
                        polled.1,
                    )
                }
            }),
    {
        let ghost before = rt@;
        let id = self.task;
        match rt.cells.remove(&id) {
            Some(mut cell) => {
                let polled = cell.state.poll(waker, will_wake);
                let ghost state = cell.state;
                rt.cells.insert(id, cell);
                proof {
                    crate::lemmas::lemma_with_cell(before, id, state);
                    assert(rt@.cells =~= before.with_cell(id, state).cells);
                }
                polled
            },
            None => (Poll::Pending, None),
        }
    }

    /// Takes the task's result if it is there, otherwise puts `waker` on record
    /// to be woken; `will_wake` says that the waker on record, if there is one,
    /// wakes the same task and is to be kept. The second component is the waker
    /// that is not needed.
    pub fn poll_with<F, T, W>(
        &mut self,
        rt: &mut Executor<F, T, W>,
        waker: W,
        will_wake: bool,
    ) -> (polled: (Poll<T>, Option<W>))
        requires
            old(rt).wf(),
            old(rt)@.has_handle(old(self).task()),
        ensures
            *final(self) == *old(self),
            final(rt).wf(),
            final(rt)@ == old(rt)@.join_polled(old(self).task(), waker, will_wake),
            polled.0 == old(rt)@.cells[old(self).task()].state.poll_result(),
            polled.1 == old(rt)@.cells[old(self).task()].state.poll_unused(waker, will_wake),
    {
        let ghost before = rt@;
        let id = self.task;
        match rt.cells.remove(&id) {
            Some(mut cell) => {
                let polled = cell.state.poll_with(waker, will_wake);
                let ghost state = cell.state;
                rt.cells.insert(id, cell);
                proof {
                    crate::lemmas::lemma_with_cell(before, id, state);
                    assert(rt@.cells =~= before.with_cell(id, state).cells);
                }
                polled
            },
            None => (Poll::Pending, Some(waker)),
        }
    }

    /// Gives up the handle. The task goes on; its result, if there is one by
    /// now, is handed out to be dropped.
    pub fn detach<F, T, W>(self, rt: &mut Executor<F, T, W>) -> (cell: Option<ShareState<T, W>>)
        requires
            old(rt).wf(),
            old(rt)@.has_handle(self.task()),
        ensures
            final(rt).wf(),
            final(rt)@ == old(rt)@.detached(self.task()).collect(),
            cell == old(rt)@.detached(self.task()).released(self.task()).cell,
    {
        rt.detach(self.task)
    }
}

/// Adds a task with the future `fut` to the executor and queues it. The second
/// component gives the future back if the run queue is poisoned and takes no
/// tasks.
pub fn spawn<F, T, W>(rt: &mut Executor<F, T, W>, fut: F) -> (spawned: (JoinHandle, Option<F>))
    requires
        old(rt).wf(),
        old(rt)@.next < u64::MAX,
    ensures
        final(rt).wf(),
        final(rt)@ == old(rt)@.spawned(fut).collect(),
        !old(rt)@.queue.poisoned ==> final(rt)@ == old(rt)@.spawned(fut),
        spawned.0.task() == old(rt)@.next,
        spawned.1 == (if old(rt)@.queue.poisoned {
            Some(fut)
        } else {
            None
        }),
{
    let ghost before = rt@;
    let id = rt.next;
    let strong: u64 = if rt.queue.is_poisoned() { 0 } else { 1 };
    rt.queue.push(id);
    rt.tasks.insert(id, Task { fut: Some(fut), strong, running: false, wakers: Ghost(0) });
    rt.cells.insert(id, JoinCell { state: ShareState::new(), handle: true });
    rt.next = id + 1;
    proof {
        crate::lemmas::lemma_spawned(before, fut);
        assert(rt@.tasks =~= before.spawned(fut).tasks);
        assert(rt@.cells =~= before.spawned(fut).cells);
        if !before.queue.poisoned {
            crate::lemmas::lemma_valid_if_live(before.spawned(fut), id);
        }
    }
    let released = rt.settle(id);
    (JoinHandle { task: id }, released.fut)
}

/// What the executor thread is to do next.
#[derive(Debug)]
pub enum Action<F, T> {
    /// Poll the task's future with the waker, then report the outcome with
    /// [`Executor::polled`] and drop the waker.
    Poll { task: TaskId, fut: F, waker: RawWaker },
    /// Nothing can run: park until the run queue gets a new entry.
    Park,
    /// The awaited future finished with this value.
    Return(T),
}

/// A thread that runs the executor until one future finishes.
#[derive(Debug)]
pub struct BlockOn {
    main: JoinHandle,
}

impl BlockOn {
    /// The task of the future that is waited for.
    pub closed spec fn task(&self) -> TaskId {
        self.main.task()
    }

    /// The id of the task of the future that is waited for.
    pub fn id(&self) -> (task: TaskId)
        ensures
            task == self.task(),
    {
        self.main.id()
    }

    /// Decides what the executor thread does next. Every task that is ready
    /// runs before the result is looked at.
    pub fn step<F, T, W>(&self, rt: &mut Executor<F, T, W>) -> (action: Action<F, T>)
        requires
            old(rt).wf(),
            old(rt)@.has_handle(self.task()),
        ensures
            final(rt).wf(),
            match action {
                Action::Poll { task, fut, waker } => {
                    &&& old(rt)@.next_task() == Some(task)
                    &&& old(rt)@.tasks[task].fut == Some(fut)
                    &&& waker.task() == task
                    &&& final(rt)@ == old(rt)@.dispatched().collect()
                },
                Action::Return(result) => {
                    &&& old(rt)@.next_task() is None
                    &&& old(rt)@.cells[self.task()].state.result == Some(result)
                    &&& final(rt)@ == old(rt)@.dispatched().collect().claimed(self.task())
                },
                Action::Park => {
                    &&& old(rt)@.next_task() is None
                    &&& old(rt)@.cells[self.task()].state.result is None
                    &&& final(rt)@ == old(rt)@.dispatched().collect()
                },
            },
    {
        let id = self.main.task;
        match rt.dispatch() {
            Some((task, fut, waker)) => Action::Poll { task, fut, waker },
            None => {
                let ghost idle = rt@;
                match rt.cells.remove(&id) {
                    Some(cell) => match cell.state.result {
                        Some(result) => {
                            proof {
                                crate::lemmas::lemma_claimed(idle, id);
                                assert(rt@.cells =~= idle.claimed(id).cells);
                            }
                            Action::Return(result)
                        },
                        None => {
                            rt.cells.insert(id, cell);
                            assert(rt@.cells =~= idle.cells);
                            Action::Park
                        },
                    },
                    None => Action::Park,
                }
            },
        }
    }

    /// Gives up waiting. The future's task goes on.
    pub fn abandon<F, T, W>(self, rt: &mut Executor<F, T, W>) -> (cell: Option<ShareState<T, W>>)
        requires
            old(rt).wf(),
            old(rt)@.has_handle(self.task()),
        ensures
            final(rt).wf(),
            final(rt)@ == old(rt)@.detached(self.task()).collect(),
            cell == old(rt)@.detached(self.task()).released(self.task()).cell,
    {
        self.main.detach(rt)
    }
}

/// Begins to run `fut` to completion on the current thread: its task is queued
/// behind those that are ready already. The thread then does what
/// [`BlockOn::step`] says until it is told to return. The second component
/// gives the future back if the run queue is poisoned and takes no tasks.
pub fn block_on<F, T, W>(rt: &mut Executor<F, T, W>, fut: F) -> (started: (BlockOn, Option<F>))
    requires
        old(rt).wf(),
        old(rt)@.next < u64::MAX,
    ensures
        final(rt).wf(),
        final(rt)@ == old(rt)@.spawned(fut).collect(),
        !old(rt)@.queue.poisoned ==> final(rt)@ == old(rt)@.spawned(fut),
        started.0.task() == old(rt)@.next,
        started.1 == (if old(rt)@.queue.poisoned {
            Some(fut)
        } else {
            None
        }),
{
    let (main, rejected) = spawn(rt, fut);
    (BlockOn { main }, rejected)
}

} // verus!
