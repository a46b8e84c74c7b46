//! What a call comes to, in terms of what it was given and what it returned:
//! the executor, the handles to results, and the run queue.

use crate::executor::{block_on, spawn, Action, BlockOn, Executor, JoinHandle};
use crate::join::{Poll, ShareState};
use crate::laws::Op;
use crate::model::{Model, Outcome, Released};
use crate::queue::{RunQueue, TaskId};
use crate::waker::{get_raw_waker, RawWaker};
use vstd::prelude::*;

verus! {

/// Spawning makes a new task, last on the run queue, with the very future that
/// was given; its handle names it and its cell is empty. A poisoned queue takes
/// no task: the future comes back.
pub proof fn law_spawn_adds_its_future<F, T, W>(
    rt: &mut Executor<F, T, W>,
    fut: F,
    spawned: (JoinHandle, Option<F>),
)
    requires
        old(rt).wf(),
        old(rt)@.next < u64::MAX,
        call_ensures(spawn::<F, T, W>, (rt, fut), spawned),
    ensures
        final(rt).wf(),
        spawned.0.task() == old(rt)@.next,
        spawned.1 is Some <==> old(rt)@.queue.poisoned,
        spawned.1 is Some ==> spawned.1 == Some(fut),
        ({
            let before = old(rt)@;
            let after = final(rt)@;
            let id = spawned.0.task();
            &&& !before.tasks.contains_key(id)
            &&& !before.cells.contains_key(id)
            &&& after.cells.contains_key(id)
            &&& after.cells[id].handle
            &&& after.cells[id].state.result is None
            &&& after.cells[id].state.waker is None
            &&& after.cells.remove(id) == before.cells
            &&& after.queue.notified
            &&& after.queue.poisoned == before.queue.poisoned
            &&& after.next == before.next + 1
            &&& !before.queue.poisoned ==> {
                &&& after.queue.ready == before.queue.ready.push(id)
                &&& after.tasks.contains_key(id)
                &&& after.tasks[id].fut == Some(fut)
                &&& !after.tasks[id].running
                &&& after.tasks[id].wakers == 0
                &&& after.tasks.remove(id) == before.tasks
            }
            &&& before.queue.poisoned ==> {
                &&& after.queue.ready == before.queue.ready
                &&& after.tasks == before.tasks
            }
        }),
{
    lemma_added(old(rt)@, fut);
}

/// Blocking on a future begins as spawning it does.
pub proof fn law_block_on_adds_its_future<F, T, W>(
    rt: &mut Executor<F, T, W>,
    fut: F,
    started: (BlockOn, Option<F>),
)
    requires
        old(rt).wf(),
        old(rt)@.next < u64::MAX,
        call_ensures(block_on::<F, T, W>, (rt, fut), started),
    ensures
        final(rt).wf(),
        started.0.task() == old(rt)@.next,
        started.1 is Some <==> old(rt)@.queue.poisoned,
        started.1 is Some ==> started.1 == Some(fut),
        ({
            let before = old(rt)@;
            let after = final(rt)@;
            let id = started.0.task();
            &&& !before.tasks.contains_key(id)
            &&& !before.cells.contains_key(id)
            &&& after.cells.contains_key(id)
            &&& after.cells[id].handle
            &&& after.cells[id].state.result is None
            &&& after.cells[id].state.waker is None
            &&& after.cells.remove(id) == before.cells
            &&& after.queue.notified
            &&& after.queue.poisoned == before.queue.poisoned
            &&& after.next == before.next + 1
            &&& !before.queue.poisoned ==> {
                &&& after.queue.ready == before.queue.ready.push(id)
                &&& after.tasks.contains_key(id)
                &&& after.tasks[id].fut == Some(fut)
                &&& !after.tasks[id].running
                &&& after.tasks[id].wakers == 0
                &&& after.tasks.remove(id) == before.tasks
            }
            &&& before.queue.poisoned ==> {
                &&& after.queue.ready == before.queue.ready
                &&& after.tasks == before.tasks
            }
        }),
{
    lemma_added(old(rt)@, fut);
}

/// Adding a future.
proof fn lemma_added<F, T, W>(m: Model<F, T, W>, fut: F)
    requires
        m.valid(),
        m.next < u64::MAX,
    ensures
        ({
            let after = m.spawned(fut).collect();
            let id = m.next as TaskId;
            &&& !m.tasks.contains_key(id)
            &&& !m.cells.contains_key(id)
            &&& after.cells.contains_key(id)
            &&& after.cells[id].handle
            &&& after.cells[id].state.result is None
            &&& after.cells[id].state.waker is None
            &&& after.cells.remove(id) == m.cells
            &&& after.queue.notified
            &&& after.queue.poisoned == m.queue.poisoned
            &&& after.next == m.next + 1
            &&& !m.queue.poisoned ==> {
                &&& after.queue.ready == m.queue.ready.push(id)
                &&& after.tasks.contains_key(id)
                &&& after.tasks[id].fut == Some(fut)
                &&& !after.tasks[id].running
                &&& after.tasks[id].wakers == 0
                &&& after.tasks.remove(id) == m.tasks
            }
            &&& m.queue.poisoned ==> {
                &&& after.queue.ready == m.queue.ready
                &&& after.tasks == m.tasks
            }
        }),
{
    let id = m.next as TaskId;
    let after = m.after(Op::Spawn(fut));
    if m.queue.poisoned {
        crate::laws::law_spawn_on_a_poisoned_queue(m, fut);
    } else {
        crate::laws::law_spawn_queues_the_future(m, fut);
        assert(after.tasks.remove(id) =~= m.tasks) by {
            assert(!m.tasks.contains_key(id));
        }
    }
    assert(!m.tasks.contains_key(id));
    assert(!m.cells.contains_key(id));
    assert(after.cells.remove(id) =~= m.cells) by {
        assert forall|j: TaskId| j != id implies after.cells.contains_key(j)
            == m.cells.contains_key(j) && (m.cells.contains_key(j) ==> after.cells[j]
            == m.cells[j]) by {
            crate::laws::law_others_are_untouched(m, Op::Spawn(fut), j);
        }
    }
}

/// A new executor has no task, no result and nothing on its run queue.
pub proof fn law_new_executor_is_empty<F, T, W>(rt: Executor<F, T, W>)
    requires
        call_ensures(Executor::<F, T, W>::new, (), rt),
    ensures
        rt.wf(),
        rt@.queue.ready.len() == 0,
        !rt@.queue.poisoned,
        !rt@.queue.notified,
        rt@.tasks == Map::<TaskId, crate::model::TaskModel<F>>::empty(),
        rt@.cells == Map::<TaskId, crate::model::JoinCell<T, W>>::empty(),
        rt@.next == 0,
{
}

/// Another task can be spawned exactly if there is an id left for it.
pub proof fn law_ids_run_out<F, T, W>(rt: &Executor<F, T, W>, can: bool)
    requires
        call_ensures(Executor::<F, T, W>::can_spawn, (rt,), can),
    ensures
        can <==> rt@.next < u64::MAX,
{
}

/// Waking by reference puts the task at the back of the run queue, unless the
/// queue is poisoned, asks for the executor thread to be woken, and touches no
/// task and no result.
pub proof fn law_waking_by_reference_queues<F, T, W>(
    rt: &mut Executor<F, T, W>,
    waker: &RawWaker,
)
    requires
        old(rt).wf(),
        old(rt)@.has_waker(waker.task()),
        old(rt)@.strong(waker.task()) < u64::MAX,
        call_ensures(Executor::<F, T, W>::wake_by_ref, (rt, waker), ()),
    ensures
        final(rt).wf(),
        final(rt)@.queue.notified,
        final(rt)@.queue.poisoned == old(rt)@.queue.poisoned,
        final(rt)@.queue.ready == if old(rt)@.queue.poisoned {
            old(rt)@.queue.ready
        } else {
            old(rt)@.queue.ready.push(waker.task())
        },
        final(rt)@.tasks == old(rt)@.tasks,
        final(rt)@.cells == old(rt)@.cells,
        final(rt)@.next == old(rt)@.next,
{
    crate::laws::law_wake_only_queues(old(rt)@, Op::WakeByRef(waker.task()), waker.task());
}

/// Waking with a waker gives the waker up and puts the task at the back of the
/// run queue; nothing is let go of. Its future, its poll, the other tasks and
/// all results stay.
pub proof fn law_waking_passes_the_reference_on<F, T, W>(
    rt: &mut Executor<F, T, W>,
    waker: RawWaker,
    released: Released<F, T, W>,
)
    requires
        old(rt).wf(),
        old(rt)@.has_waker(waker.task()),
        !old(rt)@.queue.poisoned,
        call_ensures(Executor::<F, T, W>::wake, (rt, waker), released),
    ensures
        final(rt).wf(),
        released.fut is None,
        released.cell is None,
        ({
            let before = old(rt)@;
            let after = final(rt)@;
            let id = waker.task();
            &&& after.queue.notified
            &&& !after.queue.poisoned
            &&& after.queue.ready == before.queue.ready.push(id)
            &&& after.tasks.contains_key(id)
            &&& after.tasks[id].wakers == before.tasks[id].wakers - 1
            &&& after.tasks[id].fut == before.tasks[id].fut
            &&& after.tasks[id].running == before.tasks[id].running
            &&& after.tasks.remove(id) == before.tasks.remove(id)
            &&& after.cells == before.cells
            &&& after.next == before.next
        }),
{
    let m = old(rt)@;
    let op = Op::Wake(waker.task());
    crate::laws::law_wake_only_queues(m, op, waker.task());
    lemma_other_tasks(m, op, waker.task());
}

/// An operation leaves all tasks and results alone that it does not name.
proof fn lemma_other_tasks<F, T, W>(m: Model<F, T, W>, op: Op<F, T, W>, id: TaskId)
    requires
        m.valid(),
        m.allows(op),
        op !is Dispatch,
        op !is Spawn,
        forall|j: TaskId| j != id ==> !#[trigger] crate::laws::concerns(m, op, j),
    ensures
        m.after(op).tasks.remove(id) == m.tasks.remove(id),
        m.after(op).cells.remove(id) == m.cells.remove(id),
{
    let after = m.after(op);
    assert forall|j: TaskId| j != id implies #[trigger] after.tasks.contains_key(j)
        == m.tasks.contains_key(j) && (m.tasks.contains_key(j) ==> after.tasks[j]
        == m.tasks[j]) by {
        assert(!crate::laws::concerns(m, op, j));
        crate::laws::law_others_are_untouched(m, op, j);
    }
    assert forall|j: TaskId| j != id implies #[trigger] after.cells.contains_key(j)
        == m.cells.contains_key(j) && (m.cells.contains_key(j) ==> after.cells[j]
        == m.cells[j]) by {
        assert(!crate::laws::concerns(m, op, j));
        crate::laws::law_others_are_untouched(m, op, j);
    }
    assert(after.tasks.remove(id) =~= m.tasks.remove(id));
    assert(after.cells.remove(id) =~= m.cells.remove(id));
}

/// Dropping a waker, or waking with it on a poisoned queue, gives one reference
/// up. The task goes if that was the last, and its future is handed out, with
/// its cell if nobody can claim that; otherwise nothing is let go of.
pub proof fn law_dropping_the_last_reference<F, T, W>(
    rt: &mut Executor<F, T, W>,
    waker: RawWaker,
    released: Released<F, T, W>,
)
    requires
        old(rt).wf(),
        old(rt)@.has_waker(waker.task()),
        call_ensures(Executor::<F, T, W>::drop_waker, (rt, waker), released) || (
        old(rt)@.queue.poisoned && call_ensures(
            Executor::<F, T, W>::wake,
            (rt, waker),
            released,
        )),
    ensures
        final(rt).wf(),
        ({
            let before = old(rt)@;
            let after = final(rt)@;
            let id = waker.task();
            let kept = before.queue.ready.contains(id) || before.tasks[id].wakers > 1
                || before.tasks[id].running;
            &&& after.queue.ready == before.queue.ready
            &&& after.queue.poisoned == before.queue.poisoned
            &&& after.next == before.next
            &&& after.tasks.contains_key(id) <==> kept
            &&& after.tasks.remove(id) == before.tasks.remove(id)
            &&& after.cells.remove(id) == before.cells.remove(id)
            &&& kept ==> {
                &&& after.tasks[id].wakers == before.tasks[id].wakers - 1
                &&& after.tasks[id].fut == before.tasks[id].fut
                &&& after.tasks[id].running == before.tasks[id].running
                &&& after.cells == before.cells
                &&& released.fut is None
                &&& released.cell is None
            }
            &&& !kept ==> {
                &&& released.fut == before.tasks[id].fut
                &&& after.cells.contains_key(id) <==> before.has_handle(id)
                &&& before.has_handle(id) ==> after.cells == before.cells
                &&& released.cell is Some <==> before.cells.contains_key(id)
                    && !before.cells[id].handle
                &&& released.cell is Some ==> released.cell == Some(before.cells[id].state)
            }
        }),
{
    let m = old(rt)@;
    let id = waker.task();
    if call_ensures(Executor::<F, T, W>::drop_waker, (rt, waker), released) {
        crate::laws::law_last_reference_drops_the_task(m, Op::DropWaker(id), id);
        lemma_other_tasks(m, Op::DropWaker(id), id);
    } else {
        crate::laws::law_wake_only_queues(m, Op::Wake(id), id);
        crate::laws::law_last_reference_drops_the_task(m, Op::Wake(id), id);
        lemma_other_tasks(m, Op::Wake(id), id);
    }
    if m.has_handle(id) {
        assert(final(rt)@.cells =~= m.cells);
    }
}

/// Dropping a waker leaves the run queue alone; waking with one always asks for
/// the executor thread to be woken.
pub proof fn law_only_waking_asks_for_an_unpark<F, T, W>(
    rt: &mut Executor<F, T, W>,
    waker: RawWaker,
    released: Released<F, T, W>,
)
    requires
        old(rt).wf(),
        old(rt)@.has_waker(waker.task()),
    ensures
        call_ensures(Executor::<F, T, W>::drop_waker, (rt, waker), released) ==> final(rt)@.queue
            == old(rt)@.queue,
        call_ensures(Executor::<F, T, W>::wake, (rt, waker), released)
            ==> final(rt)@.queue.notified,
{
    let m = old(rt)@;
    let id = waker.task();
    crate::laws::law_last_reference_drops_the_task(m, Op::DropWaker(id), id);
    crate::laws::law_wake_only_queues(m, Op::Wake(id), id);
}

/// The clone of a waker wakes the same task, which has one waker more; nothing
/// else changes.
pub proof fn law_clone_wakes_the_same_task<F, T, W>(
    rt: &mut Executor<F, T, W>,
    waker: &RawWaker,
    second: RawWaker,
    same: bool,
)
    requires
        old(rt).wf(),
        old(rt)@.has_waker(waker.task()),
        old(rt)@.strong(waker.task()) < u64::MAX,
        call_ensures(Executor::<F, T, W>::clone_waker, (rt, waker), second),
        call_ensures(RawWaker::will_wake, (waker, &second), same),
    ensures
        final(rt).wf(),
        same,
        second.task() == waker.task(),
        ({
            let before = old(rt)@;
            let after = final(rt)@;
            let id = waker.task();
            &&& after.tasks.contains_key(id)
            &&& after.tasks[id].wakers == before.tasks[id].wakers + 1
            &&& after.tasks[id].fut == before.tasks[id].fut
            &&& after.tasks[id].running == before.tasks[id].running
            &&& after.tasks.remove(id) == before.tasks.remove(id)
            &&& after.queue == before.queue
            &&& after.cells == before.cells
            &&& after.next == before.next
        }),
{
    let m = old(rt)@;
    crate::laws::law_clone_adds_a_waker(m, waker.task());
    lemma_other_tasks(m, Op::CloneWaker(waker.task()), waker.task());
}

/// A waker made for a task names it, and two wakers wake the same task exactly
/// if they name the same.
pub proof fn law_wakers_name_their_task(
    a: TaskId,
    b: TaskId,
    first: RawWaker,
    second: RawWaker,
    id: TaskId,
    same: bool,
)
    requires
        call_ensures(get_raw_waker, (a,), first),
        call_ensures(get_raw_waker, (b,), second),
        call_ensures(RawWaker::data, (&first,), id),
        call_ensures(RawWaker::will_wake, (&first, &second), same),
    ensures
        id == a,
        first.task() == a,
        same <==> a == b,
{
}

/// The count of a task's references is its wakers and the entries of the run
/// queue that name it.
pub proof fn law_count_is_of_wakers_and_entries<F, T, W>(
    rt: &Executor<F, T, W>,
    waker: &RawWaker,
    count: u64,
)
    requires
        rt.wf(),
        rt@.has_waker(waker.task()),
        call_ensures(Executor::<F, T, W>::strong_count, (rt, waker), count),
    ensures
        count == rt@.tasks[waker.task()].wakers + rt@.queue.ready.filter(
            |j: TaskId| j == waker.task(),
        ).len(),
{
    crate::state_laws::law_every_reference_is_counted(rt@, waker.task());
}

/// The request to unpark is given out once; nothing else changes.
pub proof fn law_request_is_taken_once<F, T, W>(rt: &mut Executor<F, T, W>, unpark: bool)
    requires
        old(rt).wf(),
        call_ensures(Executor::<F, T, W>::take_unpark, (rt,), unpark),
    ensures
        final(rt).wf(),
        unpark == old(rt)@.queue.notified,
        !final(rt)@.queue.notified,
        final(rt)@.queue.poisoned == old(rt)@.queue.poisoned,
        final(rt)@.queue.ready == old(rt)@.queue.ready,
        final(rt)@.tasks == old(rt)@.tasks,
        final(rt)@.cells == old(rt)@.cells,
        final(rt)@.next == old(rt)@.next,
{
}

/// A poisoned lock is remembered; entries, tasks and results stay.
pub proof fn law_poison_is_remembered<F, T, W>(rt: &mut Executor<F, T, W>)
    requires
        old(rt).wf(),
        call_ensures(Executor::<F, T, W>::poison, (rt,), ()),
    ensures
        final(rt).wf(),
        final(rt)@.queue.poisoned,
        final(rt)@.queue.notified == old(rt)@.queue.notified,
        final(rt)@.queue.ready == old(rt)@.queue.ready,
        final(rt)@.tasks == old(rt)@.tasks,
        final(rt)@.cells == old(rt)@.cells,
        final(rt)@.next == old(rt)@.next,
{
}

/// A future that is reported pending is put back as it is, and its poll is
/// over. Nobody is woken, and no result changes. Only if nothing refers to the
/// task any more does it come out again.
pub proof fn law_reporting_pending<F, T, W>(
    rt: &mut Executor<F, T, W>,
    id: TaskId,
    fut: F,
    ended: (Option<W>, Released<F, T, W>),
)
    requires
        old(rt).wf(),
        old(rt)@.running(id),
        call_ensures(Executor::<F, T, W>::polled, (rt, id, Outcome::Pending(fut)), ended),
    ensures
        final(rt).wf(),
        ended.0 is None,
        ({
            let before = old(rt)@;
            let after = final(rt)@;
            let kept = before.queue.ready.contains(id) || before.tasks[id].wakers > 0;
            &&& after.tasks.contains_key(id) <==> kept
            &&& kept ==> {
                &&& after.tasks[id].fut == Some(fut)
                &&& !after.tasks[id].running
                &&& after.tasks[id].wakers == before.tasks[id].wakers
                &&& after.cells == before.cells
                &&& ended.1.fut is None
                &&& ended.1.cell is None
            }
            &&& !kept ==> {
                &&& ended.1.fut == Some(fut)
                &&& after.cells.contains_key(id) <==> before.cells[id].handle
                &&& ended.1.cell is Some <==> !before.cells[id].handle
                &&& ended.1.cell is Some ==> ended.1.cell == Some(before.cells[id].state)
            }
            &&& before.has_handle(id) ==> after.cells == before.cells
            &&& after.tasks.remove(id) == before.tasks.remove(id)
            &&& after.cells.remove(id) == before.cells.remove(id)
            &&& after.queue == before.queue
            &&& after.next == before.next
        }),
{
    let m = old(rt)@;
    assert(m.unfinished(id));
    crate::laws::law_pending_future_is_put_back(m, id, fut);
    lemma_other_tasks(m, Op::Polled(id, Outcome::Pending(fut)), id);
}

/// What a future is reported to have finished with is in its cell, or comes out
/// if nobody can claim it; the waker on record comes out to be woken and is no
/// longer on record. The task has no future any more.
pub proof fn law_reporting_ready<F, T, W>(
    rt: &mut Executor<F, T, W>,
    id: TaskId,
    output: T,
    ended: (Option<W>, Released<F, T, W>),
)
    requires
        old(rt).wf(),
        old(rt)@.running(id),
        call_ensures(Executor::<F, T, W>::polled, (rt, id, Outcome::Ready(output)), ended),
    ensures
        final(rt).wf(),
        ended.0 == old(rt)@.cells[id].state.waker,
        ended.1.fut is None,
        ({
            let before = old(rt)@;
            let after = final(rt)@;
            let kept = before.queue.ready.contains(id) || before.tasks[id].wakers > 0;
            &&& before.cells.contains_key(id)
            &&& after.tasks.contains_key(id) <==> kept
            &&& kept ==> {
                &&& after.tasks[id].fut is None
                &&& !after.tasks[id].running
                &&& after.tasks[id].wakers == before.tasks[id].wakers
            }
            &&& after.cells.contains_key(id) <==> before.cells[id].handle
            &&& before.cells[id].handle ==> {
                &&& after.cells[id].handle
                &&& after.cells[id].state.result == Some(output)
                &&& after.cells[id].state.waker is None
                &&& ended.1.cell is None
            }
            &&& !before.cells[id].handle ==> {
                &&& ended.1.cell is Some
                &&& ended.1.cell->0.result == Some(output)
                &&& ended.1.cell->0.waker is None
            }
            &&& after.tasks.remove(id) == before.tasks.remove(id)
            &&& after.cells.remove(id) == before.cells.remove(id)
            &&& after.queue == before.queue
            &&& after.next == before.next
        }),
{
    let m = old(rt)@;
    assert(m.unfinished(id));
    crate::laws::law_result_goes_to_the_cell(m, id, output);
    lemma_other_tasks(m, Op::Polled(id, Outcome::Ready(output)), id);
}

/// A poll that panicked leaves its task without a future and without a result;
/// nobody is woken.
pub proof fn law_reporting_a_panic<F, T, W>(
    rt: &mut Executor<F, T, W>,
    id: TaskId,
    ended: (Option<W>, Released<F, T, W>),
)
    requires
        old(rt).wf(),
        old(rt)@.running(id),
        call_ensures(Executor::<F, T, W>::polled, (rt, id, Outcome::Unwound), ended),
    ensures
        final(rt).wf(),
        ended.0 is None,
        ended.1.fut is None,
        ({
            let before = old(rt)@;
            let after = final(rt)@;
            let kept = before.queue.ready.contains(id) || before.tasks[id].wakers > 0;
            &&& before.cells.contains_key(id)
            &&& after.tasks.contains_key(id) <==> kept
            &&& kept ==> {
                &&& after.tasks[id].fut is None
                &&& !after.tasks[id].running
                &&& after.tasks[id].wakers == before.tasks[id].wakers
            }
            &&& after.cells.contains_key(id) <==> before.cells[id].handle
            &&& before.cells[id].handle ==> after.cells == before.cells && ended.1.cell is None
            &&& !before.cells[id].handle ==> ended.1.cell == Some(before.cells[id].state)
            &&& after.tasks.remove(id) == before.tasks.remove(id)
            &&& after.cells.remove(id) == before.cells.remove(id)
            &&& after.queue == before.queue
            &&& after.next == before.next
        }),
{
    let m = old(rt)@;
    assert(m.unfinished(id));
    crate::laws::law_panic_leaves_no_result(m, id);
    lemma_other_tasks(m, Op::Polled(id, Outcome::Unwound), id);
}

/// The handle that a spawn gives out is that of the task it made; what blocks on
/// a future waits for the task that was made for it.
pub proof fn law_handles_name_their_task<F, T, W>(
    rt: &mut Executor<F, T, W>,
    fut: F,
    spawned: (JoinHandle, Option<F>),
    started: (BlockOn, Option<F>),
    id: TaskId,
    main: TaskId,
)
    requires
        old(rt).wf(),
        old(rt)@.next < u64::MAX,
        call_ensures(JoinHandle::id, (&spawned.0,), id),
        call_ensures(BlockOn::id, (&started.0,), main),
    ensures
        call_ensures(spawn::<F, T, W>, (rt, fut), spawned) ==> id == old(rt)@.next,
        call_ensures(block_on::<F, T, W>, (rt, fut), started) ==> main == old(rt)@.next,
{
}

/// A handle that is polled gives the result if it is there, and takes it away;
/// the waker that was offered then comes back. Otherwise a waker is on record
/// afterwards, the one that was there if it is said to wake the same task, and
/// the other comes back. Nothing else changes.
pub proof fn law_polling_a_handle<F, T, W>(
    handle: &mut JoinHandle,
    rt: &mut Executor<F, T, W>,
    waker: W,
    will_wake: bool,
    polled: (Poll<T>, Option<W>),
)
    requires
        old(rt).wf(),
        old(rt)@.has_handle(old(handle).task()),
        call_ensures(JoinHandle::poll_with::<F, T, W>, (handle, rt, waker, will_wake), polled),
    ensures
        *final(handle) == *old(handle),
        final(rt).wf(),
        ({
            let id = old(handle).task();
            let before = old(rt)@;
            let after = final(rt)@;
            let state = before.cells[id].state;
            let keep = state.waker is Some && will_wake;
            &&& after.cells.contains_key(id)
            &&& after.cells[id].handle
            &&& after.cells[id].state.result is None
            &&& state.result is Some ==> {
                &&& polled.0 == Poll::Ready(state.result->0)
                &&& polled.1 == Some(waker)
                &&& after.cells[id].state.waker == state.waker
            }
            &&& state.result is None ==> polled.0 is Pending
            &&& state.result is None && keep ==> {
                &&& after.cells[id].state.waker == state.waker
                &&& polled.1 == Some(waker)
            }
            &&& state.result is None && !keep ==> {
                &&& after.cells[id].state.waker == Some(waker)
                &&& polled.1 == state.waker
            }
            &&& after.cells.remove(id) == before.cells.remove(id)
            &&& after.tasks == before.tasks
            &&& after.queue == before.queue
            &&& after.next == before.next
        }),
{
    let m = old(rt)@;
    crate::laws::law_handle_poll_changes_its_cell(m, old(handle).task(), waker, will_wake);
}

/// A handle that is polled with a way to compare wakers gives the result if it
/// is there, and takes it away. Otherwise a waker is on record afterwards: the
/// one that was there, if the comparison can only say so, or a clone of the one
/// that was offered, if it cannot. Nothing else changes.
pub proof fn law_polling_a_handle_by_comparison<F, T, W: Clone, S: Fn(&W, &W) -> bool>(
    handle: &mut JoinHandle,
    rt: &mut Executor<F, T, W>,
    waker: &W,
    will_wake: S,
    polled: (Poll<T>, Option<W>),
)
    requires
        old(rt).wf(),
        old(rt)@.has_handle(old(handle).task()),
        call_ensures(JoinHandle::poll::<F, T, W, S>, (handle, rt, waker, will_wake), polled),
    ensures
        *final(handle) == *old(handle),
        final(rt).wf(),
        ({
            let id = old(handle).task();
            let before = old(rt)@;
            let after = final(rt)@;
            let state = before.cells[id].state;
            let slot = after.cells[id].state.waker;
            &&& after.cells.contains_key(id)
            &&& after.cells[id].handle
            &&& after.cells[id].state.result is None
            &&& state.result is Some ==> {
                &&& polled.0 == Poll::Ready(state.result->0)
                &&& polled.1 is None
                &&& slot == state.waker
            }
            &&& state.result is None ==> polled.0 is Pending && slot is Some
            &&& state.result is None && (state.waker is None || !call_ensures(
                will_wake,
                (&state.waker->0, waker),
                true,
            )) ==> cloned::<W>(*waker, slot->0) && polled.1 == state.waker
            &&& state.result is None && state.waker is Some && !call_ensures(
                will_wake,
                (&state.waker->0, waker),
                false,
            ) ==> slot == state.waker && polled.1 is None
            &&& after.cells.remove(id) == before.cells.remove(id)
            &&& after.tasks == before.tasks
            &&& after.queue == before.queue
            &&& after.next == before.next
        }),
{
    let m = old(rt)@;
    let id = old(handle).task();
    crate::laws::law_one_cell_changes(m, id, final(rt)@.cells[id].state);
}

/// A waker is needed for a poll exactly if there is no result, and no waker that
/// is said to wake the right task.
pub proof fn law_waker_is_needed_without_a_result<F, T, W, S: Fn(&W) -> bool>(
    handle: &JoinHandle,
    rt: &Executor<F, T, W>,
    will_wake: S,
    needed: bool,
)
    requires
        rt.wf(),
        rt@.has_handle(handle.task()),
        call_ensures(JoinHandle::needs_waker::<F, T, W, S>, (handle, rt, will_wake), needed),
    ensures
        ({
            let state = rt@.cells[handle.task()].state;
            &&& state.result is Some ==> !needed
            &&& state.result is None && state.waker is None ==> needed
            &&& state.result is None && state.waker is Some && needed ==> call_ensures(
                will_wake,
                (&state.waker->0,),
                false,
            )
            &&& state.result is None && state.waker is Some && !needed ==> call_ensures(
                will_wake,
                (&state.waker->0,),
                true,
            )
        }),
{
}

/// Giving up a handle, or the waiting for a future, touches no task. The cell
/// of a task that may still finish stays, without its handle; any other comes
/// out as it was.
pub proof fn law_giving_up_a_handle<F, T, W>(
    handle: JoinHandle,
    main: BlockOn,
    rt: &mut Executor<F, T, W>,
    cell: Option<ShareState<T, W>>,
    id: TaskId,
)
    requires
        old(rt).wf(),
        old(rt)@.has_handle(id),
        (id == handle.task() && call_ensures(
            JoinHandle::detach::<F, T, W>,
            (handle, rt),
            cell,
        )) || (id == main.task() && call_ensures(BlockOn::abandon::<F, T, W>, (main, rt), cell)),
    ensures
        final(rt).wf(),
        ({
            let before = old(rt)@;
            let after = final(rt)@;
            let may_finish = before.tasks.contains_key(id) && (before.tasks[id].fut is Some
                || before.tasks[id].running);
            &&& after.cells.contains_key(id) <==> may_finish
            &&& may_finish ==> {
                &&& !after.cells[id].handle
                &&& after.cells[id].state == before.cells[id].state
                &&& cell is None
            }
            &&& !may_finish ==> cell == Some(before.cells[id].state)
            &&& after.cells.remove(id) == before.cells.remove(id)
            &&& after.tasks == before.tasks
            &&& after.queue == before.queue
            &&& after.next == before.next
        }),
{
    crate::laws::law_detach_gives_up_the_handle(old(rt)@, id);
}

/// A step polls exactly if the run queue, not being poisoned, has an entry whose
/// task has a future. The first such is polled, with that very future and a
/// waker of its own; the entries up to it are used up, and the others stay in
/// order. No result changes.
pub proof fn law_step_polls_the_first_future<F, T, W>(
    main: &BlockOn,
    rt: &mut Executor<F, T, W>,
    action: Action<F, T>,
    k: int,
)
    requires
        old(rt).wf(),
        old(rt)@.has_handle(main.task()),
        call_ensures(BlockOn::step::<F, T, W>, (main, rt), action),
        !old(rt)@.queue.poisoned,
        0 <= k < old(rt)@.queue.ready.len(),
        old(rt)@.tasks[old(rt)@.queue.ready[k]].fut is Some,
        forall|i: int|
            0 <= i < k ==> old(rt)@.tasks[#[trigger] old(rt)@.queue.ready[i]].fut is None,
    ensures
        final(rt).wf(),
        ({
            let before = old(rt)@;
            let after = final(rt)@;
            let id = before.queue.ready[k];
            &&& action is Poll
            &&& action->task == id
            &&& Some(action->fut) == before.tasks[id].fut
            &&& action->waker.task() == id
            &&& after.queue.ready == before.queue.ready.skip(k + 1)
            &&& after.queue.notified == before.queue.notified
            &&& !after.queue.poisoned
            &&& after.tasks.contains_key(id)
            &&& after.tasks[id].running
            &&& after.tasks[id].fut is None
            &&& after.tasks[id].wakers == before.tasks[id].wakers + 1
            &&& forall|j: TaskId|
                j != id ==> (#[trigger] after.tasks.contains_key(j) <==> before.tasks.contains_key(
                    j,
                ) && (after.queue.ready.contains(j) || before.tasks[j].wakers > 0
                    || before.tasks[j].running))
            &&& forall|j: TaskId|
                j != id && #[trigger] after.tasks.contains_key(j) ==> after.tasks[j]
                    == before.tasks[j]
            &&& after.cells == before.cells
            &&& after.next == before.next
        }),
{
    let m = old(rt)@;
    crate::laws::law_dispatch_takes_the_first_future(m, k);
    assert(final(rt)@.queue.ready =~= m.queue.ready.skip(k + 1));
}

/// A step that finds nothing to poll returns the result of the awaited task
/// exactly if it is there, and its cell is gone with it; otherwise it parks. The
/// entries of a queue in order are used up; a poisoned queue stays as it is.
pub proof fn law_step_returns_or_parks<F, T, W>(
    main: &BlockOn,
    rt: &mut Executor<F, T, W>,
    action: Action<F, T>,
)
    requires
        old(rt).wf(),
        old(rt)@.has_handle(main.task()),
        call_ensures(BlockOn::step::<F, T, W>, (main, rt), action),
        old(rt)@.queue.poisoned || forall|i: int|
            0 <= i < old(rt)@.queue.ready.len()
                ==> old(rt)@.tasks[#[trigger] old(rt)@.queue.ready[i]].fut is None,
    ensures
        final(rt).wf(),
        ({
            let before = old(rt)@;
            let after = final(rt)@;
            let id = main.task();
            let state = before.cells[id].state;
            &&& state.result is Some ==> {
                &&& action is Return
                &&& Some(action->Return_0) == state.result
                &&& after.cells == before.cells.remove(id)
            }
            &&& state.result is None ==> action is Park && after.cells == before.cells
            &&& before.queue.poisoned ==> after.queue == before.queue && after.tasks == before.tasks
            &&& !before.queue.poisoned ==> {
                &&& after.queue.ready.len() == 0
                &&& !after.queue.poisoned
                &&& after.queue.notified == before.queue.notified
            }
            &&& forall|j: TaskId| #[trigger]
                after.tasks.contains_key(j) ==> before.tasks.contains_key(j) && after.tasks[j]
                    == before.tasks[j]
            &&& forall|j: TaskId| #[trigger]
                before.tasks.contains_key(j) && (before.tasks[j].wakers > 0
                    || before.tasks[j].running) ==> after.tasks.contains_key(j)
            &&& after.next == before.next
        }),
{
    crate::laws::law_dispatch_finds_nothing(old(rt)@);
}

/// What is pushed on an empty queue, and then on the queue with one entry, comes
/// out first and second.
pub proof fn law_queue_is_first_in_first_out(
    q: RunQueue,
    first: &mut RunQueue,
    second: &mut RunQueue,
    third: &mut RunQueue,
    fourth: &mut RunQueue,
    a: TaskId,
    b: TaskId,
    x: Option<TaskId>,
    y: Option<TaskId>,
)
    requires
        call_ensures(RunQueue::new, (), q),
        q == *old(first),
        call_ensures(RunQueue::push, (first, a), ()),
        *final(first) == *old(second),
        call_ensures(RunQueue::push, (second, b), ()),
        *final(second) == *old(third),
        call_ensures(RunQueue::pop, (third,), x),
        *final(third) == *old(fourth),
        call_ensures(RunQueue::pop, (fourth,), y),
    ensures
        x == Some(a),
        y == Some(b),
        final(fourth)@.ready.len() == 0,
{
}

/// A push puts its task behind the others, and asks for an unpark; a poisoned
/// queue takes no task, but asks all the same.
pub proof fn law_push_goes_to_the_back(q: &mut RunQueue, task: TaskId)
    requires
        call_ensures(RunQueue::push, (q, task), ()),
    ensures
        final(q)@.notified,
        final(q)@.poisoned == old(q)@.poisoned,
        old(q)@.poisoned ==> final(q)@.ready == old(q)@.ready,
        !old(q)@.poisoned ==> {
            &&& final(q)@.ready.len() == old(q)@.ready.len() + 1
            &&& final(q)@.ready.last() == task
            &&& final(q)@.ready.drop_last() == old(q)@.ready
        },
{
    crate::state_laws::law_push_adds_behind(old(q)@, task);
}

/// A pop takes the entry that has waited longest, if there is one and the queue
/// is not poisoned; otherwise nothing changes.
pub proof fn law_pop_takes_from_the_front(q: &mut RunQueue, task: Option<TaskId>)
    requires
        call_ensures(RunQueue::pop, (q,), task),
    ensures
        task is Some <==> !old(q)@.poisoned && old(q)@.ready.len() > 0,
        task is Some ==> old(q)@.ready == seq![task->0] + final(q)@.ready,
        task is None ==> final(q)@.ready == old(q)@.ready,
        final(q)@.poisoned == old(q)@.poisoned,
        final(q)@.notified == old(q)@.notified,
{
    if task is Some {
        assert(old(q)@.ready =~= seq![task->0] + final(q)@.ready);
    }
}

/// The marks on a queue are set and read apart from its entries.
pub proof fn law_marks_of_a_queue(
    q: &mut RunQueue,
    fresh: RunQueue,
    poisoned: bool,
    unpark: bool,
)
    ensures
        call_ensures(RunQueue::new, (), fresh) ==> fresh@.ready.len() == 0 && !fresh@.poisoned
            && !fresh@.notified,
        call_ensures(RunQueue::is_poisoned, (&fresh,), poisoned) ==> poisoned == fresh@.poisoned,
        call_ensures(RunQueue::poison, (q,), ()) ==> {
            &&& final(q)@.poisoned
            &&& final(q)@.ready == old(q)@.ready
            &&& final(q)@.notified == old(q)@.notified
        },
        call_ensures(RunQueue::take_unpark, (q,), unpark) ==> {
            &&& unpark == old(q)@.notified
            &&& !final(q)@.notified
            &&& final(q)@.ready == old(q)@.ready
            &&& final(q)@.poisoned == old(q)@.poisoned
        },
{
}

/// What is stored as the result is what the next poll takes, once; the waker on
/// record comes out when it is stored.
pub proof fn law_stored_result_is_polled<T, W>(
    fresh: ShareState<T, W>,
    done: &mut ShareState<T, W>,
    taken: &mut ShareState<T, W>,
    again: &mut ShareState<T, W>,
    output: T,
    woken: Option<W>,
    waker: W,
    other: W,
    will_wake: bool,
    first: (Poll<T>, Option<W>),
    second: (Poll<T>, Option<W>),
)
    requires
        call_ensures(ShareState::<T, W>::new, (), fresh),
        call_ensures(ShareState::<T, W>::complete, (done, output), woken),
        *final(done) == *old(taken),
        call_ensures(ShareState::<T, W>::poll_with, (taken, waker, will_wake), first),
        *final(taken) == *old(again),
        call_ensures(ShareState::<T, W>::poll_with, (again, other, will_wake), second),
    ensures
        fresh.result is None,
        fresh.waker is None,
        woken == old(done).waker,
        first.0 == Poll::Ready(output),
        first.1 == Some(waker),
        second.0 is Pending,
        final(again).waker == Some(other),
        second.1 is None,
{
}

/// Without a result, a poll leaves a waker on record, the one that was there if
/// it is said to wake the same task, and hands the other out.
pub proof fn law_poll_keeps_one_waker<T, W>(
    state: &mut ShareState<T, W>,
    waker: W,
    will_wake: bool,
    polled: (Poll<T>, Option<W>),
)
    requires
        old(state).result is None,
        call_ensures(ShareState::<T, W>::poll_with, (state, waker, will_wake), polled),
    ensures
        polled.0 is Pending,
        final(state).result is None,
        old(state).waker is Some && will_wake ==> final(state).waker == old(state).waker
            && polled.1 == Some(waker),
        !(old(state).waker is Some && will_wake) ==> final(state).waker == Some(waker) && polled.1
            == old(state).waker,
{
}

/// A poll that compares wakers takes a result that is there and leaves the waker
/// on record. Without a result a waker is on record afterwards: the one that was
/// there, if the comparison can only say so, or a clone of the one that was
/// offered, if it cannot.
pub proof fn law_poll_by_comparison<T, W: Clone, S: Fn(&W, &W) -> bool>(
    state: &mut ShareState<T, W>,
    waker: &W,
    will_wake: S,
    polled: (Poll<T>, Option<W>),
)
    requires
        call_ensures(ShareState::<T, W>::poll::<S>, (state, waker, will_wake), polled),
    ensures
        final(state).result is None,
        old(state).result is Some ==> {
            &&& polled.0 == Poll::Ready(old(state).result->0)
            &&& polled.1 is None
            &&& final(state).waker == old(state).waker
        },
        old(state).result is None ==> polled.0 is Pending && final(state).waker is Some,
        old(state).result is None && (old(state).waker is None || !call_ensures(
            will_wake,
            (&old(state).waker->0, waker),
            true,
        )) ==> cloned::<W>(*waker, final(state).waker->0) && polled.1 == old(state).waker,
        old(state).result is None && old(state).waker is Some && !call_ensures(
            will_wake,
            (&old(state).waker->0, waker),
            false,
        ) ==> final(state).waker == old(state).waker && polled.1 is None,
{
}

/// Putting a waker on record leaves one of the two there and hands the other
/// out: the one that was there stays if it is said to wake the same task.
pub proof fn law_register_keeps_one<W>(
    slot: &mut Option<W>,
    waker: W,
    will_wake: bool,
    unused: Option<W>,
)
    requires
        call_ensures(crate::join::register::<W>, (slot, waker, will_wake), unused),
    ensures
        *old(slot) is Some && will_wake ==> *final(slot) == *old(slot) && unused == Some(waker),
        !(*old(slot) is Some && will_wake) ==> *final(slot) == Some(waker) && unused == *old(slot),
{
}

/// A waker is needed exactly if there is none that is said to wake the right
/// task.
pub proof fn law_waker_is_needed_unless_known<W, S: Fn(&W) -> bool>(
    slot: &Option<W>,
    will_wake: S,
    needed: bool,
)
    requires
        call_ensures(crate::join::needs_waker::<W, S>, (slot, will_wake), needed),
    ensures
        *slot is None ==> needed,
        *slot is Some && needed ==> call_ensures(will_wake, (&slot->0,), false),
        *slot is Some && !needed ==> call_ensures(will_wake, (&slot->0,), true),
{
}

/// Putting a clone on record keeps the waker that was there if the comparison
/// can only say that it wakes the same task, and puts a clone in its place if it
/// can only say that it does not.
pub proof fn law_register_by_comparison<W: Clone, S: Fn(&W, &W) -> bool>(
    slot: &mut Option<W>,
    waker: &W,
    will_wake: S,
    unused: Option<W>,
)
    requires
        call_ensures(crate::join::register_clone::<W, S>, (slot, waker, will_wake), unused),
    ensures
        *final(slot) is Some,
        *old(slot) is None || !call_ensures(will_wake, (&old(slot)->0, waker), true)
            ==> cloned::<W>(*waker, final(slot)->0) && unused == *old(slot),
        *old(slot) is Some && !call_ensures(will_wake, (&old(slot)->0, waker), false)
            ==> *final(slot) == *old(slot) && unused is None,
{
}

} // verus!
