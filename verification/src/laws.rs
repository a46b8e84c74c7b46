//! What holds of an executor over any number of operations, in any order.

use crate::join::ShareState;
use crate::model::{Model, Outcome};
use crate::queue::{QueueModel, TaskId};
use crate::waker::RawWaker;
use vstd::prelude::*;

verus! {

/// An operation on an executor.
pub enum Op<F, T, W> {
    /// [`spawn`](crate::spawn) or [`block_on`](crate::block_on).
    Spawn(F),
    /// [`Executor::wake_by_ref`](crate::Executor::wake_by_ref).
    WakeByRef(TaskId),
    /// [`Executor::wake`](crate::Executor::wake).
    Wake(TaskId),
    /// [`Executor::clone_waker`](crate::Executor::clone_waker).
    CloneWaker(TaskId),
    /// [`Executor::drop_waker`](crate::Executor::drop_waker).
    DropWaker(TaskId),
    /// [`BlockOn::step`](crate::BlockOn::step), as far as it goes through the
    /// run queue.
    Dispatch,
    /// [`BlockOn::step`](crate::BlockOn::step) when it returns the result.
    Claim(TaskId),
    /// [`Executor::polled`](crate::Executor::polled).
    Polled(TaskId, Outcome<F, T>),
    /// [`JoinHandle::poll`](crate::JoinHandle::poll).
    JoinPoll(TaskId, W, bool),
    /// [`JoinHandle::detach`](crate::JoinHandle::detach) or
    /// [`BlockOn::abandon`](crate::BlockOn::abandon).
    Detach(TaskId),
    /// [`Executor::poison`](crate::Executor::poison).
    Poison,
    /// [`Executor::take_unpark`](crate::Executor::take_unpark).
    TakeUnpark,
}

impl<F, T, W> Model<F, T, W> {
    /// Whether the operation may be performed.
    pub open spec fn allows(self, op: Op<F, T, W>) -> bool {
        match op {
            Op::Spawn(_) => self.next < u64::MAX,
            Op::WakeByRef(id) | Op::CloneWaker(id) => self.has_waker(id) && self.strong(id)
                < u64::MAX,
            Op::Wake(id) | Op::DropWaker(id) => self.has_waker(id),
            Op::Claim(id) => self.has_handle(id) && self.cells[id].state.result is Some,
            Op::Polled(id, _) => self.running(id),
            Op::JoinPoll(id, _, _) | Op::Detach(id) => self.has_handle(id),
            Op::Dispatch | Op::Poison | Op::TakeUnpark => true,
        }
    }

    /// The executor after the operation.
    pub open spec fn after(self, op: Op<F, T, W>) -> Self {
        match op {
            Op::Spawn(fut) => self.spawned(fut).collect(),
            Op::WakeByRef(id) => self.woken_by_ref(id),
            Op::Wake(id) => self.waker_removed(id).woken_by_ref(id).collect(),
            Op::CloneWaker(id) => self.waker_added(id),
            Op::DropWaker(id) => self.waker_removed(id).collect(),
            Op::Dispatch => self.dispatched().collect(),
            Op::Claim(id) => self.claimed(id),
            Op::Polled(id, outcome) => self.polled(id, outcome).collect(),
            Op::JoinPoll(id, waker, will_wake) => self.join_polled(id, waker, will_wake),
            Op::Detach(id) => self.detached(id).collect(),
            Op::Poison => Model { queue: QueueModel { poisoned: true, ..self.queue }, ..self },
            Op::TakeUnpark => Model { queue: QueueModel { notified: false, ..self.queue }, ..self },
        }
    }

    /// Whether the operations may be performed one after the other.
    pub open spec fn allows_all(self, ops: Seq<Op<F, T, W>>) -> bool
        decreases ops.len(),
    {
        ops.len() == 0 || (self.allows(ops[0]) && self.after(ops[0]).allows_all(ops.drop_first()))
    }

    /// The executor after the operations.
    pub open spec fn after_all(self, ops: Seq<Op<F, T, W>>) -> Self
        decreases ops.len(),
    {
        if ops.len() == 0 {
            self
        } else {
            self.after(ops[0]).after_all(ops.drop_first())
        }
    }
}

/// The executor after it went through the run queue from `rest` on.
spec fn dispatched_from<F, T, W>(m: Model<F, T, W>, rest: Seq<TaskId>) -> Model<F, T, W> {
    let at = m.stale(rest) as int;
    if at < rest.len() {
        m.taken(rest[at]).with_ready(rest.skip(at + 1)).collect()
    } else {
        m.with_ready(Seq::empty()).collect()
    }
}

/// Going through the run queue from `rest` on: the invariant holds, no cell
/// changes, no unfinished task is lost, and only the task that is dispatched
/// changes.
proof fn lemma_dispatch_from<F, T, W>(m: Model<F, T, W>, rest: Seq<TaskId>)
    requires
        m.with_ready(rest).collect().valid(),
    ensures
        m.stale(rest) <= rest.len(),
        m.stale(rest) < rest.len() ==> m.with_ready(rest).collect().runnable(
            rest[m.stale(rest) as int],
        ),
        dispatched_from(m, rest).valid(),
        dispatched_from(m, rest).cells == m.with_ready(rest).collect().cells,
        forall|j: TaskId| #[trigger]
            dispatched_from(m, rest).unfinished(j) == m.with_ready(rest).collect().unfinished(j),
        forall|j: TaskId| #[trigger]
            dispatched_from(m, rest).tasks.contains_key(j) ==> m.with_ready(
                rest,
            ).collect().tasks.contains_key(j) && (dispatched_from(m, rest).tasks[j] == m.tasks[j]
                || (m.stale(rest) < rest.len() && j == rest[m.stale(rest) as int])),
        forall|j: TaskId|
            m.with_ready(rest).collect().has_waker(j) ==> #[trigger] dispatched_from(
                m,
                rest,
            ).has_waker(j),
    decreases rest.len(),
{
    let here = m.with_ready(rest).collect();
    let end = dispatched_from(m, rest);
    if rest.len() == 0 {
        assert(rest =~= Seq::empty());
    } else {
        let id = rest[0];
        assert(here.queue.ready[0] == id);
        assert(here.tasks.contains_key(id));
        assert(here.tasks[id] == m.tasks[id]);
        let short = rest.drop_first();
        if here.runnable(id) {
            crate::lemmas::lemma_take_future(m, rest);
            assert(rest.skip(1) =~= short);
            assert(end == here.taken(id).with_ready(short));
            assert forall|j: TaskId| #[trigger] end.unfinished(j) == here.unfinished(j) by {}
        } else {
            crate::lemmas::lemma_pop(here);
            crate::lemmas::lemma_collect_one(here.with_ready(short), id);
            crate::lemmas::lemma_collect_twice(m, rest);
            let next = m.with_ready(short).collect();
            assert(next.cells =~= here.cells) by {
                assert(here.cells.contains_key(id) ==> here.cells[id].handle || here.unfinished(id));
            }
            assert forall|j: TaskId| #[trigger] next.unfinished(j) == here.unfinished(j) by {}
            lemma_dispatch_from(m, short);
            let at = m.stale(short) as int;
            assert(m.stale(rest) == at + 1);
            if at < short.len() {
                assert(rest.skip(at + 2) =~= short.skip(at + 1));
            }
            assert(end == dispatched_from(m, short));
            assert forall|j: TaskId| here.has_waker(j) implies #[trigger] end.has_waker(j) by {
                assert(next.has_waker(j));
            }
        }
    }
}

/// What a dispatch does and leaves alone.
proof fn lemma_dispatched<F, T, W>(m: Model<F, T, W>)
    requires
        m.valid(),
    ensures
        m.after(Op::Dispatch).valid(),
        m.after(Op::Dispatch).queue == m.dispatched().queue,
        m.after(Op::Dispatch).next == m.next,
        m.after(Op::Dispatch).cells == m.cells,
        forall|j: TaskId| #[trigger] m.after(Op::Dispatch).unfinished(j) == m.unfinished(j),
        forall|j: TaskId| #[trigger]
            m.after(Op::Dispatch).tasks.contains_key(j) ==> m.tasks.contains_key(j) && (m.after(
                Op::Dispatch,
            ).tasks[j] == m.tasks[j] || Some(j) == m.next_task()),
        forall|j: TaskId| m.has_waker(j) ==> #[trigger] m.after(Op::Dispatch).has_waker(j),
        m.stale(m.queue.ready) <= m.queue.ready.len(),
        m.next_task() matches Some(id) ==> m.runnable(id) && m.after(Op::Dispatch).running(id),
{
    crate::lemmas::lemma_collect_valid(m);
    if !m.queue.poisoned {
        assert(m.with_ready(m.queue.ready) =~= m);
        lemma_dispatch_from(m, m.queue.ready);
        assert(m.after(Op::Dispatch) == dispatched_from(m, m.queue.ready));
        match m.next_task() {
            Some(id) => {
                assert(m.unfinished(id));
                assert(m.after(Op::Dispatch).unfinished(id));
                assert(m.dispatched().tasks[id].running);
            },
            None => {},
        }
    } else {
        lemma_stale_bound(m, m.queue.ready);
    }
}

/// No more entries are stale than there are.
pub(crate) proof fn lemma_stale_bound<F, T, W>(m: Model<F, T, W>, ready: Seq<TaskId>)
    ensures
        m.stale(ready) <= ready.len(),
        forall|i: int| 0 <= i < m.stale(ready) ==> !m.runnable(#[trigger] ready[i]),
        m.stale(ready) < ready.len() ==> m.runnable(ready[m.stale(ready) as int]),
    decreases ready.len(),
{
    if ready.len() > 0 && !m.runnable(ready[0]) {
        let short = ready.drop_first();
        lemma_stale_bound(m, short);
        assert forall|i: int| 0 <= i < m.stale(ready) implies !m.runnable(#[trigger] ready[i]) by {
            if i > 0 {
                assert(short[i - 1] == ready[i]);
            }
        }
        if m.stale(short) < short.len() {
            assert(short[m.stale(short) as int] == ready[m.stale(short) as int + 1]);
        }
    }
}

impl<F, T, W> Model<F, T, W> {
    /// The task that an operation is about.
    spec fn subject(self, op: Op<F, T, W>) -> TaskId {
        match op {
            Op::Spawn(_) => self.next as TaskId,
            Op::WakeByRef(id)
            | Op::Wake(id)
            | Op::CloneWaker(id)
            | Op::DropWaker(id)
            | Op::Claim(id)
            | Op::Polled(id, _)
            | Op::JoinPoll(id, _, _)
            | Op::Detach(id) => id,
            Op::Dispatch | Op::Poison | Op::TakeUnpark => 0,
        }
    }

    /// The executor after the operation, before what is unreachable is
    /// collected.
    spec fn uncollected(self, op: Op<F, T, W>) -> Self {
        match op {
            Op::Spawn(fut) => self.spawned(fut),
            Op::Wake(id) => self.waker_removed(id).woken_by_ref(id),
            Op::DropWaker(id) => self.waker_removed(id),
            Op::Polled(id, outcome) => self.polled(id, outcome),
            Op::Detach(id) => self.detached(id),
            _ => self.after(op),
        }
    }
}

/// What an operation other than a dispatch comes to: at most the task it is
/// about is collected, and at most that task's cell.
proof fn lemma_after<F, T, W>(m: Model<F, T, W>, op: Op<F, T, W>)
    requires
        m.valid(),
        m.allows(op),
        op !is Dispatch,
    ensures
        m.after(op).valid(),
        m.after(op).queue == m.uncollected(op).queue,
        m.after(op).next == m.uncollected(op).next,
        ({
            let raw = m.uncollected(op);
            let id = m.subject(op);
            &&& m.after(op).tasks == if raw.tasks.contains_key(id) && !raw.live(id) {
                raw.tasks.remove(id)
            } else {
                raw.tasks
            }
            &&& m.after(op).cells == if raw.cells.contains_key(id) && !raw.cells[id].handle && !(
            raw.live(id) && raw.unfinished(id)) {
                raw.cells.remove(id)
            } else {
                raw.cells
            }
        }),
{
    match op {
        Op::Spawn(fut) => crate::lemmas::lemma_spawned(m, fut),
        Op::WakeByRef(id) => crate::lemmas::lemma_woken_by_ref(m, id, None),
        Op::Wake(id) => {
            crate::lemmas::lemma_waker_removed(m, id);
            crate::lemmas::lemma_woken_by_ref(m.waker_removed(id), id, Some(id));
        },
        Op::CloneWaker(id) => crate::lemmas::lemma_waker_added(m, id),
        Op::DropWaker(id) => crate::lemmas::lemma_waker_removed(m, id),
        Op::Claim(id) => crate::lemmas::lemma_claimed(m, id),
        Op::Polled(id, outcome) => crate::lemmas::lemma_polled(m, id, outcome),
        Op::JoinPoll(id, waker, will_wake) => {
            crate::lemmas::lemma_with_cell(
                m,
                id,
                m.cells[id].state.after_poll(waker, will_wake),
            );
        },
        Op::Detach(id) => crate::lemmas::lemma_detached(m, id),
        Op::Dispatch | Op::Poison | Op::TakeUnpark => {
            crate::lemmas::lemma_same_ready(m, m.after(op));
        },
    }
    crate::lemmas::lemma_collect_one(m.uncollected(op), m.subject(op));
    if m.uncollected(op) == m.after(op) {
        crate::lemmas::lemma_collect_valid(m.after(op));
    }
}

/// Every operation keeps the executor's invariant.
pub proof fn law_invariant_kept<F, T, W>(m: Model<F, T, W>, op: Op<F, T, W>)
    requires
        m.valid(),
        m.allows(op),
    ensures
        m.after(op).valid(),
{
    if op is Dispatch {
        lemma_dispatched(m);
    } else {
        lemma_after(m, op);
    }
}

/// An executor without tasks satisfies the invariant.
pub proof fn law_initial_is_valid<F, T, W>()
    ensures
        Model::<F, T, W>::initial().valid(),
{
}

/// However an executor is used, its invariant holds.
pub proof fn law_invariant_always<F, T, W>(m: Model<F, T, W>, ops: Seq<Op<F, T, W>>)
    requires
        m.valid(),
        m.allows_all(ops),
    ensures
        m.after_all(ops).valid(),
    decreases ops.len(),
{
    if ops.len() > 0 {
        law_invariant_kept(m, ops[0]);
        law_invariant_always(m.after(ops[0]), ops.drop_first());
    }
}

/// What an operation leaves alone of one task and its cell.
proof fn lemma_frame<F, T, W>(m: Model<F, T, W>, op: Op<F, T, W>, id: TaskId)
    requires
        m.valid(),
        m.allows(op),
    ensures
        m.after(op).next >= m.next,
        // A future that is gone does not come back.
        id < m.next && !m.unfinished(id) ==> !m.after(op).unfinished(id),
        // A cell that can be claimed changes only by what concerns it.
        m.has_handle(id) && !(op matches Op::Claim(j) && j == id) && !(op matches Op::Detach(j) && j
            == id) ==> m.after(op).has_handle(id),
        m.has_handle(id) && m.after(op).has_handle(id) && !(op matches Op::JoinPoll(j, _, _) && j
            == id) && !(op matches Op::Polled(j, Outcome::Ready(_)) && j == id) ==> m.after(
            op,
        ).cells[id] == m.cells[id],
        // So does the cell of an unfinished task.
        m.unfinished(id) && m.after(op).unfinished(id) && !(op matches Op::JoinPoll(j, _, _) && j
            == id) ==> m.after(op).cells[id].state == m.cells[id].state,
{
    if op is Dispatch {
        lemma_dispatched(m);
    } else {
        lemma_after(m, op);
    }
}

/// An operation other than a dispatch leaves the entries of the run queue
/// where they are: new ones come behind them.
pub proof fn law_entries_keep_their_place<F, T, W>(m: Model<F, T, W>, op: Op<F, T, W>)
    requires
        m.valid(),
        m.allows(op),
        op !is Dispatch,
    ensures
        m.queue.ready.len() <= m.after(op).queue.ready.len(),
        m.after(op).queue.ready.take(m.queue.ready.len() as int) == m.queue.ready,
{
    assert(m.after(op).queue.ready.take(m.queue.ready.len() as int) =~= m.queue.ready);
}

/// A dispatch takes the task that is ready first: it passes over no task that
/// can run, and every other ready task moves up.
pub proof fn law_first_ready_first_polled<F, T, W>(m: Model<F, T, W>, i: int)
    requires
        m.valid(),
        !m.queue.poisoned,
        0 <= i < m.queue.ready.len(),
        m.runnable(m.queue.ready[i]),
    ensures
        m.stale(m.queue.ready) <= i,
        m.next_task() == Some(m.queue.ready[m.stale(m.queue.ready) as int]),
        i > m.stale(m.queue.ready) ==> m.after(Op::Dispatch).queue.ready[i - m.stale(
            m.queue.ready,
        ) - 1] == m.queue.ready[i],
{
    lemma_dispatched(m);
    lemma_stale_bound(m, m.queue.ready);
}

/// A task that is being polled is not polled a second time.
pub proof fn law_polled_by_one_at_a_time<F, T, W>(m: Model<F, T, W>, id: TaskId)
    requires
        m.valid(),
        m.running(id),
    ensures
        m.next_task() != Some(id),
{
    lemma_dispatched(m);
}

/// A task that is ready stays ready, whatever is done, until it is dispatched
/// or its poll ends for good. A dispatch from within its own poll is left out:
/// it uses the entry up.
pub proof fn law_wake_is_not_lost<F, T, W>(m: Model<F, T, W>, op: Op<F, T, W>, id: TaskId)
    requires
        m.valid(),
        m.allows(op),
        m.queue.ready.contains(id),
        m.unfinished(id),
        op is Dispatch ==> m.next_task() != Some(id) && !m.running(id),
        op matches Op::Polled(j, outcome) ==> j == id ==> outcome is Pending,
    ensures
        m.after(op).queue.ready.contains(id),
        m.after(op).unfinished(id),
{
    broadcast use vstd::seq_lib::to_multiset_contains;

    let ready = m.queue.ready;
    let after = m.after(op);
    let i = ready.index_of(id);
    assert(m.tasks.contains_key(id));
    if op is Dispatch {
        lemma_dispatched(m);
        if !m.queue.poisoned {
            law_first_ready_first_polled(m, i);
            let at = m.stale(ready) as int;
            assert(after.queue.ready[i - at - 1] == id);
        }
        assert(after.unfinished(id));
    } else {
        law_entries_keep_their_place(m, op);
        assert(after.queue.ready.take(ready.len() as int)[i] == id);
        assert(after.queue.ready[i] == id);
        lemma_after(m, op);
        assert(m.uncollected(op).queued(id) > 0);
    }
}

/// Waking a task that still has something to do makes it ready, behind all
/// others.
pub proof fn law_wake_makes_ready<F, T, W>(m: Model<F, T, W>, op: Op<F, T, W>, id: TaskId)
    requires
        m.valid(),
        m.allows(op),
        op == Op::<F, T, W>::WakeByRef(id) || op == Op::<F, T, W>::Wake(id),
        !m.queue.poisoned,
        m.unfinished(id),
    ensures
        m.after(op).queue.ready == m.queue.ready.push(id),
        m.after(op).queue.notified,
        m.after(op).unfinished(id),
        m.after(op).tasks[id].fut == m.tasks[id].fut,
{
    broadcast use vstd::seq_lib::to_multiset_contains;

    lemma_after(m, op);
    let ready = m.uncollected(op).queue.ready;
    assert(ready[m.queue.ready.len() as int] == id);
    assert(ready.contains(id));
}

/// How many of the operations are dispatches.
pub open spec fn dispatches<F, T, W>(ops: Seq<Op<F, T, W>>) -> nat
    decreases ops.len(),
{
    if ops.len() == 0 {
        0
    } else {
        dispatches(ops.drop_first()) + if ops[0] is Dispatch {
            1nat
        } else {
            0
        }
    }
}

/// A ready task is polled: with `i` entries before its own, at the latest by
/// the dispatch after the next `i`, whatever else is done in between, as long
/// as the run queue is not poisoned. It is polled with the future it has now.
pub proof fn law_ready_task_is_polled<F, T, W>(m: Model<F, T, W>, ops: Seq<Op<F, T, W>>, i: int)
    requires
        m.valid(),
        m.allows_all(ops),
        !m.queue.poisoned,
        forall|k: int| 0 <= k < ops.len() ==> (#[trigger] ops[k]) !is Poison,
        0 <= i < m.queue.ready.len(),
        m.runnable(m.queue.ready[i]),
        i < dispatches(ops),
    ensures
        exists|k: int|
            0 <= k < ops.len() && (#[trigger] ops[k]) is Dispatch && m.after_all(
                ops.take(k),
            ).next_task() == Some(m.queue.ready[i]) && m.after_all(
                ops.take(k),
            ).tasks[m.queue.ready[i]].fut == m.tasks[m.queue.ready[i]].fut,
    decreases ops.len(),
{
    let id = m.queue.ready[i];
    let op = ops[0];
    let rest = ops.drop_first();
    let after = m.after(op);
    if op is Dispatch && m.next_task() == Some(id) {
        assert(m.after_all(ops.take(0)) == m);
        assert(ops[0] is Dispatch);
    } else {
        assert(m.queue.ready.contains(id));
        assert(m.unfinished(id));
        assert(m.tasks.contains_key(id));
        law_invariant_kept(m, op);
        law_wake_is_not_lost(m, op, id);
        assert forall|k: int| 0 <= k < rest.len() implies (#[trigger] rest[k]) !is Poison by {
            assert(rest[k] == ops[k + 1]);
        }
        let j: int = if op is Dispatch {
            law_first_ready_first_polled(m, i);
            i - m.stale(m.queue.ready) - 1
        } else {
            law_entries_keep_their_place(m, op);
            assert(after.queue.ready.take(m.queue.ready.len() as int)[i] == id);
            i
        };
        assert(after.queue.ready[j] == id);
        law_resting_future_is_kept(m, op, id);
        law_ready_task_is_polled(after, rest, j);
        let k = choose|k: int|
            0 <= k < rest.len() && (#[trigger] rest[k]) is Dispatch && after.after_all(
                rest.take(k),
            ).next_task() == Some(id) && after.after_all(rest.take(k)).tasks[id].fut
                == after.tasks[id].fut;
        assert(ops.take(k + 1).drop_first() =~= rest.take(k));
        assert(ops.take(k + 1)[0] == op);
        assert(m.after_all(ops.take(k + 1)) == after.after_all(rest.take(k)));
        assert(ops[k + 1] is Dispatch);
    }
}

/// How many of the operations wake the task.
pub open spec fn wakes<F, T, W>(ops: Seq<Op<F, T, W>>, id: TaskId) -> nat
    decreases ops.len(),
{
    if ops.len() == 0 {
        0
    } else {
        wakes(ops.drop_first(), id) + if ops[0] == Op::<F, T, W>::WakeByRef(id) || ops[0] == Op::<
            F,
            T,
            W,
        >::Wake(id) {
            1nat
        } else {
            0
        }
    }
}

/// How many of the operations dispatch the task.
pub open spec fn polls<F, T, W>(m: Model<F, T, W>, ops: Seq<Op<F, T, W>>, id: TaskId) -> nat
    decreases ops.len(),
{
    if ops.len() == 0 {
        0
    } else {
        polls(m.after(ops[0]), ops.drop_first(), id) + if ops[0] is Dispatch && m.next_task()
            == Some(id) {
            1nat
        } else {
            0
        }
    }
}

/// A task is polled only for having been woken: no more often than it has
/// entries on the run queue plus wake-ups to come. A new task has one entry.
pub proof fn law_polled_only_when_woken<F, T, W>(
    m: Model<F, T, W>,
    ops: Seq<Op<F, T, W>>,
    id: TaskId,
)
    requires
        m.valid(),
        m.allows_all(ops),
        id < m.next,
    ensures
        polls(m, ops, id) <= m.queued(id) + wakes(ops, id),
    decreases ops.len(),
{
    if ops.len() > 0 {
        let op = ops[0];
        law_invariant_kept(m, op);
        lemma_frame(m, op, id);
        lemma_entries_used(m, op, id);
        law_polled_only_when_woken(m.after(op), ops.drop_first(), id);
    }
}

/// What an operation does to the number of a task's entries.
proof fn lemma_entries_used<F, T, W>(m: Model<F, T, W>, op: Op<F, T, W>, id: TaskId)
    requires
        m.valid(),
        m.allows(op),
        id < m.next,
    ensures
        op is Dispatch ==> m.after(op).queued(id) + (if m.next_task() == Some(id) {
            1nat
        } else {
            0
        }) <= m.queued(id),
        op !is Dispatch ==> m.after(op).queued(id) <= m.queued(id) + (if op == Op::<
            F,
            T,
            W,
        >::WakeByRef(id) || op == Op::<F, T, W>::Wake(id) {
            1nat
        } else {
            0
        }),
{
    broadcast use vstd::seq_lib::to_multiset_build;

    if op is Dispatch {
        lemma_dispatched(m);
        lemma_stale_bound(m, m.queue.ready);
        let at = m.stale(m.queue.ready) as int;
        if m.queue.poisoned {
        } else if at < m.queue.ready.len() {
            lemma_skip_count(m.queue.ready, at, id);
            let rest = m.queue.ready.skip(at);
            crate::lemmas::lemma_drop_first_count(rest);
            assert(rest.drop_first() =~= m.queue.ready.skip(at + 1));
        } else {
            assert(Seq::<TaskId>::empty().to_multiset().count(id) == 0) by {
                broadcast use vstd::seq_lib::to_multiset_contains;

            }
        }
    } else {
        lemma_after(m, op);
    }
}

/// Leaving out the first elements leaves no more of any.
proof fn lemma_skip_count(s: Seq<TaskId>, n: int, id: TaskId)
    requires
        0 <= n <= s.len(),
    ensures
        s.skip(n).to_multiset().count(id) <= s.to_multiset().count(id),
    decreases n,
{
    if n == 0 {
        assert(s.skip(0) =~= s);
    } else {
        crate::lemmas::lemma_drop_first_count(s);
        lemma_skip_count(s.drop_first(), n - 1, id);
        assert(s.drop_first().skip(n - 1) =~= s.skip(n));
    }
}

/// A future at rest stays as it is, as long as its task lives, until it is
/// dispatched.
pub proof fn law_resting_future_is_kept<F, T, W>(m: Model<F, T, W>, op: Op<F, T, W>, id: TaskId)
    requires
        m.valid(),
        m.allows(op),
        m.runnable(id),
        m.after(op).tasks.contains_key(id),
        op is Dispatch ==> m.next_task() != Some(id),
    ensures
        m.after(op).runnable(id),
        m.after(op).tasks[id].fut == m.tasks[id].fut,
{
    assert(!m.tasks[id].running);
    if op is Dispatch {
        lemma_dispatched(m);
    } else {
        lemma_after(m, op);
    }
}

/// A task whose future is gone never has one again, and is never polled
/// again.
pub proof fn law_finished_is_never_polled<F, T, W>(
    m: Model<F, T, W>,
    ops: Seq<Op<F, T, W>>,
    id: TaskId,
)
    requires
        m.valid(),
        m.allows_all(ops),
        id < m.next,
        !m.unfinished(id),
    ensures
        !m.after_all(ops).unfinished(id),
        m.after_all(ops).next_task() != Some(id),
    decreases ops.len(),
{
    if ops.len() == 0 {
        lemma_dispatched(m);
    } else {
        lemma_frame(m, ops[0], id);
        law_invariant_kept(m, ops[0]);
        law_finished_is_never_polled(m.after(ops[0]), ops.drop_first(), id);
    }
}

/// Whether the operation looks for the result of the task, or gives it up.
pub open spec fn takes_result<F, T, W>(op: Op<F, T, W>, id: TaskId) -> bool {
    match op {
        Op::JoinPoll(j, _, _) | Op::Claim(j) | Op::Detach(j) => j == id,
        _ => false,
    }
}

/// There is no result before the task has finished.
pub proof fn law_pending_until_finished<F, T, W>(m: Model<F, T, W>, id: TaskId)
    requires
        m.valid(),
        m.has_handle(id),
        m.unfinished(id),
    ensures
        m.cells[id].state.poll_result() == crate::Poll::<T>::Pending,
{
}

/// Polling a handle with a waker and a way to compare wakers is one of the
/// operations: whatever the comparison and the clone came to, the executor is
/// as after [`Op::JoinPoll`].
pub proof fn law_handle_poll_is_an_operation<F, T, W: Clone, S: Fn(&W, &W) -> bool>(
    m: Model<F, T, W>,
    id: TaskId,
    waker: &W,
    will_wake: S,
    after: ShareState<T, W>,
    unused: Option<W>,
)
    requires
        m.has_handle(id),
        m.cells[id].state.result is Some ==> after == (ShareState {
            result: None,
            ..m.cells[id].state
        }),
        m.cells[id].state.result is None ==> after.result is None && crate::join::registers(
            m.cells[id].state.waker,
            waker,
            will_wake,
            after.waker,
            unused,
        ),
    ensures
        exists|copy: W, same: bool|
            #[trigger] m.after(Op::JoinPoll(id, copy, same)) == m.with_cell(id, after),
{
    let state = m.cells[id].state;
    if state.result is None && state.waker is Some && after.waker == state.waker {
        assert(m.after(Op::JoinPoll(id, *waker, true)) =~= m.with_cell(id, after));
    } else if state.result is None {
        assert(m.after(Op::JoinPoll(id, after.waker->0, false)) =~= m.with_cell(id, after));
    } else {
        assert(m.after(Op::JoinPoll(id, *waker, true)) =~= m.with_cell(id, after));
    }
}

/// What a task finishes with is what its handle gets, however much happens in
/// between. For [`block_on`](crate::block_on) the handle is its own: it returns
/// what its future finished with.
pub proof fn law_join_returns_the_output<F, T, W>(
    m: Model<F, T, W>,
    id: TaskId,
    output: T,
    ops: Seq<Op<F, T, W>>,
)
    requires
        m.valid(),
        m.running(id),
        m.has_handle(id),
        m.after(Op::Polled(id, Outcome::Ready(output))).allows_all(ops),
        forall|k: int| 0 <= k < ops.len() ==> !takes_result(#[trigger] ops[k], id),
    ensures
        ({
            let end = m.after(Op::Polled(id, Outcome::Ready(output))).after_all(ops);
            &&& end.has_handle(id)
            &&& end.cells[id].state.result == Some(output)
            &&& end.cells[id].state.poll_result() == crate::Poll::Ready(output)
        }),
{
    let op = Op::Polled(id, Outcome::Ready(output));
    law_invariant_kept(m, op);
    lemma_after(m, op);
    assert(m.unfinished(id));
    assert(!m.after(op).unfinished(id));
    assert(m.cells.contains_key(id) ==> id < m.next);
    lemma_result_waits(m.after(op), id, ops);
}

/// A result stays where it is until somebody takes it.
proof fn lemma_result_waits<F, T, W>(m: Model<F, T, W>, id: TaskId, ops: Seq<Op<F, T, W>>)
    requires
        m.valid(),
        m.has_handle(id),
        !m.unfinished(id),
        m.allows_all(ops),
        forall|k: int| 0 <= k < ops.len() ==> !takes_result(#[trigger] ops[k], id),
    ensures
        m.after_all(ops).has_handle(id),
        m.after_all(ops).cells[id] == m.cells[id],
    decreases ops.len(),
{
    if ops.len() > 0 {
        let op = ops[0];
        let rest = ops.drop_first();
        assert(!takes_result(op, id));
        assert(m.cells.contains_key(id));
        lemma_frame(m, op, id);
        law_invariant_kept(m, op);
        assert forall|k: int| 0 <= k < rest.len() implies !takes_result(#[trigger] rest[k], id) by {
            assert(rest[k] == ops[k + 1]);
        }
        lemma_result_waits(m.after(op), id, rest);
    }
}

/// A result is handed out once: a handle that got it finds nothing any more.
pub proof fn law_result_is_taken_once<F, T, W>(
    m: Model<F, T, W>,
    id: TaskId,
    waker: W,
    will_wake: bool,
    ops: Seq<Op<F, T, W>>,
)
    requires
        m.valid(),
        m.has_handle(id),
        m.cells[id].state.result is Some,
        m.after(Op::JoinPoll(id, waker, will_wake)).allows_all(ops),
    ensures
        ({
            let end = m.after(Op::JoinPoll(id, waker, will_wake)).after_all(ops);
            end.has_handle(id) ==> end.cells[id].state.poll_result() == crate::Poll::<T>::Pending
        }),
{
    let op = Op::JoinPoll(id, waker, will_wake);
    law_invariant_kept(m, op);
    assert(!m.unfinished(id));
    assert(!m.after(op).unfinished(id));
    assert(m.after(op).cells.contains_key(id));
    lemma_no_result_returns(m.after(op), id, ops);
}

/// Without its future, a task gets no new result.
proof fn lemma_no_result_returns<F, T, W>(m: Model<F, T, W>, id: TaskId, ops: Seq<Op<F, T, W>>)
    requires
        m.valid(),
        id < m.next,
        !m.unfinished(id),
        m.cells.contains_key(id) ==> m.cells[id].state.result is None,
        m.allows_all(ops),
    ensures
        m.after_all(ops).cells.contains_key(id) ==> m.after_all(ops).cells[id].state.result is None,
    decreases ops.len(),
{
    if ops.len() > 0 {
        let op = ops[0];
        lemma_frame(m, op, id);
        law_invariant_kept(m, op);
        if op is Dispatch {
            lemma_dispatched(m);
        } else {
            lemma_after(m, op);
        }
        lemma_no_result_returns(m.after(op), id, ops.drop_first());
    }
}

/// Who polled the handle last is woken when the task finishes: the waker that
/// the end of the task's last poll hands out is the one that was put on
/// record.
pub proof fn law_joiner_is_woken<F, T, W>(
    m: Model<F, T, W>,
    id: TaskId,
    waker: W,
    will_wake: bool,
    ops: Seq<Op<F, T, W>>,
    output: T,
)
    requires
        m.valid(),
        m.has_handle(id),
        m.cells[id].state.result is None,
        m.after(Op::JoinPoll(id, waker, will_wake)).allows_all(ops),
        forall|k: int|
            0 <= k < ops.len() ==> !((#[trigger] ops[k]) matches Op::JoinPoll(j, _, _) && j == id),
        m.after(Op::JoinPoll(id, waker, will_wake)).after_all(ops).running(id),
    ensures
        m.after(Op::JoinPoll(id, waker, will_wake)).after_all(ops).completion_waker(
            id,
            Outcome::Ready(output),
        ) == crate::join::registered(m.cells[id].state.waker, waker, will_wake),
{
    let op = Op::JoinPoll(id, waker, will_wake);
    law_invariant_kept(m, op);
    assert(m.cells.contains_key(id));
    lemma_waker_waits(m.after(op), id, ops);
}

/// The waker on record in the cell of a task stays there while the task is
/// unfinished and nobody polls the handle.
proof fn lemma_waker_waits<F, T, W>(m: Model<F, T, W>, id: TaskId, ops: Seq<Op<F, T, W>>)
    requires
        m.valid(),
        id < m.next,
        m.allows_all(ops),
        forall|k: int|
            0 <= k < ops.len() ==> !((#[trigger] ops[k]) matches Op::JoinPoll(j, _, _) && j == id),
        m.after_all(ops).unfinished(id),
    ensures
        m.unfinished(id),
        m.after_all(ops).cells[id].state.waker == m.cells[id].state.waker,
    decreases ops.len(),
{
    if !m.unfinished(id) {
        law_finished_is_never_polled(m, ops, id);
    }
    if ops.len() > 0 {
        let op = ops[0];
        let rest = ops.drop_first();
        assert(!(op matches Op::JoinPoll(j, _, _) && j == id));
        lemma_frame(m, op, id);
        law_invariant_kept(m, op);
        assert forall|k: int| 0 <= k < rest.len() implies !((#[trigger] rest[k]) matches Op::JoinPoll(
            j,
            _,
            _,
        ) && j == id) by {
            assert(rest[k] == ops[k + 1]);
        }
        lemma_waker_waits(m.after(op), id, rest);
    }
}

/// A task that awaits another runs again once the other has finished: the
/// waker that is then handed out puts it at the back of the run queue.
pub proof fn law_awaiting_task_becomes_ready<F, T>(
    m: Model<F, T, RawWaker>,
    id: TaskId,
    output: T,
    waker: RawWaker,
)
    requires
        m.valid(),
        m.running(id),
        m.cells[id].state.waker == Some(waker),
        waker.task() != id,
        m.unfinished(waker.task()),
        m.has_waker(waker.task()),
        m.strong(waker.task()) < u64::MAX,
        !m.queue.poisoned,
    ensures
        m.completion_waker(id, Outcome::Ready(output)) == Some(waker),
        ({
            let done = m.after(Op::Polled(id, Outcome::Ready(output)));
            let woken = done.after(Op::WakeByRef(waker.task()));
            &&& done.allows(Op::WakeByRef(waker.task()))
            &&& woken.queue.ready == m.queue.ready.push(waker.task())
            &&& woken.queue.notified
            &&& woken.unfinished(waker.task())
            &&& woken.tasks[waker.task()].fut == m.tasks[waker.task()].fut
        }),
{
    let outcome = Outcome::Ready(output);
    let done = m.after(Op::Polled(id, outcome));
    lemma_after(m, Op::Polled(id, outcome));
    assert(done.tasks[waker.task()] == m.tasks[waker.task()]);
    law_wake_makes_ready(done, Op::WakeByRef(waker.task()), waker.task());
}

/// A task exists exactly as long as something refers to it: an entry of the
/// run queue, a waker, or the poll that is under way.
pub proof fn law_task_lives_while_referenced<F, T, W>(m: Model<F, T, W>, id: TaskId)
    requires
        m.valid(),
    ensures
        m.tasks.contains_key(id) <==> m.queue.ready.contains(id) || m.has_waker(id) || m.running(
            id,
        ),
{
    broadcast use vstd::seq_lib::to_multiset_contains;

    if m.queue.ready.contains(id) {
        assert(m.tasks.contains_key(m.queue.ready[m.queue.ready.index_of(id)]));
    }
}

/// No operation invalidates a waker: what refers to a task are the wakers given
/// out and not yet given up.
pub proof fn law_wakers_stay_usable<F, T, W>(m: Model<F, T, W>, op: Op<F, T, W>, id: TaskId)
    requires
        m.valid(),
        m.allows(op),
        m.has_waker(id),
        op == Op::<F, T, W>::Wake(id) || op == Op::<F, T, W>::DropWaker(id) ==> m.tasks[id].wakers
            > 1,
    ensures
        m.after(op).has_waker(id),
        m.after(op).tasks[id].wakers == m.tasks[id].wakers + (if op == Op::<F, T, W>::CloneWaker(id)
            || (op is Dispatch && m.next_task() == Some(id)) {
            1int
        } else if op == Op::<F, T, W>::Wake(id) || op == Op::<F, T, W>::DropWaker(id) {
            -1
        } else {
            0
        }),
{
    if op is Dispatch {
        lemma_dispatched(m);
        assert(m.after(op).has_waker(id));
    } else {
        lemma_after(m, op);
    }
}

/// Cloning a waker and dropping the clone changes nothing.
pub proof fn law_clone_then_drop<F, T, W>(m: Model<F, T, W>, id: TaskId)
    requires
        m.valid(),
        m.allows(Op::CloneWaker(id)),
    ensures
        m.after(Op::CloneWaker(id)).after(Op::DropWaker(id)) == m,
{
    assert(m.waker_added(id).waker_removed(id).tasks =~= m.tasks);
    crate::lemmas::lemma_collect_valid(m);
}

/// Waking by reference is cloning the waker and waking with the clone.
pub proof fn law_wake_by_ref_is_clone_then_wake<F, T, W>(m: Model<F, T, W>, id: TaskId)
    requires
        m.valid(),
        m.allows(Op::WakeByRef(id)),
    ensures
        m.after(Op::CloneWaker(id)).after(Op::Wake(id)) == m.after(Op::WakeByRef(id)),
{
    assert(m.waker_added(id).waker_removed(id).tasks =~= m.tasks);
    law_invariant_kept(m, Op::WakeByRef(id));
    crate::lemmas::lemma_collect_valid(m.woken_by_ref(id));
}

/// A new task gets an id that no task or result has or had.
pub proof fn law_ids_are_fresh<F, T, W>(m: Model<F, T, W>, fut: F, ops: Seq<Op<F, T, W>>)
    requires
        m.valid(),
        m.allows(Op::Spawn(fut)),
        m.after(Op::Spawn(fut)).allows_all(ops),
    ensures
        !m.tasks.contains_key(m.next as TaskId),
        !m.cells.contains_key(m.next as TaskId),
        m.next < m.after(Op::Spawn(fut)).after_all(ops).next,
{
    law_invariant_kept(m, Op::Spawn(fut));
    lemma_next_grows(m.after(Op::Spawn(fut)), ops);
}

/// Ids are handed out in order.
proof fn lemma_next_grows<F, T, W>(m: Model<F, T, W>, ops: Seq<Op<F, T, W>>)
    requires
        m.valid(),
        m.allows_all(ops),
    ensures
        m.next <= m.after_all(ops).next,
    decreases ops.len(),
{
    if ops.len() > 0 {
        lemma_frame(m, ops[0], 0);
        law_invariant_kept(m, ops[0]);
        lemma_next_grows(m.after(ops[0]), ops.drop_first());
    }
}

/// Giving up a handle does not touch the task: it runs on.
pub proof fn law_detached_task_runs_on<F, T, W>(m: Model<F, T, W>, id: TaskId)
    requires
        m.valid(),
        m.allows(Op::Detach(id)),
    ensures
        m.after(Op::Detach(id)).tasks == m.tasks,
        m.after(Op::Detach(id)).queue == m.queue,
{
    lemma_after(m, Op::Detach(id));
}

/// A fresh executor has nothing to run, nobody to answer and nothing to ask.
pub proof fn law_fresh_executor_is_empty<F, T, W>(id: TaskId)
    ensures
        Model::<F, T, W>::initial().queue.ready.len() == 0,
        !Model::<F, T, W>::initial().queue.poisoned,
        !Model::<F, T, W>::initial().queue.notified,
        !Model::<F, T, W>::initial().tasks.contains_key(id),
        !Model::<F, T, W>::initial().cells.contains_key(id),
        Model::<F, T, W>::initial().next == 0,
        Model::<F, T, W>::initial().next_task() is None,
{
}

/// A spawned future is there to be polled, behind everything that is ready, and
/// its handle is there to be asked. The executor thread is to be woken.
pub proof fn law_spawn_queues_the_future<F, T, W>(m: Model<F, T, W>, fut: F)
    requires
        m.valid(),
        m.next < u64::MAX,
        !m.queue.poisoned,
    ensures
        ({
            let id = m.next as TaskId;
            let after = m.after(Op::Spawn(fut));
            &&& after == m.spawned(fut)
            &&& after.queue.ready == m.queue.ready.push(id)
            &&& after.queue.notified
            &&& !after.queue.poisoned
            &&& after.runnable(id)
            &&& after.tasks[id].fut == Some(fut)
            &&& after.tasks[id].wakers == 0
            &&& !after.tasks[id].running
            &&& after.strong(id) == 1
            &&& after.has_handle(id)
            &&& after.cells[id].state.result is None
            &&& after.cells[id].state.waker is None
            &&& after.cells[id].state.poll_result() is Pending
            &&& after.next == m.next + 1
        }),
{
    let id = m.next as TaskId;
    lemma_after(m, Op::Spawn(fut));
    crate::lemmas::lemma_spawned(m, fut);
    crate::lemmas::lemma_valid_if_live(m.spawned(fut), id);
}

/// On a poisoned queue a spawned future does not become a task. The handle is
/// there all the same, and the executor thread is to be woken.
pub proof fn law_spawn_on_a_poisoned_queue<F, T, W>(m: Model<F, T, W>, fut: F)
    requires
        m.valid(),
        m.next < u64::MAX,
        m.queue.poisoned,
    ensures
        ({
            let id = m.next as TaskId;
            let after = m.after(Op::Spawn(fut));
            &&& after.tasks == m.tasks
            &&& after.queue.ready == m.queue.ready
            &&& after.queue.notified
            &&& after.queue.poisoned
            &&& after.has_handle(id)
            &&& after.cells[id].state.result is None
            &&& after.cells[id].state.waker is None
            &&& after.next == m.next + 1
            &&& m.spawned(fut).released(id).fut == Some(fut)
        }),
{
    let id = m.next as TaskId;
    lemma_after(m, Op::Spawn(fut));
    crate::lemmas::lemma_spawned(m, fut);
    assert(!m.tasks.contains_key(id));
    assert(m.after(Op::Spawn(fut)).tasks =~= m.tasks);
}

/// A spawned future is polled: after as many dispatches as there were ready
/// entries, and one more, whatever else is done.
pub proof fn law_spawned_future_is_polled<F, T, W>(
    m: Model<F, T, W>,
    fut: F,
    ops: Seq<Op<F, T, W>>,
)
    requires
        m.valid(),
        m.next < u64::MAX,
        !m.queue.poisoned,
        m.after(Op::Spawn(fut)).allows_all(ops),
        forall|k: int| 0 <= k < ops.len() ==> (#[trigger] ops[k]) !is Poison,
        m.queue.ready.len() < dispatches(ops),
    ensures
        exists|k: int|
            0 <= k < ops.len() && (#[trigger] ops[k]) is Dispatch && m.after(
                Op::Spawn(fut),
            ).after_all(ops.take(k)).next_task() == Some(m.next as TaskId) && m.after(
                Op::Spawn(fut),
            ).after_all(ops.take(k)).tasks[m.next as TaskId].fut == Some(fut),
{
    law_spawn_queues_the_future(m, fut);
    law_invariant_kept(m, Op::Spawn(fut));
    law_ready_task_is_polled(m.after(Op::Spawn(fut)), ops, m.queue.ready.len() as int);
}

/// Waking a task, by whichever way, queues it and asks for the executor thread
/// to be woken; a poisoned queue takes no entry. Its future, its poll and all
/// results stay as they are, and a task that is queued is not let go of.
pub proof fn law_wake_only_queues<F, T, W>(m: Model<F, T, W>, op: Op<F, T, W>, id: TaskId)
    requires
        m.valid(),
        m.allows(op),
        op == Op::<F, T, W>::WakeByRef(id) || op == Op::<F, T, W>::Wake(id),
    ensures
        ({
            let after = m.after(op);
            &&& after.queue.notified
            &&& after.queue.poisoned == m.queue.poisoned
            &&& m.queue.poisoned ==> after.queue.ready == m.queue.ready
            &&& !m.queue.poisoned ==> {
                &&& after.queue.ready == m.queue.ready.push(id)
                &&& after.tasks.contains_key(id)
                &&& after.cells == m.cells
                &&& m.waker_removed(id).woken_by_ref(id).released(id).fut is None
                &&& m.waker_removed(id).woken_by_ref(id).released(id).cell is None
            }
            &&& op is WakeByRef ==> after.tasks == m.tasks && after.cells == m.cells
            &&& after.tasks.contains_key(id) ==> {
                &&& after.tasks[id].fut == m.tasks[id].fut
                &&& after.tasks[id].running == m.tasks[id].running
                &&& after.tasks[id].wakers == m.tasks[id].wakers - if op is Wake {
                    1int
                } else {
                    0
                }
                &&& after.cells == m.cells
            }
            &&& after.next == m.next
        }),
{
    broadcast use vstd::seq_lib::to_multiset_contains;

    lemma_after(m, op);
    let raw = m.uncollected(op);
    if !m.queue.poisoned {
        assert(raw.queue.ready[m.queue.ready.len() as int] == id);
        assert(raw.queue.ready.contains(id));
        assert(raw.live(id));
    }
    assert(m.cells.contains_key(id) ==> m.cells[id].handle || m.unfinished(id));
    if op is WakeByRef {
        assert(raw.tasks == m.tasks);
    }
    if !m.queue.poisoned {
        let woken = m.waker_removed(id).woken_by_ref(id);
        assert(woken.queue.ready[m.queue.ready.len() as int] == id);
        assert(woken.queue.ready.contains(id));
    }
}

/// Cloning a waker adds one to those that refer to its task, and does nothing
/// else.
pub proof fn law_clone_adds_a_waker<F, T, W>(m: Model<F, T, W>, id: TaskId)
    requires
        m.valid(),
        m.allows(Op::CloneWaker(id)),
    ensures
        ({
            let after = m.after(Op::CloneWaker(id));
            &&& after.has_waker(id)
            &&& after.tasks[id].wakers == m.tasks[id].wakers + 1
            &&& after.tasks[id].fut == m.tasks[id].fut
            &&& after.tasks[id].running == m.tasks[id].running
            &&& after.tasks.dom() == m.tasks.dom()
            &&& after.queue == m.queue
            &&& after.cells == m.cells
            &&& after.next == m.next
        }),
{
    assert(m.after(Op::CloneWaker(id)).tasks.dom() =~= m.tasks.dom());
}

/// Giving up a waker, by dropping it or by waking with it on a poisoned queue,
/// drops the task if nothing else refers to it, and only then. What is dropped
/// is handed out, and nothing besides.
pub proof fn law_last_reference_drops_the_task<F, T, W>(
    m: Model<F, T, W>,
    op: Op<F, T, W>,
    id: TaskId,
)
    requires
        m.valid(),
        m.allows(op),
        op == Op::<F, T, W>::DropWaker(id) || (op == Op::<F, T, W>::Wake(id) && m.queue.poisoned),
    ensures
        ({
            let after = m.after(op);
            let released = if op is Wake {
                m.waker_removed(id).woken_by_ref(id).released(id)
            } else {
                m.waker_removed(id).released(id)
            };
            &&& after.tasks.contains_key(id) <==> m.queue.ready.contains(id) || m.tasks[id].wakers
                > 1 || m.tasks[id].running
            &&& after.tasks.contains_key(id) ==> {
                &&& after.tasks[id].wakers == m.tasks[id].wakers - 1
                &&& after.tasks[id].fut == m.tasks[id].fut
                &&& after.tasks[id].running == m.tasks[id].running
                &&& after.cells == m.cells
                &&& released.fut is None
                &&& released.cell is None
            }
            &&& !after.tasks.contains_key(id) ==> {
                &&& released.fut == m.tasks[id].fut
                &&& after.cells.contains_key(id) <==> m.has_handle(id)
                &&& after.cells.contains_key(id) ==> after.cells[id] == m.cells[id]
                &&& released.cell == if m.cells.contains_key(id) && !m.cells[id].handle {
                    Some(m.cells[id].state)
                } else {
                    None
                }
            }
            &&& after.queue.ready == m.queue.ready
            &&& op is DropWaker ==> after.queue == m.queue
            &&& after.next == m.next
        }),
{
    broadcast use vstd::seq_lib::to_multiset_contains;

    lemma_after(m, op);
    let raw = m.uncollected(op);
    assert(raw.queued(id) > 0 <==> m.queue.ready.contains(id));
    assert(m.cells.contains_key(id) ==> m.cells[id].handle || m.unfinished(id));
    crate::lemmas::lemma_waker_removed(m, id);
    if op is Wake {
        crate::lemmas::lemma_woken_by_ref(m.waker_removed(id), id, Some(id));
    }
    crate::lemmas::lemma_collect_one(raw, id);
}

/// A dispatch takes the first entry whose task has a future. That future is
/// taken out to be polled with one more waker; the entries up to it are gone,
/// the others stay in order; no result changes, and only tasks that nothing
/// refers to any more, and that have no future, disappear.
pub proof fn law_dispatch_takes_the_first_future<F, T, W>(m: Model<F, T, W>, k: int)
    requires
        m.valid(),
        !m.queue.poisoned,
        0 <= k < m.queue.ready.len(),
        m.tasks[m.queue.ready[k]].fut is Some,
        forall|i: int| 0 <= i < k ==> m.tasks[#[trigger] m.queue.ready[i]].fut is None,
    ensures
        ({
            let id = m.queue.ready[k];
            let after = m.after(Op::Dispatch);
            &&& m.next_task() == Some(id)
            &&& after.queue.ready == m.queue.ready.subrange(
                k + 1,
                m.queue.ready.len() as int,
            )
            &&& after.queue.notified == m.queue.notified
            &&& !after.queue.poisoned
            &&& after.running(id)
            &&& after.has_waker(id)
            &&& after.tasks[id].running
            &&& after.tasks[id].fut is None
            &&& after.tasks[id].wakers == m.tasks[id].wakers + 1
            &&& after.strong(id) == m.strong(id)
            &&& after.cells == m.cells
            &&& after.next == m.next
            &&& forall|j: TaskId|
                j != id ==> (#[trigger] after.tasks.contains_key(j) <==> m.tasks.contains_key(j) && (
                after.queue.ready.contains(j) || m.tasks[j].wakers > 0 || m.tasks[j].running))
            &&& forall|j: TaskId|
                j != id && #[trigger] after.tasks.contains_key(j) ==> after.tasks[j] == m.tasks[j]
        }),
{
    let id = m.queue.ready[k];
    let after = m.after(Op::Dispatch);
    lemma_first_future(m, m.queue.ready, k);
    lemma_dispatched(m);
    assert(after.queue.ready =~= m.queue.ready.subrange(k + 1, m.queue.ready.len() as int));
    assert(m.dispatched().tasks[id].wakers == m.tasks[id].wakers + 1);
    lemma_entries_before(m.queue.ready, k, id);
    let rest = m.queue.ready.skip(k);
    crate::lemmas::lemma_drop_first_count(rest);
    assert(rest.drop_first() =~= m.queue.ready.skip(k + 1));
    assert forall|j: TaskId| j != id implies (#[trigger] after.tasks.contains_key(j)
        <==> m.tasks.contains_key(j) && (after.queue.ready.contains(j) || m.tasks[j].wakers > 0
        || m.tasks[j].running)) by {
        law_task_lives_while_referenced(after, j);
        if after.queue.ready.contains(j) {
            let i = after.queue.ready.index_of(j);
            assert(m.queue.ready[i + k + 1] == j);
        }
        if m.tasks.contains_key(j) && m.tasks[j].wakers > 0 {
            assert(m.has_waker(j));
            assert(after.has_waker(j));
        }
        if m.tasks.contains_key(j) && m.tasks[j].running {
            assert(m.unfinished(j));
            assert(after.unfinished(j));
        }
    }
}

/// Where no entry's task has a future, a dispatch finds nothing and uses the
/// entries up. A poisoned queue gives out nothing and stays as it is.
pub proof fn law_dispatch_finds_nothing<F, T, W>(m: Model<F, T, W>)
    requires
        m.valid(),
        m.queue.poisoned || forall|i: int|
            0 <= i < m.queue.ready.len() ==> m.tasks[#[trigger] m.queue.ready[i]].fut is None,
    ensures
        m.next_task() is None,
        m.queue.poisoned ==> m.after(Op::Dispatch) == m,
        !m.queue.poisoned ==> m.after(Op::Dispatch).queue.ready.len() == 0,
        m.after(Op::Dispatch).queue.notified == m.queue.notified,
        m.after(Op::Dispatch).queue.poisoned == m.queue.poisoned,
        m.after(Op::Dispatch).cells == m.cells,
        m.after(Op::Dispatch).next == m.next,
        forall|j: TaskId| #[trigger]
            m.after(Op::Dispatch).tasks.contains_key(j) ==> m.tasks.contains_key(j) && m.after(
                Op::Dispatch,
            ).tasks[j] == m.tasks[j],
        forall|j: TaskId| #[trigger]
            m.tasks.contains_key(j) && (m.tasks[j].wakers > 0 || m.tasks[j].running) ==> m.after(
                Op::Dispatch,
            ).tasks.contains_key(j),
{
    lemma_dispatched(m);
    lemma_stale_bound(m, m.queue.ready);
    crate::lemmas::lemma_collect_valid(m);
    let after = m.after(Op::Dispatch);
    assert forall|j: TaskId| #[trigger]
        m.tasks.contains_key(j) && (m.tasks[j].wakers > 0
            || m.tasks[j].running) implies after.tasks.contains_key(j) by {
        if m.tasks[j].wakers > 0 {
            assert(m.has_waker(j));
            assert(after.has_waker(j));
        } else {
            assert(m.unfinished(j));
            assert(after.unfinished(j));
        }
    }
}

/// The stale entries are those before the first future.
proof fn lemma_first_future<F, T, W>(m: Model<F, T, W>, ready: Seq<TaskId>, k: int)
    requires
        0 <= k < ready.len(),
        m.runnable(ready[k]) || m.tasks.contains_key(ready[k]),
        m.tasks[ready[k]].fut is Some,
        forall|i: int| 0 <= i < k ==> m.tasks[#[trigger] ready[i]].fut is None,
    ensures
        m.stale(ready) == k,
{
    lemma_stale_bound(m, ready);
    let at = m.stale(ready) as int;
    if at < k {
        assert(m.runnable(ready[at]));
    } else if at > k {
        assert(!m.runnable(ready[k]));
    }
}

/// Leaving out elements other than `id` leaves as many of it.
proof fn lemma_entries_before(s: Seq<TaskId>, n: int, id: TaskId)
    requires
        0 <= n <= s.len(),
        forall|i: int| 0 <= i < n ==> #[trigger] s[i] != id,
    ensures
        s.skip(n).to_multiset().count(id) == s.to_multiset().count(id),
    decreases n,
{
    if n == 0 {
        assert(s.skip(0) =~= s);
    } else {
        crate::lemmas::lemma_drop_first_count(s);
        assert(s[0] != id);
        assert forall|i: int| 0 <= i < n - 1 implies #[trigger] s.drop_first()[i] != id by {
            assert(s[i + 1] != id);
        }
        lemma_entries_before(s.drop_first(), n - 1, id);
        assert(s.drop_first().skip(n - 1) =~= s.skip(n));
    }
}

/// A pending future is put back: the task has the very future that was handed
/// back and can be polled again. If nothing refers to the task any more, the
/// future is handed out instead.
pub proof fn law_pending_future_is_put_back<F, T, W>(m: Model<F, T, W>, id: TaskId, fut: F)
    requires
        m.valid(),
        m.running(id),
    ensures
        ({
            let after = m.after(Op::Polled(id, Outcome::Pending(fut)));
            let released = m.polled(id, Outcome::Pending(fut)).released(id);
            &&& after.tasks.contains_key(id) <==> m.queue.ready.contains(id) || m.tasks[id].wakers
                > 0
            &&& after.tasks.contains_key(id) ==> {
                &&& after.runnable(id)
                &&& after.tasks[id].fut == Some(fut)
                &&& !after.tasks[id].running
                &&& after.tasks[id].wakers == m.tasks[id].wakers
                &&& after.cells == m.cells
                &&& released.fut is None
                &&& released.cell is None
            }
            &&& !after.tasks.contains_key(id) ==> {
                &&& released.fut == Some(fut)
                &&& released.cell == if m.cells[id].handle {
                    None
                } else {
                    Some(m.cells[id].state)
                }
            }
            &&& m.has_handle(id) ==> after.cells == m.cells
            &&& after.cells.contains_key(id) <==> m.has_handle(id) || after.tasks.contains_key(id)
            &&& m.completion_waker(id, Outcome::Pending(fut)) is None
            &&& after.queue == m.queue
            &&& after.next == m.next
        }),
{
    broadcast use vstd::seq_lib::to_multiset_contains;

    let outcome = Outcome::Pending(fut);
    lemma_after(m, Op::Polled(id, outcome));
    crate::lemmas::lemma_polled(m, id, outcome);
    crate::lemmas::lemma_collect_one(m.polled(id, outcome), id);
}

/// A pending task that is woken is polled again with the future that was put
/// back: with `i` entries ready before the wake-up, by the dispatch after the
/// next `i`.
pub proof fn law_woken_pending_task_is_polled_again<F, T, W>(
    m: Model<F, T, W>,
    id: TaskId,
    fut: F,
    ops: Seq<Op<F, T, W>>,
)
    requires
        m.valid(),
        m.running(id),
        m.has_waker(id),
        m.strong(id) < u64::MAX,
        !m.queue.poisoned,
        m.after(Op::Polled(id, Outcome::Pending(fut))).after(Op::WakeByRef(id)).allows_all(ops),
        forall|k: int| 0 <= k < ops.len() ==> (#[trigger] ops[k]) !is Poison,
        m.queue.ready.len() < dispatches(ops),
    ensures
        m.after(Op::Polled(id, Outcome::Pending(fut))).allows(Op::WakeByRef(id)),
        exists|k: int|
            0 <= k < ops.len() && (#[trigger] ops[k]) is Dispatch && m.after(
                Op::Polled(id, Outcome::Pending(fut)),
            ).after(Op::WakeByRef(id)).after_all(ops.take(k)).next_task() == Some(id) && m.after(
                Op::Polled(id, Outcome::Pending(fut)),
            ).after(Op::WakeByRef(id)).after_all(ops.take(k)).tasks[id].fut == Some(fut),
{
    let polled = m.after(Op::Polled(id, Outcome::Pending(fut)));
    law_pending_future_is_put_back(m, id, fut);
    law_invariant_kept(m, Op::Polled(id, Outcome::Pending(fut)));
    law_wake_makes_ready(polled, Op::WakeByRef(id), id);
    law_invariant_kept(polled, Op::WakeByRef(id));
    law_ready_task_is_polled(
        polled.after(Op::WakeByRef(id)),
        ops,
        m.queue.ready.len() as int,
    );
}

/// What a future finishes with goes to its cell, whose waker is handed out and
/// is then no longer on record. The task has no future any more. A result that
/// nobody can claim is handed out.
pub proof fn law_result_goes_to_the_cell<F, T, W>(m: Model<F, T, W>, id: TaskId, output: T)
    requires
        m.valid(),
        m.running(id),
    ensures
        ({
            let outcome = Outcome::Ready(output);
            let after = m.after(Op::Polled(id, outcome));
            let released = m.polled(id, outcome).released(id);
            &&& m.completion_waker(id, outcome) == m.cells[id].state.waker
            &&& after.cells.contains_key(id) <==> m.has_handle(id)
            &&& m.has_handle(id) ==> {
                &&& after.has_handle(id)
                &&& after.cells[id].state.result == Some(output)
                &&& after.cells[id].state.waker is None
                &&& released.cell is None
            }
            &&& !m.has_handle(id) ==> {
                &&& released.cell matches Some(state) && state.result == Some(output)
                    && state.waker is None
            }
            &&& released.fut is None
            &&& !after.unfinished(id)
            &&& after.tasks.contains_key(id) <==> m.queue.ready.contains(id) || m.tasks[id].wakers
                > 0
            &&& after.tasks.contains_key(id) ==> {
                &&& after.tasks[id].fut is None
                &&& !after.tasks[id].running
                &&& after.tasks[id].wakers == m.tasks[id].wakers
            }
            &&& after.queue == m.queue
            &&& after.next == m.next
        }),
{
    broadcast use vstd::seq_lib::to_multiset_contains;

    let outcome = Outcome::Ready(output);
    lemma_after(m, Op::Polled(id, outcome));
    crate::lemmas::lemma_polled(m, id, outcome);
    crate::lemmas::lemma_collect_one(m.polled(id, outcome), id);
}

/// A poll that panics leaves no future and no result, and wakes nobody.
pub proof fn law_panic_leaves_no_result<F, T, W>(m: Model<F, T, W>, id: TaskId)
    requires
        m.valid(),
        m.running(id),
    ensures
        ({
            let outcome = Outcome::<F, T>::Unwound;
            let after = m.after(Op::Polled(id, outcome));
            let released = m.polled(id, outcome).released(id);
            &&& m.completion_waker(id, outcome) is None
            &&& released.fut is None
            &&& released.cell == if m.has_handle(id) {
                None
            } else {
                Some(m.cells[id].state)
            }
            &&& after.cells.contains_key(id) <==> m.has_handle(id)
            &&& m.has_handle(id) ==> after.cells == m.cells
            &&& m.has_handle(id) ==> after.cells[id].state.poll_result() is Pending
            &&& !after.unfinished(id)
            &&& after.tasks.contains_key(id) <==> m.queue.ready.contains(id) || m.tasks[id].wakers
                > 0
            &&& after.tasks.contains_key(id) ==> {
                &&& after.tasks[id].fut is None
                &&& !after.tasks[id].running
                &&& after.tasks[id].wakers == m.tasks[id].wakers
            }
            &&& after.queue == m.queue
            &&& after.next == m.next
        }),
{
    broadcast use vstd::seq_lib::to_multiset_contains;

    let outcome = Outcome::<F, T>::Unwound;
    lemma_after(m, Op::Polled(id, outcome));
    crate::lemmas::lemma_polled(m, id, outcome);
    crate::lemmas::lemma_collect_one(m.polled(id, outcome), id);
}

/// Polling a handle is about its cell alone: a result is taken, a waker that is
/// needed is put on record, and the handle stays.
pub proof fn law_handle_poll_changes_its_cell<F, T, W>(
    m: Model<F, T, W>,
    id: TaskId,
    waker: W,
    will_wake: bool,
)
    requires
        m.valid(),
        m.has_handle(id),
    ensures
        ({
            let before = m.cells[id].state;
            let after = m.after(Op::JoinPoll(id, waker, will_wake));
            &&& after.has_handle(id)
            &&& after.cells[id].state.result is None
            &&& before.result is Some ==> after.cells[id].state.waker == before.waker
            &&& before.result is None ==> after.cells[id].state.waker == if before.waker is Some
                && will_wake {
                before.waker
            } else {
                Some(waker)
            }
            &&& after.cells.remove(id) == m.cells.remove(id)
            &&& after.tasks == m.tasks
            &&& after.queue == m.queue
            &&& after.next == m.next
        }),
{
    let after = m.after(Op::JoinPoll(id, waker, will_wake));
    assert(after.cells.remove(id) =~= m.cells.remove(id));
}

/// Storing a state in a cell is about that cell alone.
pub proof fn law_one_cell_changes<F, T, W>(
    m: Model<F, T, W>,
    id: TaskId,
    state: ShareState<T, W>,
)
    requires
        m.has_handle(id),
    ensures
        ({
            let after = m.with_cell(id, state);
            &&& after.has_handle(id)
            &&& after.cells[id].state == state
            &&& after.cells.remove(id) == m.cells.remove(id)
            &&& after.tasks == m.tasks
            &&& after.queue == m.queue
            &&& after.next == m.next
        }),
{
    assert(m.with_cell(id, state).cells.remove(id) =~= m.cells.remove(id));
}

/// A handle that is given up is gone. The cell of a task that may still finish
/// is kept, waker and all; any other is handed out.
pub proof fn law_detach_gives_up_the_handle<F, T, W>(m: Model<F, T, W>, id: TaskId)
    requires
        m.valid(),
        m.has_handle(id),
    ensures
        ({
            let after = m.after(Op::Detach(id));
            let released = m.detached(id).released(id);
            let may_finish = m.tasks.contains_key(id) && (m.tasks[id].fut is Some
                || m.tasks[id].running);
            &&& !after.has_handle(id)
            &&& after.cells.contains_key(id) <==> may_finish
            &&& may_finish ==> after.cells[id].state == m.cells[id].state && released.cell is None
            &&& !may_finish ==> released.cell == Some(m.cells[id].state)
            &&& released.fut is None
            &&& after.cells.remove(id) == m.cells.remove(id)
            &&& after.tasks == m.tasks
            &&& after.queue == m.queue
            &&& after.next == m.next
        }),
{
    lemma_after(m, Op::Detach(id));
    crate::lemmas::lemma_detached(m, id);
    crate::lemmas::lemma_collect_one(m.detached(id), id);
    assert(m.after(Op::Detach(id)).cells.remove(id) =~= m.cells.remove(id));
}

/// Claiming a result takes its cell away, and nothing else.
pub proof fn law_claim_takes_the_cell<F, T, W>(m: Model<F, T, W>, id: TaskId)
    requires
        m.valid(),
        m.allows(Op::Claim(id)),
    ensures
        ({
            let after = m.after(Op::Claim(id));
            &&& !after.cells.contains_key(id)
            &&& after.cells.insert(id, m.cells[id]) == m.cells
            &&& after.tasks == m.tasks
            &&& after.queue == m.queue
            &&& after.next == m.next
        }),
{
    assert(m.after(Op::Claim(id)).cells.insert(id, m.cells[id]) =~= m.cells);
}

/// The task that an operation names, if it names one.
pub open spec fn concerns<F, T, W>(m: Model<F, T, W>, op: Op<F, T, W>, id: TaskId) -> bool {
    match op {
        Op::Spawn(_) => id == m.next,
        Op::WakeByRef(j)
        | Op::Wake(j)
        | Op::CloneWaker(j)
        | Op::DropWaker(j)
        | Op::Claim(j)
        | Op::Polled(j, _)
        | Op::JoinPoll(j, _, _)
        | Op::Detach(j) => id == j,
        Op::Dispatch | Op::Poison | Op::TakeUnpark => false,
    }
}

/// An operation other than a dispatch leaves every task and every result that
/// it does not name exactly as it is.
pub proof fn law_others_are_untouched<F, T, W>(m: Model<F, T, W>, op: Op<F, T, W>, id: TaskId)
    requires
        m.valid(),
        m.allows(op),
        op !is Dispatch,
        !concerns(m, op, id),
    ensures
        m.after(op).tasks.contains_key(id) <==> m.tasks.contains_key(id),
        m.tasks.contains_key(id) ==> m.after(op).tasks[id] == m.tasks[id],
        m.after(op).cells.contains_key(id) <==> m.cells.contains_key(id),
        m.cells.contains_key(id) ==> m.after(op).cells[id] == m.cells[id],
{
    lemma_after(m, op);
    if op is Poison || op is TakeUnpark {
        assert(m.after(op).tasks == m.tasks);
    }
}

/// Finding the lock poisoned, and taking the request to unpark, are recorded
/// and do nothing else: every entry, every task and every result stays.
pub proof fn law_flags_are_all_that_changes<F, T, W>(m: Model<F, T, W>)
    ensures
        m.after(Op::Poison).queue.poisoned,
        m.after(Op::Poison).queue.notified == m.queue.notified,
        m.after(Op::Poison).queue.ready == m.queue.ready,
        m.after(Op::Poison).tasks == m.tasks,
        m.after(Op::Poison).cells == m.cells,
        m.after(Op::Poison).next == m.next,
        !m.after(Op::TakeUnpark).queue.notified,
        m.after(Op::TakeUnpark).queue.poisoned == m.queue.poisoned,
        m.after(Op::TakeUnpark).queue.ready == m.queue.ready,
        m.after(Op::TakeUnpark).tasks == m.tasks,
        m.after(Op::TakeUnpark).cells == m.cells,
        m.after(Op::TakeUnpark).next == m.next,
{
}

/// A poll goes on until its end is reported, whatever else is done; a dispatch
/// meanwhile takes up no second poll of the task.
pub proof fn law_poll_lasts_until_reported<F, T, W>(m: Model<F, T, W>, op: Op<F, T, W>, id: TaskId)
    requires
        m.valid(),
        m.allows(op),
        m.running(id),
        !(op matches Op::Polled(j, _) && j == id),
    ensures
        m.after(op).running(id),
        m.after(op).tasks[id].fut is None,
        m.after(op).cells.contains_key(id),
{
    law_invariant_kept(m, op);
    assert(m.unfinished(id));
    if op is Dispatch {
        lemma_dispatched(m);
        assert(m.after(op).unfinished(id));
    } else {
        lemma_after(m, op);
    }
    assert(m.after(op).unfinished(id));
}

/// The count of a task's references goes up by one with every clone and every
/// wake-up by reference, down by one with every waker that is dropped, and stays
/// with a wake-up that consumes its waker. No other operation but a dispatch
/// changes it.
pub proof fn law_references_are_counted<F, T, W>(m: Model<F, T, W>, op: Op<F, T, W>, id: TaskId)
    requires
        m.valid(),
        m.allows(op),
        op !is Dispatch,
        !m.queue.poisoned,
        m.tasks.contains_key(id),
        m.after(op).tasks.contains_key(id),
    ensures
        m.after(op).strong(id) == m.strong(id) + (if op == Op::<F, T, W>::CloneWaker(id) || op
            == Op::<F, T, W>::WakeByRef(id) {
            1int
        } else if op == Op::<F, T, W>::DropWaker(id) {
            -1
        } else {
            0
        }),
{
    broadcast use vstd::seq_lib::to_multiset_build;

    lemma_after(m, op);
}

} // verus!
