//! What holds of the parts: the run queue, the states shared with those who
//! wait, and time.

use crate::join::{Poll, ShareState};
use crate::model::Model;
use crate::queue::{QueueModel, TaskId};
use crate::time::{Duration, Instant};
use crate::timer::{TimerEntry, TimerId, TimerShareState};
use crate::timers::TimersModel;
use std::cmp::Ordering;
use vstd::multiset::Multiset;
use vstd::prelude::*;

verus! {

/// A push adds its task behind what is there, unless the queue is poisoned, and
/// always asks for the executor thread to be woken.
pub proof fn law_push_adds_behind(q: QueueModel, task: TaskId)
    ensures
        q.push(task).notified,
        q.push(task).poisoned == q.poisoned,
        q.poisoned ==> q.push(task).ready == q.ready,
        !q.poisoned ==> {
            &&& q.push(task).ready.len() == q.ready.len() + 1
            &&& q.push(task).ready.last() == task
            &&& q.push(task).ready.drop_last() == q.ready
        },
{
    if !q.poisoned {
        assert(q.push(task).ready.drop_last() =~= q.ready);
    }
}

/// A queue that is in order gives out an entry exactly when it has one; a
/// poisoned queue gives out none.
pub proof fn law_nothing_is_held_back(q: QueueModel)
    ensures
        q.poisoned ==> q.is_drained(),
        !q.poisoned ==> (q.is_drained() <==> q.ready =~= Seq::empty()),
{
}

/// A task can be polled exactly if its future is at rest, and is unfinished
/// exactly if the future is at rest or being polled. A waker or a handle is
/// held exactly if it is counted or on record.
pub proof fn law_what_is_held<F, T, W>(m: Model<F, T, W>, id: TaskId)
    ensures
        m.runnable(id) <==> m.tasks.contains_key(id) && m.tasks[id].fut is Some,
        m.running(id) <==> m.tasks.contains_key(id) && m.tasks[id].running,
        m.unfinished(id) <==> m.runnable(id) || m.running(id),
        m.has_waker(id) <==> m.tasks.contains_key(id) && m.tasks[id].wakers > 0,
        m.has_handle(id) <==> m.cells.contains_key(id) && m.cells[id].handle,
{
}

/// The handle of a sleep is held exactly if it is on record.
pub proof fn law_what_is_slept_on<W>(m: TimersModel<W>, id: TimerId)
    ensures
        m.has_handle(id) <==> m.cells.contains_key(id) && m.cells[id].handle,
{
}

/// The count of a task's references is its wakers and, beyond them, its entries
/// on the run queue: there are some exactly if the queue has the task.
pub proof fn law_entries_count_as_references<F, T, W>(m: Model<F, T, W>, id: TaskId)
    ensures
        m.strong(id) >= m.tasks[id].wakers,
        m.strong(id) > m.tasks[id].wakers <==> m.queue.ready.contains(id),
        m.strong(id) <= m.tasks[id].wakers + m.queue.ready.len(),
{
    broadcast use vstd::seq_lib::to_multiset_contains, vstd::seq_lib::to_multiset_len;

    assert(m.queue.ready.to_multiset().count(id) <= m.queue.ready.to_multiset().len());
}

/// Every reference is counted, and counted once: the wakers, and the entries of
/// the run queue that name the task.
pub proof fn law_every_reference_is_counted<F, T, W>(m: Model<F, T, W>, id: TaskId)
    ensures
        m.strong(id) == m.tasks[id].wakers + m.queue.ready.filter(|j: TaskId| j == id).len(),
{
    lemma_count_is_filtered(m.queue.ready, id);
}

/// An element occurs as often as leaving out all others leaves it.
proof fn lemma_count_is_filtered(s: Seq<TaskId>, id: TaskId)
    ensures
        s.to_multiset().count(id) == s.filter(|j: TaskId| j == id).len(),
    decreases s.len(),
{
    broadcast use vstd::seq_lib::to_multiset_build, vstd::seq_lib::to_multiset_contains;

    reveal(Seq::filter);
    if s.len() > 0 {
        lemma_count_is_filtered(s.drop_last(), id);
        assert(s.drop_last().push(s.last()) =~= s);
    }
}

/// Of the waker on record and the one that is offered, one is on record
/// afterwards and the other is handed out: the one on record stays if it is
/// said to wake the same task.
pub proof fn law_no_waker_is_lost<W>(slot: Option<W>, waker: W, will_wake: bool)
    ensures
        crate::join::registered(slot, waker, will_wake) is Some,
        slot is None ==> {
            &&& crate::join::registered(slot, waker, will_wake) == Some(waker)
            &&& crate::join::displaced(slot, waker, will_wake) is None
        },
        slot is Some && will_wake ==> {
            &&& crate::join::registered(slot, waker, will_wake) == slot
            &&& crate::join::displaced(slot, waker, will_wake) == Some(waker)
        },
        slot is Some && !will_wake ==> {
            &&& crate::join::registered(slot, waker, will_wake) == Some(waker)
            &&& crate::join::displaced(slot, waker, will_wake) == slot
        },
{
}

/// Where the comparison is certain, so is what is on record: with no waker
/// there, or one that does not wake the same task, a clone of the one that is
/// offered; otherwise the one that was there.
pub proof fn law_comparison_decides<W: Clone, S: Fn(&W, &W) -> bool>(
    slot: Option<W>,
    waker: &W,
    will_wake: S,
    after: Option<W>,
    unused: Option<W>,
)
    requires
        crate::join::registers(slot, waker, will_wake, after, unused),
    ensures
        after is Some,
        slot is None ==> cloned::<W>(*waker, after->0) && unused is None,
        slot is Some && !call_ensures(will_wake, (&slot->0, waker), true) ==> {
            &&& cloned::<W>(*waker, after->0)
            &&& unused == slot
        },
        slot is Some && !call_ensures(will_wake, (&slot->0, waker), false) ==> {
            &&& after == slot
            &&& unused is None
        },
{
}

/// A result that is there is what a poll gives, and it is then gone; the waker
/// that was offered comes back and the one on record stays.
pub proof fn law_poll_takes_a_result<T, W>(state: ShareState<T, W>, waker: W, will_wake: bool)
    requires
        state.result is Some,
    ensures
        state.poll_result() == Poll::Ready(state.result->0),
        state.after_poll(waker, will_wake).result is None,
        state.after_poll(waker, will_wake).waker == state.waker,
        state.poll_unused(waker, will_wake) == Some(waker),
        state.after_poll(waker, will_wake).poll_result() is Pending,
{
}

/// Without a result a poll is pending and leaves a waker on record: the one
/// offered, or one that is said to wake the same task.
pub proof fn law_poll_leaves_a_waker<T, W>(state: ShareState<T, W>, waker: W, will_wake: bool)
    requires
        state.result is None,
    ensures
        state.poll_result() is Pending,
        state.after_poll(waker, will_wake).result is None,
        state.after_poll(waker, will_wake).waker == Some(waker) || (will_wake
            && state.after_poll(waker, will_wake).waker == state.waker && state.waker is Some),
        state.waker is Some && will_wake ==> state.after_poll(waker, will_wake).waker
            == state.waker,
        state.after_poll(waker, will_wake).waker == Some(waker) && state.waker != Some(waker)
            ==> state.poll_unused(waker, will_wake) == state.waker,
        state.waker is Some && will_wake ==> state.poll_unused(waker, will_wake) == Some(waker),
        !will_wake ==> state.poll_unused(waker, will_wake) == state.waker,
{
}

/// A timer that has fired is ready however often it is polled, and needs no
/// waker; one that has not is pending and has a waker on record afterwards. A
/// poll fires nothing.
pub proof fn law_sleep_is_ready_once_fired<W>(
    state: TimerShareState<W>,
    waker: W,
    will_wake: bool,
)
    ensures
        state.poll_result() is Ready <==> state.fired,
        state.after_poll(waker, will_wake).fired == state.fired,
        state.fired ==> {
            &&& state.after_poll(waker, will_wake) == state
            &&& state.poll_unused(waker, will_wake) == Some(waker)
        },
        !state.fired && state.waker is Some && will_wake ==> {
            &&& state.after_poll(waker, will_wake).waker == state.waker
            &&& state.poll_unused(waker, will_wake) == Some(waker)
        },
        !state.fired && !(state.waker is Some && will_wake) ==> {
            &&& state.after_poll(waker, will_wake).waker == Some(waker)
            &&& state.poll_unused(waker, will_wake) == state.waker
        },
{
}

/// A second is a thousand million nanoseconds, and a nanosecond is one.
pub proof fn law_time_is_counted_in_nanoseconds(a: Instant, b: Instant, c: Duration, d: Duration)
    ensures
        a.total() - b.total() == (a.secs - b.secs) * 1_000_000_000 + (a.nanos - b.nanos),
        c.total() - d.total() == (c.secs - d.secs) * 1_000_000_000 + (c.nanos - d.nanos),
        a.secs == 0 && a.nanos == 0 ==> a.total() == 0,
        c.secs == 0 && c.nanos == 0 ==> c.total() == 0,
        a.wf() <==> a.nanos < 1_000_000_000,
        c.wf() <==> c.nanos < 1_000_000_000,
{
    assert(a.total() - b.total() == (a.secs - b.secs) * 1_000_000_000 + (a.nanos - b.nanos))
        by (nonlinear_arith)
        requires
            a.total() == a.secs * 1_000_000_000 + a.nanos,
            b.total() == b.secs * 1_000_000_000 + b.nanos,
    ;
    assert(c.total() - d.total() == (c.secs - d.secs) * 1_000_000_000 + (c.nanos - d.nanos))
        by (nonlinear_arith)
        requires
            c.total() == c.secs * 1_000_000_000 + c.nanos,
            d.total() == d.secs * 1_000_000_000 + d.nanos,
    ;
}

/// What is left until a point in time leads there, if it is still to come, and
/// is nothing if it is not.
pub proof fn law_time_left_leads_there(now: Instant, then: Instant)
    ensures
        then.total() >= now.total() ==> now.total() + crate::time::nanos_left(now, then)
            == then.total(),
        then.total() <= now.total() ==> crate::time::nanos_left(now, then) == 0,
        crate::time::nanos_left(now, then) >= 0,
{
}

/// Every end of a sleep that whole seconds can count to is in range, and none
/// further off.
pub proof fn law_range_of_sleeps(now: Instant, duration: Duration)
    requires
        now.wf(),
        duration.wf(),
    ensures
        now.secs + duration.secs + 1 < u64::MAX ==> now.total() + duration.total()
            <= crate::time::last_reachable(),
        now.secs + duration.secs >= u64::MAX ==> now.total() + duration.total()
            > crate::time::last_reachable(),
        now.secs + duration.secs + 1 == u64::MAX ==> (now.total() + duration.total()
            <= crate::time::last_reachable() <==> now.nanos + duration.nanos < 1_000_000_000),
{
}

/// Points in time compare by their seconds, and by the rest where these are the
/// same; entries compare as their deadlines do.
pub proof fn law_seconds_decide_first(a: TimerEntry, b: TimerEntry)
    ensures
        a.deadline.secs < b.deadline.secs ==> a.deadline.before(b.deadline)
            && !b.deadline.before(a.deadline),
        a.deadline.secs == b.deadline.secs ==> (a.deadline.before(b.deadline)
            <==> a.deadline.nanos < b.deadline.nanos),
        vstd::std_specs::cmp::PartialEqSpec::eq_spec(&a, &b) <==> a.deadline.secs
            == b.deadline.secs && a.deadline.nanos == b.deadline.nanos,
        vstd::std_specs::cmp::PartialOrdSpec::partial_cmp_spec(&a, &b) == Some(Ordering::Less)
            <==> a.deadline.before(b.deadline),
        vstd::std_specs::cmp::PartialOrdSpec::partial_cmp_spec(&a, &b) == Some(Ordering::Equal)
            <==> a.deadline.secs == b.deadline.secs && a.deadline.nanos == b.deadline.nanos,
        vstd::std_specs::cmp::PartialOrdSpec::partial_cmp_spec(&a, &b) == Some(Ordering::Greater)
            <==> b.deadline.before(a.deadline),
{
}

/// Entries compare as their deadlines do: equal exactly if due at once, less
/// exactly if due before.
pub proof fn law_entries_compare_by_deadline(a: TimerEntry, b: TimerEntry)
    requires
        a.deadline.wf(),
        b.deadline.wf(),
    ensures
        vstd::std_specs::cmp::PartialEqSpec::eq_spec(&a, &b) <==> a.deadline.total()
            == b.deadline.total(),
        vstd::std_specs::cmp::PartialOrdSpec::partial_cmp_spec(&a, &b) == Some(Ordering::Less)
            <==> a.deadline.total() < b.deadline.total(),
        vstd::std_specs::cmp::PartialOrdSpec::partial_cmp_spec(&a, &b) == Some(Ordering::Equal)
            <==> a.deadline.total() == b.deadline.total(),
        vstd::std_specs::cmp::PartialOrdSpec::partial_cmp_spec(&a, &b) == Some(Ordering::Greater)
            <==> a.deadline.total() > b.deadline.total(),
        a.deadline.before(b.deadline) <==> a.deadline.total() < b.deadline.total(),
        a.deadline == b.deadline <==> a.deadline.total() == b.deadline.total(),
{
    crate::time::lemma_before_is_less(a.deadline, b.deadline);
    crate::time::lemma_before_is_less(b.deadline, a.deadline);
}

/// The earliest of the pending timers is one of them, and none is due before
/// it; any that none is due before is the earliest.
pub proof fn law_earliest_is_due_first(pending: Multiset<TimerEntry>, entry: TimerEntry)
    ensures
        crate::heap::is_earliest(pending, entry) <==> pending.contains(entry) && forall|
            other: TimerEntry,
        | #[trigger]
            pending.contains(other) ==> {
                ||| entry.deadline.secs < other.deadline.secs
                ||| entry.deadline.secs == other.deadline.secs && entry.deadline.nanos
                    <= other.deadline.nanos
            },
        (forall|e: TimerEntry| #[trigger] pending.contains(e) ==> e.deadline.wf()) ==> (
        crate::heap::is_earliest(pending, entry) <==> pending.contains(entry) && forall|
            other: TimerEntry,
        | #[trigger]
            pending.contains(other) ==> entry.deadline.total() <= other.deadline.total()),
{
    assert forall|other: TimerEntry| #[trigger] pending.contains(
        other,
    ) implies (crate::heap::no_later(entry, other) <==> {
        ||| entry.deadline.secs < other.deadline.secs
        ||| entry.deadline.secs == other.deadline.secs && entry.deadline.nanos
            <= other.deadline.nanos
    }) by {
        law_seconds_decide_first(other, entry);
        law_seconds_decide_first(entry, other);
    }
    if forall|e: TimerEntry| #[trigger] pending.contains(e) ==> e.deadline.wf() {
        assert forall|other: TimerEntry| pending.contains(entry) && #[trigger] pending.contains(
            other,
        ) implies (crate::heap::no_later(entry, other) <==> entry.deadline.total()
            <= other.deadline.total()) by {
            crate::time::lemma_before_is_less(other.deadline, entry.deadline);
        }
    }
}

} // verus!
