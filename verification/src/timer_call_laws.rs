//! What a call comes to, in terms of what it was given and what it returned:
//! time, the timers, and those who sleep.

use crate::heap::TimerHeap;
use crate::join::Poll;
use crate::time::{Duration, Instant};
use crate::timer::{TimerEntry, TimerId, TimerShareState};
use crate::timers::{sleep, Event, InvalidDuration, Sleep, TimerAction, Timers, Wait};
use std::cmp::Ordering;
use vstd::multiset::Multiset;
use vstd::prelude::*;

verus! {

/// At first there is no timer.
pub proof fn law_new_timers_are_none<W>(timers: Timers<W>)
    requires
        call_ensures(Timers::<W>::new, (), timers),
    ensures
        timers.wf(),
        timers@.heap.len() == 0,
        timers@.sent == Set::<TimerEntry>::empty(),
        timers@.cells == Map::<TimerId, crate::timers::TimerCell<W>>::empty(),
        timers@.next == 0,
{
}

/// Another sleep can be started exactly if there is an id left for its timer.
pub proof fn law_timer_ids_run_out<W>(timers: &Timers<W>, can: bool)
    requires
        call_ensures(Timers::<W>::can_sleep, (timers,), can),
    ensures
        can <==> timers@.next < u64::MAX,
{
}

/// A sleep is started exactly if the clock can count to its end. It has a new
/// timer, which has not fired, on which nobody waits yet, and which is due as
/// long after now as was asked for; the entry that is to reach the timer thread
/// names it. No other timer changes. A sleep that is refused changes nothing.
pub proof fn law_sleep_starts_a_timer<W>(
    timers: &mut Timers<W>,
    now: Instant,
    duration: Duration,
    in_range: bool,
    started: Result<(Sleep, TimerEntry), InvalidDuration>,
)
    requires
        old(timers).wf(),
        old(timers)@.next < u64::MAX,
        now.nanos < 1_000_000_000,
        duration.nanos < 1_000_000_000,
        call_ensures(sleep::<W>, (timers, now, duration, in_range), started),
    ensures
        final(timers).wf(),
        ({
            let before = old(timers)@;
            let after = final(timers)@;
            let carry: int = if now.nanos + duration.nanos >= 1_000_000_000 {
                1
            } else {
                0
            };
            &&& started is Ok <==> in_range && now.secs + duration.secs + carry < u64::MAX
            &&& started is Err ==> after == before
            &&& started matches Ok((sleep, entry)) ==> {
                let id = sleep.timer();
                &&& id == before.next
                &&& entry.share_state == id
                &&& entry.deadline.secs == now.secs + duration.secs + carry
                &&& entry.deadline.nanos == now.nanos + duration.nanos - carry * 1_000_000_000
                &&& !before.cells.contains_key(id)
                &&& after.cells.contains_key(id)
                &&& !after.cells[id].state.fired
                &&& after.cells[id].state.waker is None
                &&& after.cells[id].handle
                &&& after.cells[id].deadline@ == entry.deadline
                &&& after.cells.remove(id) == before.cells
                &&& !before.sent.contains(entry)
                &&& after.sent == before.sent.insert(entry)
                &&& after.heap == before.heap
                &&& after.next == before.next + 1
            }
        }),
{
    let m = old(timers)@;
    if let Ok((sleep, entry)) = started {
        crate::timer_laws::law_new_sleep_is_pending(m, entry.deadline);
    }
}

/// An entry that the timer thread takes in is one more of those it waits for,
/// and no longer on its way. It goes on waiting; no sleep changes.
pub proof fn law_entry_is_taken_in<W>(
    timers: &mut Timers<W>,
    entry: TimerEntry,
    action: TimerAction<W>,
)
    requires
        old(timers).wf(),
        old(timers)@.sent.contains(entry),
        call_ensures(Timers::<W>::handle, (timers, Event::Entry(entry)), action),
    ensures
        final(timers).wf(),
        action is Continue,
        !old(timers)@.heap.contains(entry),
        final(timers)@.heap == old(timers)@.heap.insert(entry),
        final(timers)@.sent == old(timers)@.sent.remove(entry),
        final(timers)@.cells == old(timers)@.cells,
        final(timers)@.next == old(timers)@.next,
{
    crate::timer_laws::law_received_entry_is_pending(old(timers)@, entry);
}

/// When the time is up a pending timer fires than which none is due before. The
/// waker on record comes out, and a sleep that somebody holds is over; a timer
/// that nobody sleeps on is forgotten. No other timer changes.
pub proof fn law_timeout_fires_the_earliest<W>(timers: &mut Timers<W>, action: TimerAction<W>)
    requires
        old(timers).wf(),
        old(timers)@.heap.len() > 0,
        call_ensures(Timers::<W>::handle, (timers, Event::Timeout), action),
    ensures
        final(timers).wf(),
        action is Fire,
        ({
            let before = old(timers)@;
            let after = final(timers)@;
            let entry = action->entry;
            let id = entry.share_state;
            &&& before.heap.contains(entry)
            &&& forall|other: TimerEntry| #[trigger]
                before.heap.contains(other) ==> entry.deadline.total() <= other.deadline.total()
            &&& before.cells.contains_key(id)
            &&& before.cells[id].deadline@ == entry.deadline
            &&& !before.cells[id].state.fired
            &&& action->waker == before.cells[id].state.waker
            &&& !after.heap.contains(entry)
            &&& after.heap.insert(entry) == before.heap
            &&& after.sent == before.sent
            &&& before.cells[id].handle ==> {
                &&& after.cells.contains_key(id)
                &&& after.cells[id].handle
                &&& after.cells[id].state.fired
                &&& after.cells[id].state.waker is None
                &&& after.cells[id].deadline == before.cells[id].deadline
            }
            &&& !before.cells[id].handle ==> !after.cells.contains_key(id)
            &&& after.cells.remove(id) == before.cells.remove(id)
            &&& after.next == before.next
        }),
{
    let m = old(timers)@;
    assert(m.heap != Multiset::<TimerEntry>::empty());
    let entry = action->entry;
    crate::timer_laws::law_fired_timer_ends_its_sleep(m, entry);
    assert forall|other: TimerEntry| #[trigger] m.heap.contains(
        other,
    ) implies other.deadline.wf() by {
        assert(m.cells.contains_key(other.share_state));
    }
    crate::state_laws::law_earliest_is_due_first(m.heap, entry);
}

/// When no entry can arrive any more the timer thread ends, with a panic exactly
/// if no timer is pending. Nothing changes.
pub proof fn law_disconnected_ends<W>(timers: &mut Timers<W>, action: TimerAction<W>)
    requires
        old(timers).wf(),
        call_ensures(Timers::<W>::handle, (timers, Event::Disconnected), action),
    ensures
        final(timers).wf(),
        action is Fail <==> old(timers)@.heap.len() == 0,
        action is Stop <==> old(timers)@.heap.len() > 0,
        final(timers)@ == old(timers)@,
{
    broadcast use vstd::multiset::group_multiset_axioms;

    if old(timers)@.heap.len() == 0 {
        assert(old(timers)@.heap =~= Multiset::empty());
    }
}

/// The timer thread waits without end exactly if no timer is pending; otherwise
/// until the earliest deadline, which it reaches by waiting, or not at all if
/// that is past.
pub proof fn law_wait_lasts_until_the_earliest<W>(
    timers: &Timers<W>,
    now: Instant,
    wait: Wait,
    head: TimerEntry,
)
    requires
        timers.wf(),
        now.nanos < 1_000_000_000,
        call_ensures(Timers::<W>::wait, (timers, now), wait),
    ensures
        wait is Recv <==> timers@.heap.len() == 0,
        timers@.heap.contains(head) && (forall|other: TimerEntry| #[trigger]
            timers@.heap.contains(other) ==> head.deadline.total() <= other.deadline.total()) ==> {
            &&& wait is RecvTimeout
            &&& wait->RecvTimeout_0.nanos < 1_000_000_000
            &&& head.deadline.total() >= now.total() ==> now.total() + wait->RecvTimeout_0.total()
                == head.deadline.total()
            &&& head.deadline.total() <= now.total() ==> wait->RecvTimeout_0.total() == 0
        },
{
    broadcast use vstd::multiset::group_multiset_axioms;

    let m = timers@;
    if m.heap.len() == 0 {
        assert(m.heap =~= Multiset::empty());
    }
    assert forall|other: TimerEntry| #[trigger] m.heap.contains(
        other,
    ) implies other.deadline.wf() by {
        assert(m.cells.contains_key(other.share_state));
    }
    crate::state_laws::law_earliest_is_due_first(m.heap, head);
    if m.heap.contains(head) {
        assert(m.heap.len() > 0) by {
            assert(m.heap.remove(head).len() == m.heap.len() - 1);
        }
    }
}

/// Once the first sleep's entry has been taken in, the timer thread waits for
/// exactly what is left of that sleep.
pub proof fn law_first_sleep_is_waited_for<W>(
    fresh: Timers<W>,
    asleep: &mut Timers<W>,
    taken: &mut Timers<W>,
    now: Instant,
    duration: Duration,
    in_range: bool,
    started: Result<(Sleep, TimerEntry), InvalidDuration>,
    action: TimerAction<W>,
    later: Instant,
    wait: Wait,
)
    requires
        call_ensures(Timers::<W>::new, (), fresh),
        *old(asleep) == fresh,
        now.wf(),
        duration.wf(),
        later.wf(),
        call_ensures(sleep::<W>, (asleep, now, duration, in_range), started),
        started is Ok,
        *old(taken) == *final(asleep),
        call_ensures(Timers::<W>::handle, (taken, Event::Entry(started->Ok_0.1)), action),
        call_ensures(Timers::<W>::wait, (&*final(taken), later), wait),
    ensures
        wait is RecvTimeout,
        later.total() <= now.total() + duration.total() ==> later.total()
            + wait->RecvTimeout_0.total() == now.total() + duration.total(),
        later.total() >= now.total() + duration.total() ==> wait->RecvTimeout_0.total() == 0,
{
    let entry = started->Ok_0.1;
    let m = final(taken)@;
    assert(m.heap == Multiset::<TimerEntry>::empty().insert(entry));
    assert(m.heap.contains(entry));
    law_wait_lasts_until_the_earliest(&*final(taken), later, wait, entry);
    crate::state_laws::law_time_is_counted_in_nanoseconds(now, later, duration, duration);
}

/// The handle of a sleep names its timer.
pub proof fn law_sleep_names_its_timer<W>(
    timers: &mut Timers<W>,
    now: Instant,
    duration: Duration,
    in_range: bool,
    started: (Sleep, TimerEntry),
    id: TimerId,
)
    requires
        call_ensures(sleep::<W>, (timers, now, duration, in_range), Ok(started)),
        call_ensures(Sleep::id, (&started.0,), id),
    ensures
        id == old(timers)@.next,
        id == started.1.share_state,
{
}

/// A sleep that is polled is ready exactly if its timer has fired, and the waker
/// that was offered then comes back. Otherwise a waker is on record afterwards,
/// the one that was there if it is said to wake the same task, and the other
/// comes back. No poll fires a timer, and nothing else changes.
pub proof fn law_polling_a_sleep<W>(
    sleep: &mut Sleep,
    timers: &mut Timers<W>,
    waker: W,
    will_wake: bool,
    polled: (Poll<()>, Option<W>),
)
    requires
        old(timers).wf(),
        old(timers)@.has_handle(old(sleep).timer()),
        call_ensures(Sleep::poll_with::<W>, (sleep, timers, waker, will_wake), polled),
    ensures
        *final(sleep) == *old(sleep),
        final(timers).wf(),
        ({
            let id = old(sleep).timer();
            let before = old(timers)@;
            let after = final(timers)@;
            let state = before.cells[id].state;
            let keep = state.waker is Some && will_wake;
            &&& polled.0 is Ready <==> state.fired
            &&& after.cells.contains_key(id)
            &&& after.cells[id].handle
            &&& after.cells[id].deadline == before.cells[id].deadline
            &&& after.cells[id].state.fired == state.fired
            &&& state.fired ==> after.cells[id].state.waker is None && polled.1 == Some(waker)
            &&& !state.fired && keep ==> {
                &&& after.cells[id].state.waker == state.waker
                &&& polled.1 == Some(waker)
            }
            &&& !state.fired && !keep ==> {
                &&& after.cells[id].state.waker == Some(waker)
                &&& polled.1 == state.waker
            }
            &&& after.cells.remove(id) == before.cells.remove(id)
            &&& after.heap == before.heap
            &&& after.sent == before.sent
            &&& after.next == before.next
        }),
{
    let id = old(sleep).timer();
    crate::timer_laws::law_sleep_poll_changes_its_cell(old(timers)@, id, waker, will_wake);
}

/// A sleep that is polled with a way to compare wakers is ready exactly if its
/// timer has fired. Otherwise a waker is on record afterwards: the one that was
/// there, if the comparison can only say so, or a clone of the one that was
/// offered, if it cannot. Nothing else changes.
pub proof fn law_polling_a_sleep_by_comparison<W: Clone, S: Fn(&W, &W) -> bool>(
    sleep: &mut Sleep,
    timers: &mut Timers<W>,
    waker: &W,
    will_wake: S,
    polled: (Poll<()>, Option<W>),
)
    requires
        old(timers).wf(),
        old(timers)@.has_handle(old(sleep).timer()),
        call_ensures(Sleep::poll::<W, S>, (sleep, timers, waker, will_wake), polled),
    ensures
        *final(sleep) == *old(sleep),
        final(timers).wf(),
        ({
            let id = old(sleep).timer();
            let before = old(timers)@;
            let after = final(timers)@;
            let state = before.cells[id].state;
            let slot = after.cells[id].state.waker;
            &&& polled.0 is Ready <==> state.fired
            &&& after.cells.contains_key(id)
            &&& after.cells[id].handle
            &&& after.cells[id].deadline == before.cells[id].deadline
            &&& after.cells[id].state.fired == state.fired
            &&& state.fired ==> slot is None && polled.1 is None
            &&& !state.fired ==> slot is Some
            &&& !state.fired && (state.waker is None || !call_ensures(
                will_wake,
                (&state.waker->0, waker),
                true,
            )) ==> cloned::<W>(*waker, slot->0) && polled.1 == state.waker
            &&& !state.fired && state.waker is Some && !call_ensures(
                will_wake,
                (&state.waker->0, waker),
                false,
            ) ==> slot == state.waker && polled.1 is None
            &&& after.cells.remove(id) == before.cells.remove(id)
            &&& after.heap == before.heap
            &&& after.sent == before.sent
            &&& after.next == before.next
        }),
{
    let m = old(timers)@;
    let id = old(sleep).timer();
    crate::timer_laws::law_one_timer_changes(m, id, final(timers)@.cells[id].state);
}

/// A waker is needed for a poll exactly if the timer has not fired, and there is
/// no waker that is said to wake the right task.
pub proof fn law_waker_is_needed_until_fired<W, S: Fn(&W) -> bool>(
    sleep: &Sleep,
    timers: &Timers<W>,
    will_wake: S,
    needed: bool,
)
    requires
        timers.wf(),
        timers@.has_handle(sleep.timer()),
        call_ensures(Sleep::needs_waker::<W, S>, (sleep, timers, will_wake), needed),
    ensures
        ({
            let state = timers@.cells[sleep.timer()].state;
            &&& state.fired ==> !needed
            &&& !state.fired && state.waker is None ==> needed
            &&& !state.fired && state.waker is Some && needed ==> call_ensures(
                will_wake,
                (&state.waker->0,),
                false,
            )
            &&& !state.fired && state.waker is Some && !needed ==> call_ensures(
                will_wake,
                (&state.waker->0,),
                true,
            )
        }),
{
}

/// A sleep that is given up leaves its timer pending or on its way, waker and
/// all, if it has not fired; one that has fired is forgotten. No other timer
/// changes.
pub proof fn law_giving_up_a_sleep<W>(sleep: Sleep, timers: &mut Timers<W>)
    requires
        old(timers).wf(),
        old(timers)@.has_handle(sleep.timer()),
        call_ensures(Sleep::abandon::<W>, (sleep, timers), ()),
    ensures
        final(timers).wf(),
        ({
            let id = sleep.timer();
            let before = old(timers)@;
            let after = final(timers)@;
            &&& after.cells.contains_key(id) <==> !before.cells[id].state.fired
            &&& !before.cells[id].state.fired ==> {
                &&& !after.cells[id].handle
                &&& after.cells[id].state == before.cells[id].state
                &&& after.cells[id].deadline == before.cells[id].deadline
            }
            &&& after.cells.remove(id) == before.cells.remove(id)
            &&& after.heap == before.heap
            &&& after.sent == before.sent
            &&& after.next == before.next
        }),
{
    crate::timer_laws::law_abandoned_timer_still_fires(old(timers)@, sleep.timer());
}

/// A timer starts out not fired; firing it hands out the waker on record, and
/// every poll after that is ready and hands back the waker it was offered.
pub proof fn law_fired_state_is_ready<W>(
    fresh: TimerShareState<W>,
    fired: &mut TimerShareState<W>,
    polled: &mut TimerShareState<W>,
    woken: Option<W>,
    waker: W,
    will_wake: bool,
    result: (Poll<()>, Option<W>),
)
    requires
        call_ensures(TimerShareState::<W>::new, (), fresh),
        call_ensures(TimerShareState::<W>::fire, (fired,), woken),
        *old(polled) == *final(fired),
        call_ensures(TimerShareState::<W>::poll_with, (polled, waker, will_wake), result),
    ensures
        !fresh.fired,
        fresh.waker is None,
        woken == old(fired).waker,
        final(fired).fired,
        final(fired).waker is None,
        result.0 is Ready,
        result.1 == Some(waker),
        *final(polled) == *old(polled),
{
}

/// Polling a timer that has not fired leaves one waker on record and hands the
/// other out.
pub proof fn law_unfired_state_keeps_one_waker<W>(
    state: &mut TimerShareState<W>,
    waker: W,
    will_wake: bool,
    polled: (Poll<()>, Option<W>),
)
    requires
        !old(state).fired,
        call_ensures(TimerShareState::<W>::poll_with, (state, waker, will_wake), polled),
    ensures
        polled.0 is Pending,
        !final(state).fired,
        old(state).waker is Some && will_wake ==> final(state).waker == old(state).waker
            && polled.1 == Some(waker),
        !(old(state).waker is Some && will_wake) ==> final(state).waker == Some(waker) && polled.1
            == old(state).waker,
{
}

/// A poll that compares wakers is ready exactly if the timer has fired, and then
/// changes nothing. Otherwise a waker is on record afterwards: the one that was
/// there, if the comparison can only say so, or a clone of the one that was
/// offered, if it cannot.
pub proof fn law_timer_poll_by_comparison<W: Clone, S: Fn(&W, &W) -> bool>(
    state: &mut TimerShareState<W>,
    waker: &W,
    will_wake: S,
    polled: (Poll<()>, Option<W>),
)
    requires
        call_ensures(TimerShareState::<W>::poll::<S>, (state, waker, will_wake), polled),
    ensures
        polled.0 is Ready <==> old(state).fired,
        final(state).fired == old(state).fired,
        old(state).fired ==> final(state).waker == old(state).waker && polled.1 is None,
        !old(state).fired ==> final(state).waker is Some,
        !old(state).fired && (old(state).waker is None || !call_ensures(
            will_wake,
            (&old(state).waker->0, waker),
            true,
        )) ==> cloned::<W>(*waker, final(state).waker->0) && polled.1 == old(state).waker,
        !old(state).fired && old(state).waker is Some && !call_ensures(
            will_wake,
            (&old(state).waker->0, waker),
            false,
        ) ==> final(state).waker == old(state).waker && polled.1 is None,
{
}

/// Points in time and lengths of time are what they are made of.
pub proof fn law_times_are_what_they_are_made_of(
    secs: u64,
    nanos: u32,
    instant: Instant,
    duration: Duration,
)
    requires
        nanos < 1_000_000_000,
        call_ensures(Instant::new, (secs, nanos), instant),
        call_ensures(Duration::new, (secs, nanos), duration),
    ensures
        instant.secs == secs,
        instant.nanos == nanos,
        duration.secs == secs,
        duration.nanos == nanos,
{
}

/// A point in time can be reached exactly if its seconds can be counted, short
/// of the last; the nanoseconds carry over.
pub proof fn law_adding_carries_over(start: Instant, duration: Duration, later: Option<Instant>)
    requires
        start.nanos < 1_000_000_000,
        duration.nanos < 1_000_000_000,
        call_ensures(Instant::checked_add, (&start, duration), later),
    ensures
        ({
            let carry: int = if start.nanos + duration.nanos >= 1_000_000_000 {
                1
            } else {
                0
            };
            &&& later is Some <==> start.secs + duration.secs + carry < u64::MAX
            &&& later is Some ==> {
                &&& later->0.secs == start.secs + duration.secs + carry
                &&& later->0.nanos == start.nanos + duration.nanos - carry * 1_000_000_000
            }
        }),
{
}

/// What was added to a point in time is what it then lies after it, and it does
/// not lie before it.
pub proof fn law_time_added_has_passed(
    start: Instant,
    duration: Duration,
    later: Instant,
    elapsed: Duration,
    back: Duration,
)
    requires
        start.wf(),
        duration.wf(),
        call_ensures(Instant::checked_add, (&start, duration), Some(later)),
        call_ensures(Instant::saturating_duration_since, (&later, start), elapsed),
        call_ensures(Instant::saturating_duration_since, (&start, later), back),
    ensures
        elapsed == duration,
        back.secs == 0,
        back.nanos == 0,
{
}

/// Of two points in time the seconds decide which is earlier, and where these
/// are the same the rest does; entries compare as their deadlines do.
pub proof fn law_order_of_points_in_time(
    a: TimerEntry,
    b: TimerEntry,
    order: Ordering,
    entries: Ordering,
)
    requires
        call_ensures(Instant::order, (&a.deadline, &b.deadline), order),
        call_ensures(TimerEntry::cmp, (&a, &b), entries),
    ensures
        entries == order,
        order == Ordering::Less <==> a.deadline.secs < b.deadline.secs || (a.deadline.secs
            == b.deadline.secs && a.deadline.nanos < b.deadline.nanos),
        order == Ordering::Equal <==> a.deadline.secs == b.deadline.secs && a.deadline.nanos
            == b.deadline.nanos,
        order == Ordering::Greater <==> a.deadline.secs > b.deadline.secs || (a.deadline.secs
            == b.deadline.secs && a.deadline.nanos > b.deadline.nanos),
{
    crate::state_laws::law_seconds_decide_first(a, b);
    crate::state_laws::law_seconds_decide_first(b, a);
}

/// A heap of timers is empty at first, gains what is pushed, and loses what is
/// popped: one than which none is due before, as looking shows it too.
pub proof fn law_heap_gives_out_the_earliest(
    fresh: TimerHeap,
    pushed: &mut TimerHeap,
    popped: &mut TimerHeap,
    entry: TimerEntry,
    top: Option<TimerEntry>,
    seen: Option<TimerEntry>,
    empty: bool,
)
    requires
        call_ensures(TimerHeap::new, (), fresh),
        call_ensures(TimerHeap::push, (pushed, entry), ()),
        call_ensures(TimerHeap::pop, (popped,), top),
        call_ensures(TimerHeap::peek, (&*old(popped),), seen),
        call_ensures(TimerHeap::is_empty, (&*old(popped),), empty),
    ensures
        fresh@.len() == 0,
        final(pushed)@ == old(pushed)@.insert(entry),
        empty <==> old(popped)@.len() == 0,
        top is None <==> empty,
        seen is None <==> empty,
        top is None ==> final(popped)@ == old(popped)@,
        top is Some ==> {
            &&& old(popped)@.contains(top->0)
            &&& final(popped)@ == old(popped)@.remove(top->0)
            &&& seen->0.deadline == top->0.deadline
            &&& forall|other: TimerEntry| #[trigger]
                old(popped)@.contains(other) ==> {
                    ||| top->0.deadline.secs < other.deadline.secs
                    ||| top->0.deadline.secs == other.deadline.secs && top->0.deadline.nanos
                        <= other.deadline.nanos
                }
        },
{
    broadcast use vstd::multiset::group_multiset_axioms;

    if top is Some {
        crate::state_laws::law_earliest_is_due_first(old(popped)@, top->0);
        crate::state_laws::law_earliest_is_due_first(old(popped)@, seen->0);
        assert(old(popped)@.contains(top->0));
    }
}

} // verus!
