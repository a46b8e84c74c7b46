//! What holds of the timers over any number of operations, in any order.

use crate::time::{Duration, Instant};
use crate::timer::{TimerEntry, TimerId, TimerShareState};
use crate::timers::TimersModel;
use vstd::prelude::*;

verus! {

/// An operation on the timers.
pub enum TimerOp<W> {
    /// [`sleep`](crate::sleep) with this deadline.
    Start(Instant),
    /// [`Timers::handle`](crate::Timers::handle) with an entry.
    Receive(TimerEntry),
    /// [`Timers::handle`](crate::Timers::handle) with a timeout that fires this
    /// entry.
    Fire(TimerEntry),
    /// [`Sleep::poll`](crate::Sleep::poll).
    Poll(TimerId, W, bool),
    /// [`Sleep::abandon`](crate::Sleep::abandon).
    Abandon(TimerId),
}

impl<W> TimersModel<W> {
    /// Whether the operation may be performed.
    pub open spec fn allows(self, op: TimerOp<W>) -> bool {
        match op {
            TimerOp::Start(deadline) => self.next < u64::MAX && deadline.wf(),
            TimerOp::Receive(entry) => self.sent.contains(entry),
            TimerOp::Fire(entry) => crate::heap::is_earliest(self.heap, entry),
            TimerOp::Poll(id, _, _) | TimerOp::Abandon(id) => self.has_handle(id),
        }
    }

    /// The timers after the operation.
    pub open spec fn after(self, op: TimerOp<W>) -> Self {
        match op {
            TimerOp::Start(deadline) => self.started(deadline),
            TimerOp::Receive(entry) => self.received(entry),
            TimerOp::Fire(entry) => self.fired(entry),
            TimerOp::Poll(id, waker, will_wake) => self.sleep_polled(id, waker, will_wake),
            TimerOp::Abandon(id) => self.abandoned(id),
        }
    }

    /// Whether the operations may be performed one after the other.
    pub open spec fn allows_all(self, ops: Seq<TimerOp<W>>) -> bool
        decreases ops.len(),
    {
        ops.len() == 0 || (self.allows(ops[0]) && self.after(ops[0]).allows_all(ops.drop_first()))
    }

    /// The timers after the operations.
    pub open spec fn after_all(self, ops: Seq<TimerOp<W>>) -> Self
        decreases ops.len(),
    {
        if ops.len() == 0 {
            self
        } else {
            self.after(ops[0]).after_all(ops.drop_first())
        }
    }
}

/// Every operation keeps the invariant of the timers.
pub proof fn law_timer_invariant_kept<W>(m: TimersModel<W>, op: TimerOp<W>)
    requires
        m.valid(),
        m.allows(op),
    ensures
        m.after(op).valid(),
{
    let after = m.after(op);
    match op {
        TimerOp::Start(deadline) => {
            let id = m.next as TimerId;
            assert(!m.cells.contains_key(id));
            assert(!m.heap.contains(TimerEntry { deadline, share_state: id }));
            assert forall|j: TimerId| j != id implies after.entry(j) == m.entry(j) by {}
        },
        TimerOp::Receive(entry) => m.lemma_received(entry),
        TimerOp::Fire(entry) => m.lemma_fired(entry),
        TimerOp::Poll(id, waker, will_wake) => {
            assert forall|j: TimerId| after.entry(j) == m.entry(j) by {}
        },
        TimerOp::Abandon(id) => {
            assert forall|j: TimerId| after.cells.contains_key(j) implies after.entry(j) == m.entry(
                j,
            ) by {}
        },
    }
}

/// No timers at all satisfy the invariant.
pub proof fn law_no_timers_is_valid<W>()
    ensures
        TimersModel::<W>::initial().valid(),
{
}

/// However the timers are used, their invariant holds.
pub proof fn law_timer_invariant_always<W>(m: TimersModel<W>, ops: Seq<TimerOp<W>>)
    requires
        m.valid(),
        m.allows_all(ops),
    ensures
        m.after_all(ops).valid(),
    decreases ops.len(),
{
    if ops.len() > 0 {
        law_timer_invariant_kept(m, ops[0]);
        law_timer_invariant_always(m.after(ops[0]), ops.drop_first());
    }
}

/// Polling a sleep with a waker and a way to compare wakers is one of the
/// operations: whatever the comparison and the clone came to, the timers are as
/// after [`TimerOp::Poll`].
pub proof fn law_sleep_poll_is_an_operation<W: Clone, S: Fn(&W, &W) -> bool>(
    m: TimersModel<W>,
    id: TimerId,
    waker: &W,
    will_wake: S,
    after: TimerShareState<W>,
    unused: Option<W>,
)
    requires
        m.has_handle(id),
        after.fired == m.cells[id].state.fired,
        m.cells[id].state.fired ==> after == m.cells[id].state,
        !m.cells[id].state.fired ==> crate::join::registers(
            m.cells[id].state.waker,
            waker,
            will_wake,
            after.waker,
            unused,
        ),
    ensures
        exists|copy: W, same: bool|
            #[trigger] m.after(TimerOp::Poll(id, copy, same)) == m.with_cell(id, after),
{
    let state = m.cells[id].state;
    if !state.fired && !(state.waker is Some && after.waker == state.waker) {
        assert(m.after(TimerOp::Poll(id, after.waker->0, false)) =~= m.with_cell(id, after));
    } else {
        assert(m.after(TimerOp::Poll(id, *waker, true)) =~= m.with_cell(id, after));
    }
}

/// Of two timers one is due before the other or they are due at once, and the
/// order carries over from one pair to the next.
pub proof fn law_entries_are_ordered(a: TimerEntry, b: TimerEntry, c: TimerEntry)
    ensures
        a.deadline.before(b.deadline) ==> !b.deadline.before(a.deadline),
        !a.deadline.before(a.deadline),
        a.deadline.before(b.deadline) || a.deadline == b.deadline || b.deadline.before(a.deadline),
        a.deadline.before(b.deadline) && b.deadline.before(c.deadline) ==> a.deadline.before(
            c.deadline,
        ),
{
}

/// Whether none of the operations is one of the timer thread's own.
pub open spec fn by_others<W>(ops: Seq<TimerOp<W>>) -> bool {
    forall|k: int| 0 <= k < ops.len() ==> (#[trigger] ops[k]) !is Receive && ops[k] !is Fire
}

/// While the timer thread waits, what it waits for stays as it is: others start
/// sleeps, poll them and give them up.
pub proof fn law_pending_unchanged_during_wait<W>(m: TimersModel<W>, ops: Seq<TimerOp<W>>)
    requires
        m.valid(),
        m.allows_all(ops),
        by_others(ops),
    ensures
        m.after_all(ops).valid(),
        m.after_all(ops).heap == m.heap,
    decreases ops.len(),
{
    if ops.len() > 0 {
        let op = ops[0];
        let rest = ops.drop_first();
        assert(op !is Receive && op !is Fire);
        law_timer_invariant_kept(m, op);
        assert forall|k: int| 0 <= k < rest.len() implies (#[trigger] rest[k]) !is Receive
            && rest[k] !is Fire by {
            assert(rest[k] == ops[k + 1]);
        }
        law_pending_unchanged_during_wait(m.after(op), rest);
    }
}

/// No timer fires early. If the timer thread set out to wait at the time `from`
/// for as long as [`Timers::wait`](crate::Timers::wait) says, and the time was
/// up at `at`, then whatever it fires was due, whatever others did to the timers
/// while it waited.
pub proof fn law_no_timer_fires_early<W>(
    m: TimersModel<W>,
    ops: Seq<TimerOp<W>>,
    entry: TimerEntry,
    from: Instant,
    timeout: int,
    at: Instant,
)
    requires
        m.valid(),
        m.allows_all(ops),
        by_others(ops),
        m.after_all(ops).allows(TimerOp::Fire(entry)),
        forall|head: TimerEntry| #[trigger]
            crate::heap::is_earliest(m.heap, head) ==> timeout == crate::time::nanos_left(
                from,
                head.deadline,
            ),
        at.total() >= from.total() + timeout,
    ensures
        m.after_all(ops).cells[entry.share_state].deadline@ == entry.deadline,
        entry.deadline.total() <= at.total(),
{
    law_pending_unchanged_during_wait(m, ops);
}

/// A sleep of the longest duration is refused, whatever the clock reads.
pub proof fn law_longest_sleep_is_refused(now: Instant, duration: Duration)
    requires
        now.wf(),
        duration == (Duration { secs: u64::MAX, nanos: 999_999_999 }),
    ensures
        now.total() + duration.total() > crate::time::last_reachable(),
{
}

/// Timers fire in the order of their deadlines: what is left is due no earlier
/// than what fired.
pub proof fn law_earliest_fires_first<W>(m: TimersModel<W>, entry: TimerEntry, other: TimerEntry)
    requires
        m.valid(),
        m.allows(TimerOp::Fire(entry)),
        m.after(TimerOp::Fire(entry)).heap.contains(other),
    ensures
        entry.deadline.total() <= other.deadline.total(),
{
    law_timer_invariant_kept(m, TimerOp::Fire(entry));
    assert(m.heap.contains(other));
    assert(m.heap.contains(entry));
    crate::time::lemma_before_is_less(other.deadline, entry.deadline);
}

/// A pending timer stays pending until it fires, and every timeout fires one.
pub proof fn law_pending_until_fired<W>(m: TimersModel<W>, op: TimerOp<W>, entry: TimerEntry)
    requires
        m.valid(),
        m.allows(op),
        m.heap.contains(entry),
    ensures
        op is Fire ==> m.after(op).heap.len() == m.heap.len() - 1,
        op != TimerOp::<W>::Fire(entry) ==> m.after(op).heap.contains(entry),
        op == TimerOp::<W>::Fire(entry) ==> !m.after(op).heap.contains(entry),
{
    if let TimerOp::Fire(other) = op {
        m.lemma_fired(other);
        assert(m.heap.contains(other));
        assert(m.heap.count(other) == 1);
    }
}

/// A sleeper's timer has fired exactly when it was its turn: no operation but
/// the firing of its own entry makes a sleep ready.
pub proof fn law_only_its_own_entry_ends_a_sleep<W>(m: TimersModel<W>, op: TimerOp<W>, id: TimerId)
    requires
        m.valid(),
        m.allows(op),
        m.has_handle(id),
        op != TimerOp::<W>::Abandon(id),
    ensures
        m.after(op).has_handle(id),
        m.after(op).cells[id].deadline == m.cells[id].deadline,
        m.after(op).cells[id].state.fired <==> m.cells[id].state.fired || op
            == TimerOp::<W>::Fire(m.entry(id)),
{
    law_timer_invariant_kept(m, op);
    if let TimerOp::Fire(entry) = op {
        assert(m.heap.contains(entry));
        assert(entry == m.entry(entry.share_state));
    }
}

/// How many of the operations fire a timer.
pub open spec fn firings<W>(ops: Seq<TimerOp<W>>) -> nat
    decreases ops.len(),
{
    if ops.len() == 0 {
        0
    } else {
        firings(ops.drop_first()) + if ops[0] is Fire {
            1nat
        } else {
            0
        }
    }
}

/// How many of the operations take in an entry.
pub open spec fn receives<W>(ops: Seq<TimerOp<W>>) -> nat
    decreases ops.len(),
{
    if ops.len() == 0 {
        0
    } else {
        receives(ops.drop_first()) + if ops[0] is Receive {
            1nat
        } else {
            0
        }
    }
}

/// Every pending timer fires: it has fired once there were as many timeouts as
/// timers, those pending at first and those that came in since.
pub proof fn law_every_pending_timer_fires<W>(
    m: TimersModel<W>,
    ops: Seq<TimerOp<W>>,
    entry: TimerEntry,
)
    requires
        m.valid(),
        m.allows_all(ops),
        m.heap.contains(entry),
        firings(ops) >= m.heap.len() + receives(ops),
    ensures
        exists|k: int| 0 <= k < ops.len() && (#[trigger] ops[k]) == TimerOp::<W>::Fire(entry),
    decreases ops.len(),
{
    if ops.len() == 0 {
        assert(m.heap.remove(entry).len() == m.heap.len() - 1);
    } else if ops[0] == TimerOp::<W>::Fire(entry) {
    } else {
        let op = ops[0];
        let rest = ops.drop_first();
        law_timer_invariant_kept(m, op);
        law_pending_until_fired(m, op, entry);
        law_every_pending_timer_fires(m.after(op), rest, entry);
        let k = choose|k: int|
            0 <= k < rest.len() && (#[trigger] rest[k]) == TimerOp::<W>::Fire(entry);
        assert(ops[k + 1] == TimerOp::<W>::Fire(entry));
    }
}

/// A timer fires once: after it has fired, no later operation fires a timer of
/// the same id.
pub proof fn law_timer_fires_once<W>(m: TimersModel<W>, entry: TimerEntry, ops: Seq<TimerOp<W>>)
    requires
        m.valid(),
        m.allows(TimerOp::Fire(entry)),
        m.after(TimerOp::Fire(entry)).allows_all(ops),
    ensures
        forall|k: int|
            0 <= k < ops.len() ==> !((#[trigger] ops[k]) matches TimerOp::Fire(other)
                && other.share_state == entry.share_state),
{
    law_timer_invariant_kept(m, TimerOp::Fire(entry));
    m.lemma_fired(entry);
    lemma_fired_for_good(m.after(TimerOp::Fire(entry)), entry.share_state, ops);
}

/// A timer that is not pending does not fire.
proof fn lemma_fired_for_good<W>(m: TimersModel<W>, id: TimerId, ops: Seq<TimerOp<W>>)
    requires
        m.valid(),
        id < m.next,
        m.cells.contains_key(id) ==> m.cells[id].state.fired,
        m.allows_all(ops),
    ensures
        forall|k: int|
            0 <= k < ops.len() ==> !((#[trigger] ops[k]) matches TimerOp::Fire(other)
                && other.share_state == id),
    decreases ops.len(),
{
    if ops.len() > 0 {
        let op = ops[0];
        let rest = ops.drop_first();
        law_timer_invariant_kept(m, op);
        if let TimerOp::Fire(other) = op {
            assert(m.heap.contains(other));
        }
        lemma_fired_for_good(m.after(op), id, rest);
        assert forall|k: int| 0 <= k < ops.len() implies !((
        #[trigger] ops[k]) matches TimerOp::Fire(other) && other.share_state == id) by {
            if k > 0 {
                assert(rest[k - 1] == ops[k]);
            }
        }
    }
}

/// Timers fire in the order of their deadlines over any run in which no entry
/// comes in.
pub proof fn law_firings_are_sorted<W>(
    m: TimersModel<W>,
    ops: Seq<TimerOp<W>>,
    i: int,
    j: int,
    first: TimerEntry,
    second: TimerEntry,
)
    requires
        m.valid(),
        m.allows_all(ops),
        0 <= i < j < ops.len(),
        ops[i] == TimerOp::<W>::Fire(first),
        ops[j] == TimerOp::<W>::Fire(second),
        forall|k: int| i < k < j ==> (#[trigger] ops[k]) !is Receive,
    ensures
        first.deadline.total() <= second.deadline.total(),
    decreases ops.len(),
{
    let op = ops[0];
    let rest = ops.drop_first();
    law_timer_invariant_kept(m, op);
    if i > 0 {
        assert forall|k: int| i - 1 < k < j - 1 implies (#[trigger] rest[k]) !is Receive by {
            assert(rest[k] == ops[k + 1]);
        }
        law_firings_are_sorted(m.after(op), rest, i - 1, j - 1, first, second);
    } else {
        assert forall|k: int| 0 <= k < j - 1 implies (#[trigger] rest[k]) !is Receive by {
            assert(rest[k] == ops[k + 1]);
        }
        lemma_fired_was_pending(m.after(op), rest, j - 1, second);
        law_earliest_fires_first(m, first, second);
    }
}

/// A timer that fires was pending all along, if no entry came in before.
proof fn lemma_fired_was_pending<W>(
    m: TimersModel<W>,
    ops: Seq<TimerOp<W>>,
    j: int,
    entry: TimerEntry,
)
    requires
        m.valid(),
        m.allows_all(ops),
        0 <= j < ops.len(),
        ops[j] == TimerOp::<W>::Fire(entry),
        forall|k: int| 0 <= k < j ==> (#[trigger] ops[k]) !is Receive,
    ensures
        m.heap.contains(entry),
    decreases ops.len(),
{
    if j > 0 {
        let op = ops[0];
        let rest = ops.drop_first();
        assert(op !is Receive);
        law_timer_invariant_kept(m, op);
        assert forall|k: int| 0 <= k < j - 1 implies (#[trigger] rest[k]) !is Receive by {
            assert(rest[k] == ops[k + 1]);
        }
        lemma_fired_was_pending(m.after(op), rest, j - 1, entry);
    }
}

/// A sleep lasts at least as long as it was meant to. If an operation ends the
/// sleep, it is the firing of a timer; where the timer thread had waited for
/// that as it should, from before `ops`, the deadline of the sleep is past.
pub proof fn law_sleep_lasts<W>(
    m: TimersModel<W>,
    ops: Seq<TimerOp<W>>,
    op: TimerOp<W>,
    id: TimerId,
    from: Instant,
    timeout: int,
    at: Instant,
)
    requires
        m.valid(),
        m.allows_all(ops),
        by_others(ops),
        m.after_all(ops).allows(op),
        m.after_all(ops).has_handle(id),
        !m.after_all(ops).cells[id].state.fired,
        m.after_all(ops).after(op).has_handle(id),
        m.after_all(ops).after(op).cells[id].state.fired,
        forall|head: TimerEntry| #[trigger]
            crate::heap::is_earliest(m.heap, head) ==> timeout == crate::time::nanos_left(
                from,
                head.deadline,
            ),
        at.total() >= from.total() + timeout,
    ensures
        m.after_all(ops).cells[id].deadline@.total() <= at.total(),
{
    let end = m.after_all(ops);
    law_pending_unchanged_during_wait(m, ops);
    law_only_its_own_entry_ends_a_sleep(end, op, id);
    law_no_timer_fires_early(m, ops, end.entry(id), from, timeout, at);
}

/// Once a sleep is over it stays over.
pub proof fn law_sleep_stays_over<W>(m: TimersModel<W>, ops: Seq<TimerOp<W>>, id: TimerId)
    requires
        m.valid(),
        m.allows_all(ops),
        m.has_handle(id),
        m.cells[id].state.fired,
        forall|k: int| 0 <= k < ops.len() ==> (#[trigger] ops[k]) != TimerOp::<W>::Abandon(id),
    ensures
        m.after_all(ops).has_handle(id),
        m.after_all(ops).cells[id].state.poll_result() == crate::Poll::Ready(()),
    decreases ops.len(),
{
    if ops.len() > 0 {
        let op = ops[0];
        let rest = ops.drop_first();
        assert(op != TimerOp::<W>::Abandon(id));
        law_only_its_own_entry_ends_a_sleep(m, op, id);
        law_timer_invariant_kept(m, op);
        assert forall|k: int| 0 <= k < rest.len() implies (#[trigger] rest[k])
            != TimerOp::<W>::Abandon(id) by {
            assert(rest[k] == ops[k + 1]);
        }
        law_sleep_stays_over(m.after(op), rest, id);
    }
}

/// Who polled a sleep last is woken when its timer fires: the waker that firing
/// hands out is the one that was put on record.
pub proof fn law_sleeper_is_woken<W>(
    m: TimersModel<W>,
    id: TimerId,
    waker: W,
    will_wake: bool,
    ops: Seq<TimerOp<W>>,
)
    requires
        m.valid(),
        m.has_handle(id),
        !m.cells[id].state.fired,
        m.after(TimerOp::Poll(id, waker, will_wake)).allows_all(ops),
        forall|k: int|
            0 <= k < ops.len() ==> !((#[trigger] ops[k]) matches TimerOp::Poll(j, _, _) && j == id),
        forall|k: int|
            0 <= k < ops.len() ==> (#[trigger] ops[k]) != TimerOp::<W>::Fire(m.entry(id)),
    ensures
        ({
            let end = m.after(TimerOp::Poll(id, waker, will_wake)).after_all(ops);
            &&& end.cells.contains_key(id)
            &&& end.entry(id) == m.entry(id)
            &&& end.cells[id].state.waker == crate::join::registered(
                m.cells[id].state.waker,
                waker,
                will_wake,
            )
        }),
{
    let op = TimerOp::Poll(id, waker, will_wake);
    law_timer_invariant_kept(m, op);
    assert(m.after(op).entry(id) == m.entry(id));
    lemma_sleeper_waits(m.after(op), id, ops);
}

/// The waker on record for a timer stays there until the timer fires.
proof fn lemma_sleeper_waits<W>(m: TimersModel<W>, id: TimerId, ops: Seq<TimerOp<W>>)
    requires
        m.valid(),
        m.cells.contains_key(id),
        !m.cells[id].state.fired,
        m.allows_all(ops),
        forall|k: int|
            0 <= k < ops.len() ==> !((#[trigger] ops[k]) matches TimerOp::Poll(j, _, _) && j == id),
        forall|k: int|
            0 <= k < ops.len() ==> (#[trigger] ops[k]) != TimerOp::<W>::Fire(m.entry(id)),
    ensures
        m.after_all(ops).cells.contains_key(id),
        m.after_all(ops).entry(id) == m.entry(id),
        m.after_all(ops).cells[id].state.waker == m.cells[id].state.waker,
    decreases ops.len(),
{
    if ops.len() > 0 {
        let op = ops[0];
        let rest = ops.drop_first();
        assert(!(op matches TimerOp::Poll(j, _, _) && j == id));
        assert(op != TimerOp::<W>::Fire(m.entry(id)));
        law_timer_invariant_kept(m, op);
        if let TimerOp::Fire(entry) = op {
            assert(m.heap.contains(entry));
            assert(entry == m.entry(entry.share_state));
        }
        assert(m.after(op).entry(id) == m.entry(id));
        assert forall|k: int| 0 <= k < rest.len() implies !((#[trigger] rest[k]) matches TimerOp::Poll(
            j,
            _,
            _,
        ) && j == id) && rest[k] != TimerOp::<W>::Fire(m.entry(id)) by {
            assert(rest[k] == ops[k + 1]);
        }
        lemma_sleeper_waits(m.after(op), id, rest);
    }
}

/// At first there is no timer anywhere.
pub proof fn law_no_timers_at_first<W>(entry: TimerEntry)
    ensures
        !TimersModel::<W>::initial().heap.contains(entry),
        TimersModel::<W>::initial().heap.len() == 0,
        !TimersModel::<W>::initial().sent.contains(entry),
        !TimersModel::<W>::initial().cells.contains_key(entry.share_state),
        TimersModel::<W>::initial().next == 0,
{
}

/// A new sleep is not over: its timer has not fired, nobody is on record, its
/// handle is held, and its entry is on the way to the timer thread. Nothing
/// else changes.
pub proof fn law_new_sleep_is_pending<W>(m: TimersModel<W>, deadline: Instant)
    requires
        m.valid(),
        m.allows(TimerOp::Start(deadline)),
    ensures
        ({
            let id = m.next as TimerId;
            let entry = TimerEntry { deadline, share_state: id };
            let after = m.after(TimerOp::Start(deadline));
            &&& after.has_handle(id)
            &&& !after.cells[id].state.fired
            &&& after.cells[id].state.waker is None
            &&& after.cells[id].state.poll_result() is Pending
            &&& after.cells[id].deadline@ == deadline
            &&& after.entry(id) == entry
            &&& !m.sent.contains(entry)
            &&& after.sent == m.sent.insert(entry)
            &&& after.heap == m.heap
            &&& !m.cells.contains_key(id)
            &&& after.cells.remove(id) == m.cells
            &&& after.next == m.next + 1
        }),
{
    let id = m.next as TimerId;
    assert(!m.cells.contains_key(id));
    assert(m.after(TimerOp::Start(deadline)).cells.remove(id) =~= m.cells);
}

/// An entry that the timer thread receives is waited for: it is one more of the
/// pending timers and no longer on its way. No sleep changes.
pub proof fn law_received_entry_is_pending<W>(m: TimersModel<W>, entry: TimerEntry)
    requires
        m.valid(),
        m.sent.contains(entry),
    ensures
        ({
            let after = m.after(TimerOp::Receive(entry));
            &&& !m.heap.contains(entry)
            &&& after.heap.contains(entry)
            &&& after.heap == m.heap.insert(entry)
            &&& after.heap.len() == m.heap.len() + 1
            &&& !after.sent.contains(entry)
            &&& after.sent.insert(entry) == m.sent
            &&& after.cells == m.cells
            &&& after.next == m.next
        }),
{
    assert(m.cells.contains_key(entry.share_state));
    assert(m.after(TimerOp::Receive(entry)).sent.insert(entry) =~= m.sent);
}

/// A timer that fires is no longer pending and its sleep is over. One that
/// nobody sleeps on is forgotten. Nothing else changes.
pub proof fn law_fired_timer_ends_its_sleep<W>(m: TimersModel<W>, entry: TimerEntry)
    requires
        m.valid(),
        m.allows(TimerOp::Fire(entry)),
    ensures
        ({
            let id = entry.share_state;
            let after = m.after(TimerOp::Fire(entry));
            &&& m.cells.contains_key(id)
            &&& !m.cells[id].state.fired
            &&& m.entry(id) == entry
            &&& !after.heap.contains(entry)
            &&& after.heap.insert(entry) == m.heap
            &&& after.sent == m.sent
            &&& m.cells[id].handle ==> {
                &&& after.has_handle(id)
                &&& after.cells[id].state.fired
                &&& after.cells[id].state.waker is None
                &&& after.cells[id].state.poll_result() == crate::Poll::Ready(())
                &&& after.cells[id].deadline == m.cells[id].deadline
            }
            &&& !m.cells[id].handle ==> !after.cells.contains_key(id)
            &&& after.cells.remove(id) == m.cells.remove(id)
            &&& after.next == m.next
        }),
{
    let id = entry.share_state;
    m.lemma_fired(entry);
    assert(m.heap.contains(entry));
    assert(m.heap.count(entry) == 1);
    assert(m.after(TimerOp::Fire(entry)).heap.insert(entry) =~= m.heap);
    assert(m.after(TimerOp::Fire(entry)).cells.remove(id) =~= m.cells.remove(id));
}

/// Polling a sleep is about its timer's state alone, and fires nothing.
pub proof fn law_sleep_poll_changes_its_cell<W>(
    m: TimersModel<W>,
    id: TimerId,
    waker: W,
    will_wake: bool,
)
    requires
        m.valid(),
        m.has_handle(id),
    ensures
        ({
            let before = m.cells[id].state;
            let after = m.after(TimerOp::Poll(id, waker, will_wake));
            &&& after.has_handle(id)
            &&& after.cells[id].deadline == m.cells[id].deadline
            &&& after.cells[id].state.fired == before.fired
            &&& before.fired ==> after.cells[id].state.waker is None
            &&& !before.fired ==> after.cells[id].state.waker == if before.waker is Some
                && will_wake {
                before.waker
            } else {
                Some(waker)
            }
            &&& after.cells.remove(id) == m.cells.remove(id)
            &&& after.heap == m.heap
            &&& after.sent == m.sent
            &&& after.next == m.next
        }),
{
    assert(m.after(TimerOp::Poll(id, waker, will_wake)).cells.remove(id) =~= m.cells.remove(id));
}

/// Storing a state for a timer is about that timer alone.
pub proof fn law_one_timer_changes<W>(m: TimersModel<W>, id: TimerId, state: TimerShareState<W>)
    requires
        m.has_handle(id),
    ensures
        ({
            let after = m.with_cell(id, state);
            &&& after.has_handle(id)
            &&& after.cells[id].state == state
            &&& after.cells[id].deadline == m.cells[id].deadline
            &&& after.cells.remove(id) == m.cells.remove(id)
            &&& after.heap == m.heap
            &&& after.sent == m.sent
            &&& after.next == m.next
        }),
{
    assert(m.with_cell(id, state).cells.remove(id) =~= m.cells.remove(id));
}

/// A sleep that is given up has no handle any more. A timer that has not fired
/// is kept, waker and all, and stays on its way or pending; one that has is
/// forgotten.
pub proof fn law_abandoned_timer_still_fires<W>(m: TimersModel<W>, id: TimerId)
    requires
        m.valid(),
        m.has_handle(id),
    ensures
        ({
            let after = m.after(TimerOp::Abandon(id));
            &&& !after.has_handle(id)
            &&& after.cells.contains_key(id) <==> !m.cells[id].state.fired
            &&& !m.cells[id].state.fired ==> {
                &&& after.cells[id].state == m.cells[id].state
                &&& after.cells[id].deadline == m.cells[id].deadline
            }
            &&& after.cells.remove(id) == m.cells.remove(id)
            &&& after.heap == m.heap
            &&& after.sent == m.sent
            &&& after.next == m.next
        }),
{
    assert(m.after(TimerOp::Abandon(id)).cells.remove(id) =~= m.cells.remove(id));
}

/// A sleep that is under way is one whose entry is either on its way or
/// pending, once.
pub proof fn law_sleep_under_way_has_one_entry<W>(m: TimersModel<W>, id: TimerId)
    requires
        m.valid(),
        m.cells.contains_key(id),
        !m.cells[id].state.fired,
    ensures
        m.entry(id).share_state == id,
        m.entry(id).deadline == m.cells[id].deadline@,
        m.sent.contains(m.entry(id)) <==> !m.heap.contains(m.entry(id)),
        m.heap.count(m.entry(id)) <= 1,
{
}

/// A sleep ends: once its entry has been received, as many timeouts as there
/// were pending timers, and one for every entry that came in since, make it
/// ready, if it is not given up.
pub proof fn law_sleep_ends<W>(m: TimersModel<W>, id: TimerId, ops: Seq<TimerOp<W>>)
    requires
        m.valid(),
        m.has_handle(id),
        !m.cells[id].state.fired,
        m.heap.contains(m.entry(id)),
        m.allows_all(ops),
        forall|k: int| 0 <= k < ops.len() ==> (#[trigger] ops[k]) != TimerOp::<W>::Abandon(id),
        firings(ops) >= m.heap.len() + receives(ops),
    ensures
        m.after_all(ops).has_handle(id),
        m.after_all(ops).cells[id].state.poll_result() == crate::Poll::Ready(()),
    decreases ops.len(),
{
    let entry = m.entry(id);
    if ops.len() == 0 {
        assert(m.heap.remove(entry).len() == m.heap.len() - 1);
    } else {
        let op = ops[0];
        let rest = ops.drop_first();
        assert(op != TimerOp::<W>::Abandon(id));
        law_timer_invariant_kept(m, op);
        law_only_its_own_entry_ends_a_sleep(m, op, id);
        assert forall|k: int| 0 <= k < rest.len() implies (#[trigger] rest[k])
            != TimerOp::<W>::Abandon(id) by {
            assert(rest[k] == ops[k + 1]);
        }
        if op == TimerOp::<W>::Fire(entry) {
            law_sleep_stays_over(m.after(op), rest, id);
        } else {
            law_pending_until_fired(m, op, entry);
            assert(m.after(op).entry(id) == entry);
            law_sleep_ends(m.after(op), id, rest);
        }
    }
}

} // verus!
