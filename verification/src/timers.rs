//! All timers: sleeping, and deciding what the timer thread does next.

use crate::heap::TimerHeap;
use crate::join::{needs_waker, Poll};
use crate::time::{Duration, Instant};
use crate::timer::{TimerEntry, TimerId, TimerShareState};
use std::collections::HashMap;
use vstd::multiset::Multiset;
use vstd::prelude::*;

verus! {

/// How many entries may be on their way to the timer thread at a time.
pub const MAX_QUEUE_SIZE: usize = 10_000;

/// A timer's state and who can still reach it.
#[verifier::ext_equal]
pub struct TimerCell<W> {
    pub state: TimerShareState<W>,
    /// Whether somebody still holds the [`Sleep`].
    pub handle: bool,
    /// When the timer is due.
    pub deadline: Ghost<Instant>,
}

/// What [`Timers`] holds.
#[verifier::ext_equal]
pub struct TimersModel<W> {
    /// The entries that the timer thread waits for.
    pub heap: Multiset<TimerEntry>,
    /// The entries on their way to the timer thread.
    pub sent: Set<TimerEntry>,
    pub cells: Map<TimerId, TimerCell<W>>,
    /// The id of the next timer.
    pub next: nat,
}

impl<W> TimersModel<W> {
    /// The entry of a timer that has not fired.
    pub open spec fn entry(self, id: TimerId) -> TimerEntry {
        TimerEntry { deadline: self.cells[id].deadline@, share_state: id }
    }

    /// Whether the handle to the timer is held.
    pub open spec fn has_handle(self, id: TimerId) -> bool {
        self.cells.contains_key(id) && self.cells[id].handle
    }

    /// The invariant of all timers.
    pub open spec fn valid(self) -> bool {
        // A timer that has fired is kept only for the one who slept on it; one
        // that has not is either on its way or waited for, once.
        &&& forall|id: TimerId| #[trigger]
            self.cells.contains_key(id) ==> {
                &&& id < self.next
                &&& self.cells[id].deadline@.wf()
                &&& if self.cells[id].state.fired {
                    self.cells[id].handle && self.cells[id].state.waker is None
                } else if self.sent.contains(self.entry(id)) {
                    self.heap.count(self.entry(id)) == 0
                } else {
                    self.heap.count(self.entry(id)) == 1
                }
            }
        // Every entry belongs to a timer that has not fired.
        &&& forall|e: TimerEntry| #[trigger]
            self.sent.contains(e) ==> self.cells.contains_key(e.share_state)
                && !self.cells[e.share_state].state.fired && e == self.entry(e.share_state)
        &&& forall|e: TimerEntry| #[trigger]
            self.heap.contains(e) ==> self.cells.contains_key(e.share_state)
                && !self.cells[e.share_state].state.fired && e == self.entry(e.share_state)
    }

    /// No timers.
    pub open spec fn initial() -> Self {
        TimersModel { heap: Multiset::empty(), sent: Set::empty(), cells: Map::empty(), next: 0 }
    }

    /// A new timer, due at `deadline`, on its way to the timer thread.
    pub open spec fn started(self, deadline: Instant) -> Self {
        let id = self.next as TimerId;
        TimersModel {
            sent: self.sent.insert(TimerEntry { deadline, share_state: id }),
            cells: self.cells.insert(
                id,
                TimerCell {
                    state: TimerShareState { fired: false, waker: None },
                    handle: true,
                    deadline: Ghost(deadline),
                },
            ),
            next: self.next + 1,
            ..self
        }
    }

    /// The timer thread has received the entry and waits for it.
    pub open spec fn received(self, entry: TimerEntry) -> Self {
        TimersModel { heap: self.heap.insert(entry), sent: self.sent.remove(entry), ..self }
    }

    /// The timer of `entry` has fired.
    pub open spec fn fired(self, entry: TimerEntry) -> Self {
        let id = entry.share_state;
        let cell = self.cells[id];
        TimersModel {
            heap: self.heap.remove(entry),
            cells: if cell.handle {
                self.cells.insert(
                    id,
                    TimerCell { state: TimerShareState { fired: true, waker: None }, ..cell },
                )
            } else {
                self.cells.remove(id)
            },
            ..self
        }
    }

    /// The cell of the timer holds `state`.
    pub open spec fn with_cell(self, id: TimerId, state: TimerShareState<W>) -> Self {
        TimersModel {
            cells: self.cells.insert(id, TimerCell { state, ..self.cells[id] }),
            ..self
        }
    }

    /// The sleeper polled the timer.
    pub open spec fn sleep_polled(self, id: TimerId, waker: W, will_wake: bool) -> Self {
        self.with_cell(id, self.cells[id].state.after_poll(waker, will_wake))
    }

    /// Nobody sleeps on the timer any more. It fires all the same.
    pub open spec fn abandoned(self, id: TimerId) -> Self {
        let cell = self.cells[id];
        TimersModel {
            cells: if cell.state.fired {
                self.cells.remove(id)
            } else {
                self.cells.insert(id, TimerCell { handle: false, ..cell })
            },
            ..self
        }
    }
}

impl<W> TimersModel<W> {
    /// Receiving an entry keeps the invariant.
    pub proof fn lemma_received(self, entry: TimerEntry)
        requires
            self.valid(),
            self.sent.contains(entry),
        ensures
            self.received(entry).valid(),
    {
        let after = self.received(entry);
        let id = entry.share_state;
        assert(self.cells.contains_key(id));
        assert forall|j: TimerId| #[trigger]
            after.cells.contains_key(j) && !after.cells[j].state.fired implies if after.sent.contains(
            after.entry(j),
        ) {
            after.heap.count(after.entry(j)) == 0
        } else {
            after.heap.count(after.entry(j)) == 1
        } by {
            assert(after.entry(j) == self.entry(j));
        }
        assert forall|e: TimerEntry| #[trigger] after.heap.contains(e) implies {
            &&& after.cells.contains_key(e.share_state)
            &&& !after.cells[e.share_state].state.fired
            &&& e == after.entry(e.share_state)
        } by {
            assert(e == entry || self.heap.contains(e));
        }
        assert forall|e: TimerEntry| #[trigger] after.sent.contains(e) implies {
            &&& after.cells.contains_key(e.share_state)
            &&& !after.cells[e.share_state].state.fired
            &&& e == after.entry(e.share_state)
        } by {
            assert(self.sent.contains(e));
        }
    }

    /// Firing a timer keeps the invariant.
    pub proof fn lemma_fired(self, entry: TimerEntry)
        requires
            self.valid(),
            self.heap.contains(entry),
        ensures
            self.cells.contains_key(entry.share_state),
            self.fired(entry).valid(),
    {
        let after = self.fired(entry);
        let id = entry.share_state;
        assert(self.cells.contains_key(id));
        assert(self.heap.count(entry) == 1);
        assert(!self.sent.contains(entry));
        assert forall|j: TimerId| #[trigger]
            after.cells.contains_key(j) && !after.cells[j].state.fired implies if after.sent.contains(
            after.entry(j),
        ) {
            after.heap.count(after.entry(j)) == 0
        } else {
            after.heap.count(after.entry(j)) == 1
        } by {
            assert(j != id);
            assert(self.cells.contains_key(j));
            assert(after.entry(j) == self.entry(j));
        }
        assert forall|e: TimerEntry| #[trigger] after.heap.contains(e) implies {
            &&& after.cells.contains_key(e.share_state)
            &&& !after.cells[e.share_state].state.fired
            &&& e == after.entry(e.share_state)
        } by {
            assert(self.heap.contains(e));
            assert(e != entry);
            assert(e.share_state != id);
        }
        assert forall|e: TimerEntry| #[trigger] after.sent.contains(e) implies {
            &&& after.cells.contains_key(e.share_state)
            &&& !after.cells[e.share_state].state.fired
            &&& e == after.entry(e.share_state)
        } by {
            assert(self.sent.contains(e));
            assert(e.share_state != id);
        }
    }
}

/// What the timer thread is to wait for.
#[derive(Debug, PartialEq, Eq)]
pub enum Wait {
    /// For an entry, as long as it takes.
    Recv,
    /// For an entry, but only this long.
    RecvTimeout(Duration),
}

/// What came of the timer thread's waiting.
#[derive(Debug)]
pub enum Event {
    /// An entry arrived.
    Entry(TimerEntry),
    /// The time is up.
    Timeout,
    /// No entry can arrive any more.
    Disconnected,
}

/// What the timer thread is to do after an event.
#[derive(Debug)]
pub enum TimerAction<W> {
    /// Wait again.
    Continue,
    /// A timer fired: wake the sleeper, then wait again.
    Fire { entry: TimerEntry, waker: Option<W> },
    /// End; timers still pending never fire.
    Stop,
    /// Panic: there is nothing to wait for and nothing can arrive.
    Fail,
}

/// Every timer that is pending or that somebody sleeps on.
///
/// It is meant to be kept behind a lock, which is released while the timer
/// thread waits.
pub struct Timers<W> {
    heap: TimerHeap,
    cells: HashMap<TimerId, TimerCell<W>>,
    next: TimerId,
    sent: Ghost<Set<TimerEntry>>,
}

impl<W> View for Timers<W> {
    type V = TimersModel<W>;

    closed spec fn view(&self) -> TimersModel<W> {
        TimersModel {
            heap: self.heap@,
            sent: self.sent@,
            cells: self.cells@,
            next: self.next as nat,
        }
    }
}

impl<W> Timers<W> {
    /// The invariant of all timers.
    pub open spec fn wf(&self) -> bool {
        self@.valid() && self.ordered()
    }

    /// The pending timers are in the heap's order.
    pub closed spec fn ordered(&self) -> bool {
        self.heap.wf()
    }

    /// No timers.
    pub fn new() -> (timers: Self)
        ensures
            timers.wf(),
            timers@ == TimersModel::<W>::initial(),
    {
        Timers { heap: TimerHeap::new(), cells: HashMap::new(), next: 0, sent: Ghost(Set::empty()) }
    }

    /// Whether there is an id left for another timer.
    pub fn can_sleep(&self) -> (can: bool)
        ensures
            can <==> self@.next < u64::MAX,
    {
        self.next < u64::MAX
    }

    /// Decides what the timer thread waits for at the time `now`: until the
    /// earliest deadline if a timer is pending.
    pub fn wait(&self, now: Instant) -> (wait: Wait)
        requires
            self.wf(),
            now.wf(),
        ensures
            match wait {
                Wait::Recv => self@.heap == Multiset::<TimerEntry>::empty(),
                Wait::RecvTimeout(timeout) => {
                    &&& self@.heap != Multiset::<TimerEntry>::empty()
                    &&& timeout.wf()
                    &&& forall|head: TimerEntry| #[trigger]
                        crate::heap::is_earliest(self@.heap, head) ==> timeout.total()
                            == crate::time::nanos_left(now, head.deadline)
                },
            },
    {
        match self.heap.peek() {
            None => Wait::Recv,
            Some(head) => {
                proof {
                    assert(self@.heap.contains(head));
                    assert(self@.cells.contains_key(head.share_state));
                    assert forall|other: TimerEntry| #[trigger]
                        crate::heap::is_earliest(self@.heap, other) implies other.deadline
                        == head.deadline by {}
                }
                Wait::RecvTimeout(head.deadline.saturating_duration_since(now))
            },
        }
    }

    /// Takes in what came of the waiting.
    pub fn handle(&mut self, event: Event) -> (action: TimerAction<W>)
        requires
            old(self).wf(),
            event matches Event::Entry(entry) ==> old(self)@.sent.contains(entry),
            event is Timeout ==> old(self)@.heap != Multiset::<TimerEntry>::empty(),
        ensures
            final(self).wf(),
            match event {
                Event::Entry(entry) => {
                    &&& action == TimerAction::<W>::Continue
                    &&& final(self)@ == old(self)@.received(entry)
                },
                Event::Timeout => match action {
                    TimerAction::Fire { entry, waker } => {
                        &&& crate::heap::is_earliest(old(self)@.heap, entry)
                        &&& waker == old(self)@.cells[entry.share_state].state.waker
                        &&& final(self)@ == old(self)@.fired(entry)
                    },
                    _ => false,
                },
                Event::Disconnected => {
                    &&& action == if old(self)@.heap == Multiset::<TimerEntry>::empty() {
                        TimerAction::<W>::Fail
                    } else {
                        TimerAction::Stop
                    }
                    &&& final(self)@ == old(self)@
                },
            },
    {
        let ghost before = self@;
        match event {
            Event::Entry(entry) => {
                self.heap.push(entry);
                self.sent = Ghost(self.sent@.remove(entry));
                proof {
                    before.lemma_received(entry);
                }
                TimerAction::Continue
            },
            Event::Timeout => match self.heap.pop() {
                Some(entry) => {
                    proof {
                        before.lemma_fired(entry);
                    }
                    let id = entry.share_state;
                    let waker = match self.cells.remove(&id) {
                        Some(mut cell) => {
                            let waker = cell.state.fire();
                            if cell.handle {
                                self.cells.insert(id, cell);
                            }
                            waker
                        },
                        None => None,
                    };
                    assert(self@.cells =~= before.fired(entry).cells);
                    TimerAction::Fire { entry, waker }
                },
                None => TimerAction::Fail,
            },
            Event::Disconnected => {
                if self.heap.is_empty() {
                    TimerAction::Fail
                } else {
                    TimerAction::Stop
                }
            },
        }
    }
}

/// The sleep would end past the end of the clock.
#[derive(Debug, PartialEq, Eq)]
pub struct InvalidDuration;

/// One who sleeps until a timer fires.
#[derive(Debug)]
pub struct Sleep {
    timer: TimerId,
}

impl Sleep {
    /// The timer slept on.
    pub closed spec fn timer(&self) -> TimerId {
        self.timer
    }

    /// The id of the timer slept on.
    pub fn id(&self) -> (timer: TimerId)
        ensures
            timer == self.timer(),
    {
        self.timer
    }

    /// Whether a poll has to put a new waker on record: the timer has not fired,
    /// and there is no waker of which `will_wake` says that it wakes the right
    /// task.
    pub fn needs_waker<W, S: Fn(&W) -> bool>(&self, timers: &Timers<W>, will_wake: S) -> (needed:
        bool)
        requires
            timers.wf(),
            timers@.has_handle(self.timer()),
            forall|a: &W| call_requires(will_wake, (a,)),
        ensures
            match timers@.cells[self.timer()].state {
                TimerShareState { fired: true, .. } => !needed,
                TimerShareState { fired: false, waker: Some(waker) } => call_ensures(
                    will_wake,
                    (&waker,),
                    !needed,
                ),
                TimerShareState { fired: false, waker: None } => needed,
            },
    {
        match timers.cells.get(&self.timer) {
            Some(cell) => !cell.state.fired && needs_waker(&cell.state.waker, will_wake),
            None => false,
        }
    }

    /// Ready if the timer has fired, otherwise puts a clone of `waker` on record
    /// to be woken, unless the waker on record wakes the same task by
    /// `will_wake`. The second component is the waker that is not needed.
    pub fn poll<W: Clone, S: Fn(&W, &W) -> bool>(
        &mut self,
        timers: &mut Timers<W>,
        waker: &W,
        will_wake: S,
    ) -> (polled: (Poll<()>, Option<W>))
        requires
            old(timers).wf(),
            old(timers)@.has_handle(old(self).timer()),
            forall|a: &W, b: &W| call_requires(will_wake, (a, b)),
        ensures
            *final(self) == *old(self),
            final(timers).wf(),
            ({
                let id = old(self).timer();
                let before = old(timers)@.cells[id].state;
                let after = final(timers)@.cells[id].state;
                &&& final(timers)@ == old(timers)@.with_cell(id, after)
                &&& polled.0 == before.poll_result()
                &&& after.fired == before.fired
                &&& before.fired ==> after == before && polled.1 is None
                &&& !before.fired ==> crate::join::registers(
                    before.waker,
                    waker,
                    will_wake,
                    after.waker,
                    polled.1,
                )
            }),
    {
        let ghost before = timers@;
        let id = self.timer;
        match timers.cells.remove(&id) {
            Some(mut cell) => {
                let polled = cell.state.poll(waker, will_wake);
                let ghost state = cell.state;
                timers.cells.insert(id, cell);
                assert(timers@.cells =~= before.with_cell(id, state).cells);
                polled
            },
            None => (Poll::Pending, None),
        }
    }

    /// Ready if the timer has fired, otherwise puts `waker` on record to be
    /// woken; `will_wake` says that the waker on record, if there is one, wakes
    /// the same task and is to be kept. The second component is the waker that
    /// is not needed.
    pub fn poll_with<W>(
        &mut self,
        timers: &mut Timers<W>,
        waker: W,
        will_wake: bool,
    ) -> (polled: (Poll<()>, Option<W>))
        requires
            old(timers).wf(),
            old(timers)@.has_handle(old(self).timer()),
        ensures
            *final(self) == *old(self),
            final(timers).wf(),
            final(timers)@ == old(timers)@.sleep_polled(old(self).timer(), waker, will_wake),
            polled.0 == old(timers)@.cells[old(self).timer()].state.poll_result(),
            polled.1 == old(timers)@.cells[old(self).timer()].state.poll_unused(waker, will_wake),
    {
        let ghost before = timers@;
        let id = self.timer;
        match timers.cells.remove(&id) {
            Some(mut cell) => {
                let polled = cell.state.poll_with(waker, will_wake);
                timers.cells.insert(id, cell);
                assert(timers@.cells =~= before.sleep_polled(id, waker, will_wake).cells);
                polled
            },
            None => (Poll::Pending, Some(waker)),
        }
    }

    /// Stops sleeping. The timer fires all the same.
    pub fn abandon<W>(self, timers: &mut Timers<W>)
        requires
            old(timers).wf(),
            old(timers)@.has_handle(self.timer()),
        ensures
            final(timers).wf(),
            final(timers)@ == old(timers)@.abandoned(self.timer()),
    {
        let ghost before = timers@;
        let id = self.timer;
        match timers.cells.remove(&id) {
            Some(mut cell) => {
                if !cell.state.fired {
                    cell.handle = false;
                    timers.cells.insert(id, cell);
                }
            },
            None => {},
        }
        assert(timers@.cells =~= before.abandoned(id).cells);
    }
}

/// Starts a timer that is due `duration` after `now`. `in_range` is what the
/// platform's clock says: whether it can count as far as that. The entry is for
/// the timer thread; the timer does not fire unless it gets there.
pub fn sleep<W>(
    timers: &mut Timers<W>,
    now: Instant,
    duration: Duration,
    in_range: bool,
) -> (started: Result<(Sleep, TimerEntry), InvalidDuration>)
    requires
        old(timers).wf(),
        old(timers)@.next < u64::MAX,
        now.wf(),
        duration.wf(),
    ensures
        final(timers).wf(),
        match started {
            Ok((sleep, entry)) => {
                &&& in_range && now.total() + duration.total() <= crate::time::last_reachable()
                &&& entry.deadline.wf()
                &&& entry.deadline.total() == now.total() + duration.total()
                &&& entry.share_state == old(timers)@.next
                &&& sleep.timer() == old(timers)@.next
                &&& final(timers)@ == old(timers)@.started(entry.deadline)
            },
            Err(_) => {
                &&& !in_range || now.total() + duration.total() > crate::time::last_reachable()
                &&& final(timers)@ == old(timers)@
            },
        },
{
    if !in_range {
        return Err(InvalidDuration);
    }
    let deadline = match now.checked_add(duration) {
        Some(deadline) => deadline,
        None => {
            return Err(InvalidDuration);
        },
    };
    let ghost before = timers@;
    let id = timers.next;
    let entry = TimerEntry { deadline, share_state: id };
    timers.cells.insert(
        id,
        TimerCell { state: TimerShareState::new(), handle: true, deadline: Ghost(deadline) },
    );
    timers.next = id + 1;
    timers.sent = Ghost(timers.sent@.insert(entry));
    proof {
        assert(!before.cells.contains_key(id));
        assert(!before.heap.contains(entry));
        assert(timers@.cells =~= before.started(deadline).cells);
    }
    Ok((Sleep { timer: id }, entry))
}

} // verus!
