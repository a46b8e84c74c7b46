//! One timer: its deadline, and what it shares with the one who sleeps.

use crate::join::{register, register_clone, Poll};
use crate::time::Instant;
use std::cmp::Ordering;
use vstd::prelude::*;

verus! {

/// Names a timer. An id is never used twice.
pub type TimerId = u64;

/// Whether a timer has fired, and the waker of the one who sleeps on it.
#[derive(Debug)]
#[verifier::ext_equal]
pub struct TimerShareState<W> {
    pub fired: bool,
    pub waker: Option<W>,
}

impl<W> TimerShareState<W> {
    /// Not fired, and nobody sleeping.
    pub fn new() -> (state: Self)
        ensures
            state == (TimerShareState { fired: false, waker: None::<W> }),
    {
        TimerShareState { fired: false, waker: None }
    }

    /// Fires the timer and hands out the waker to be woken for it.
    pub fn fire(&mut self) -> (waker: Option<W>)
        ensures
            *final(self) == (TimerShareState { fired: true, waker: None::<W> }),
            waker == old(self).waker,
    {
        self.fired = true;
        self.waker.take()
    }

    /// The state after a poll with `waker`.
    pub open spec fn after_poll(self, waker: W, will_wake: bool) -> Self {
        if self.fired {
            self
        } else {
            TimerShareState { waker: crate::join::registered(self.waker, waker, will_wake), ..self }
        }
    }

    /// What a poll returns.
    pub open spec fn poll_result(self) -> Poll<()> {
        if self.fired {
            Poll::Ready(())
        } else {
            Poll::Pending
        }
    }

    /// The waker that a poll with `waker` does not need.
    pub open spec fn poll_unused(self, waker: W, will_wake: bool) -> Option<W> {
        if self.fired {
            Some(waker)
        } else {
            crate::join::displaced(self.waker, waker, will_wake)
        }
    }

    /// Ready if the timer has fired; otherwise puts a clone of `waker` on record,
    /// unless the waker there wakes the same task by `will_wake`. The second
    /// component is the waker that is not needed.
    pub fn poll<S: Fn(&W, &W) -> bool>(&mut self, waker: &W, will_wake: S) -> (polled: (
        Poll<()>,
        Option<W>,
    )) where W: Clone
        requires
            forall|a: &W, b: &W| call_requires(will_wake, (a, b)),
        ensures
            polled.0 == old(self).poll_result(),
            final(self).fired == old(self).fired,
            old(self).fired ==> *final(self) == *old(self) && polled.1 is None,
            !old(self).fired ==> crate::join::registers(
                old(self).waker,
                waker,
                will_wake,
                final(self).waker,
                polled.1,
            ),
    {
        if self.fired {
            return (Poll::Ready(()), None);
        }
        let unused = register_clone(&mut self.waker, waker, will_wake);
        (Poll::Pending, unused)
    }

    /// Ready if the timer has fired; otherwise puts `waker` on record;
    /// `will_wake` says that the waker there, if there is one, wakes the same
    /// task. The second component is the waker that is not needed.
    pub fn poll_with(&mut self, waker: W, will_wake: bool) -> (polled: (Poll<()>, Option<W>))
        ensures
            *final(self) == old(self).after_poll(waker, will_wake),
            polled.0 == old(self).poll_result(),
            polled.1 == old(self).poll_unused(waker, will_wake),
    {
        if self.fired {
            return (Poll::Ready(()), Some(waker));
        }
        let unused = register(&mut self.waker, waker, will_wake);
        (Poll::Pending, unused)
    }
}

/// A timer that has not fired yet.
///
/// Entries are ordered, and compared for equality, by their deadline alone.
#[derive(Debug, Clone, Copy)]
pub struct TimerEntry {
    /// Moment when the timer should fire.
    pub deadline: Instant,
    /// The timer whose state this entry fires.
    pub share_state: TimerId,
}

impl TimerEntry {
    /// The entry whose deadline is earlier comes first.
    pub fn cmp(&self, other: &TimerEntry) -> (order: Ordering)
        ensures
            order == Ordering::Less <==> self.deadline.before(other.deadline),
            order == Ordering::Equal <==> self.deadline == other.deadline,
            order == Ordering::Greater <==> other.deadline.before(self.deadline),
    {
        self.deadline.order(&other.deadline)
    }
}

impl PartialEq for TimerEntry {
    fn eq(&self, other: &TimerEntry) -> (same: bool) {
        self.deadline == other.deadline
    }
}

impl vstd::std_specs::cmp::PartialEqSpecImpl for TimerEntry {
    open spec fn obeys_eq_spec() -> bool {
        true
    }

    open spec fn eq_spec(&self, other: &TimerEntry) -> bool {
        self.deadline == other.deadline
    }
}

impl Eq for TimerEntry {

}

impl PartialOrd for TimerEntry {
    fn partial_cmp(&self, other: &TimerEntry) -> (order: Option<Ordering>) {
        Some(self.cmp(other))
    }
}

impl vstd::std_specs::cmp::PartialOrdSpecImpl for TimerEntry {
    open spec fn obeys_partial_cmp_spec() -> bool {
        true
    }

    open spec fn partial_cmp_spec(&self, other: &TimerEntry) -> Option<Ordering> {
        if self.deadline.before(other.deadline) {
            Some(Ordering::Less)
        } else if self.deadline == other.deadline {
            Some(Ordering::Equal)
        } else {
            Some(Ordering::Greater)
        }
    }
}

} // verus!
