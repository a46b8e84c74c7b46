//! Why the executor thread does not sleep through a wake-up.
//!
//! The thread parks after it found the run queue empty, without holding the
//! lock: a task may be woken in between. Who wakes it takes the request to
//! unpark under the lock and unparks after releasing it. `park` and `unpark` go
//! by a token, which `unpark` leaves and `park` takes; `park` may also return
//! for no reason.

use crate::laws::Op;
use crate::model::Model;
use vstd::prelude::*;

verus! {

/// What the executor thread is doing.
pub enum Phase {
    /// It goes through the run queue, or polls.
    Busy,
    /// It found nothing to do and is about to park.
    Parking,
    /// It is parked.
    Parked,
}

/// An executor and the thread that runs it.
pub struct Thread<F, T, W> {
    pub rt: Model<F, T, W>,
    pub phase: Phase,
    /// Whether the next `park` returns at once.
    pub token: bool,
    /// How many threads have taken the request to unpark and have yet to do it.
    pub owed: nat,
}

/// What happens to an executor and its thread.
pub enum Happening<F, T, W> {
    /// Any thread performs an operation other than a dispatch.
    Operate(Op<F, T, W>),
    /// Any thread takes the request to unpark.
    Take,
    /// A thread that took the request unparks the executor thread.
    Unpark,
    /// The executor thread goes through the run queue.
    Dispatch,
    /// The executor thread calls `park`.
    Park,
    /// `park` returns although nobody called `unpark`.
    Spurious,
}

impl<F, T, W> Thread<F, T, W> {
    /// Whether this can happen.
    pub open spec fn allows(self, what: Happening<F, T, W>) -> bool {
        match what {
            Happening::Operate(op) => {
                &&& op !is Dispatch
                &&& op !is TakeUnpark
                &&& self.rt.allows(op)
            },
            Happening::Take => self.rt.queue.notified,
            Happening::Unpark => self.owed > 0,
            Happening::Dispatch => self.phase is Busy,
            Happening::Park => self.phase is Parking,
            Happening::Spurious => self.phase is Parked,
        }
    }

    /// The executor and its thread afterwards.
    pub open spec fn after(self, what: Happening<F, T, W>) -> Self {
        match what {
            Happening::Operate(op) => Thread { rt: self.rt.after(op), ..self },
            Happening::Take => Thread {
                rt: self.rt.after(Op::TakeUnpark),
                owed: self.owed + 1,
                ..self
            },
            Happening::Unpark => {
                let owed = (self.owed - 1) as nat;
                if self.phase is Parked {
                    Thread { phase: Phase::Busy, token: false, owed, ..self }
                } else {
                    Thread { token: true, owed, ..self }
                }
            },
            Happening::Dispatch => {
                let phase = if self.rt.next_task() is None {
                    Phase::Parking
                } else {
                    Phase::Busy
                };
                Thread { rt: self.rt.after(Op::Dispatch), phase, ..self }
            },
            Happening::Park => {
                let phase = if self.token {
                    Phase::Busy
                } else {
                    Phase::Parked
                };
                Thread { phase, token: false, ..self }
            },
            Happening::Spurious => Thread { phase: Phase::Busy, ..self },
        }
    }

    /// Whether these can happen one after the other.
    pub open spec fn allows_all(self, happenings: Seq<Happening<F, T, W>>) -> bool
        decreases happenings.len(),
    {
        happenings.len() == 0 || (self.allows(happenings[0]) && self.after(
            happenings[0],
        ).allows_all(happenings.drop_first()))
    }

    /// The executor and its thread after all of these.
    pub open spec fn after_all(self, happenings: Seq<Happening<F, T, W>>) -> Self
        decreases happenings.len(),
    {
        if happenings.len() == 0 {
            self
        } else {
            self.after(happenings[0]).after_all(happenings.drop_first())
        }
    }

    /// If the thread is not at work although the run queue has entries, an
    /// unpark is still to come, or will keep it from parking.
    pub open spec fn will_notice(self) -> bool {
        ||| self.phase is Busy
        ||| self.rt.queue.is_drained()
        ||| self.rt.queue.notified
        ||| self.owed > 0
        ||| self.token && self.phase is Parking
    }
}

/// Nothing that happens makes the thread miss a wake-up.
proof fn lemma_still_notices<F, T, W>(t: Thread<F, T, W>, what: Happening<F, T, W>)
    requires
        t.rt.valid(),
        t.will_notice(),
        t.allows(what),
    ensures
        t.after(what).rt.valid(),
        t.after(what).will_notice(),
{
    match what {
        Happening::Operate(op) => {
            crate::laws::law_invariant_kept(t.rt, op);
            crate::laws::law_entries_keep_their_place(t.rt, op);
        },
        Happening::Take => crate::laws::law_invariant_kept(t.rt, Op::TakeUnpark),
        Happening::Dispatch => crate::laws::law_invariant_kept(t.rt, Op::Dispatch),
        Happening::Unpark | Happening::Park | Happening::Spurious => {},
    }
}

/// A thread that starts out at work misses no wake-up: whatever happens, it is
/// never parked with entries on the run queue and no unpark to come, asked for
/// or under way.
pub proof fn law_no_wake_up_is_missed<F, T, W>(
    t: Thread<F, T, W>,
    happenings: Seq<Happening<F, T, W>>,
)
    requires
        t.rt.valid(),
        t.will_notice(),
        t.allows_all(happenings),
    ensures
        ({
            let end = t.after_all(happenings);
            &&& end.will_notice()
            &&& end.phase is Parked && !end.rt.queue.is_drained() ==> end.rt.queue.notified
                || end.owed > 0
        }),
    decreases happenings.len(),
{
    if happenings.len() > 0 {
        lemma_still_notices(t, happenings[0]);
        law_no_wake_up_is_missed(t.after(happenings[0]), happenings.drop_first());
    }
}

} // verus!
