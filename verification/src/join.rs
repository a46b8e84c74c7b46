//! The state a spawned task shares with the one who awaits its result.

use vstd::prelude::*;

verus! {

/// What a poll came to.
#[derive(Debug, PartialEq, Eq)]
pub enum Poll<T> {
    /// The value is there.
    Ready(T),
    /// Not yet; the registered waker will be woken.
    Pending,
}

/// The waker on record after `waker` was offered: the one already there is
/// kept if it is known to wake the same task.
pub open spec fn registered<W>(slot: Option<W>, waker: W, will_wake: bool) -> Option<W> {
    if slot is Some && will_wake {
        slot
    } else {
        Some(waker)
    }
}

/// The waker that is not needed after `waker` was offered.
pub open spec fn displaced<W>(slot: Option<W>, waker: W, will_wake: bool) -> Option<W> {
    if slot is Some && will_wake {
        Some(waker)
    } else {
        slot
    }
}

/// Puts `waker` on record in `slot`. `will_wake` says that the waker in `slot`,
/// if there is one, wakes the same task; it is then kept. Returns the waker
/// that is not needed.
pub fn register<W>(slot: &mut Option<W>, waker: W, will_wake: bool) -> (unused: Option<W>)
    ensures
        *final(slot) == registered(*old(slot), waker, will_wake),
        unused == displaced(*old(slot), waker, will_wake),
{
    if slot.is_some() && will_wake {
        Some(waker)
    } else {
        let previous = slot.take();
        *slot = Some(waker);
        previous
    }
}

/// Whether offering `waker` to `slot` may leave `after` on record and hand out
/// `unused`: a waker already there is kept if `will_wake` says that it wakes
/// the same task; otherwise a clone of `waker` takes its place.
pub open spec fn registers<W: Clone, S: Fn(&W, &W) -> bool>(
    slot: Option<W>,
    waker: &W,
    will_wake: S,
    after: Option<W>,
    unused: Option<W>,
) -> bool {
    ||| {
        &&& slot matches Some(previous) && call_ensures(will_wake, (&previous, waker), true)
        &&& after == slot
        &&& unused is None
    }
    ||| {
        &&& slot matches Some(previous) ==> call_ensures(will_wake, (&previous, waker), false)
        &&& after matches Some(copy) && cloned::<W>(*waker, copy)
        &&& unused == slot
    }
}

/// Puts a clone of `waker` on record in `slot`, unless the waker there is one
/// that wakes the same task by `will_wake`. Returns the waker that is not
/// needed.
pub fn register_clone<W: Clone, S: Fn(&W, &W) -> bool>(
    slot: &mut Option<W>,
    waker: &W,
    will_wake: S,
) -> (unused: Option<W>)
    requires
        forall|a: &W, b: &W| call_requires(will_wake, (a, b)),
    ensures
        registers(*old(slot), waker, will_wake, *final(slot), unused),
{
    let same = match slot.as_ref() {
        Some(previous) => will_wake(previous, waker),
        None => false,
    };
    if same {
        None
    } else {
        register(slot, waker.clone(), false)
    }
}

/// Whether a poll has to put a new waker in `slot`: there is none, or
/// `will_wake` says of the one there that it wakes another task.
pub fn needs_waker<W, S: Fn(&W) -> bool>(slot: &Option<W>, will_wake: S) -> (needed: bool)
    requires
        forall|a: &W| call_requires(will_wake, (a,)),
    ensures
        match *slot {
            Some(waker) => call_ensures(will_wake, (&waker,), !needed),
            None => needed,
        },
{
    match slot.as_ref() {
        Some(waker) => !will_wake(waker),
        None => true,
    }
}

/// The result of a task and the waker of the one who waits for it.
#[derive(Debug)]
#[verifier::ext_equal]
pub struct ShareState<T, W> {
    pub result: Option<T>,
    pub waker: Option<W>,
}

impl<T, W> ShareState<T, W> {
    /// No result yet and nobody waiting.
    pub fn new() -> (state: Self)
        ensures
            state == (ShareState { result: None::<T>, waker: None::<W> }),
    {
        ShareState { result: None, waker: None }
    }

    /// Stores the task's result and hands out the waker to be woken for it.
    pub fn complete(&mut self, result: T) -> (waker: Option<W>)
        ensures
            *final(self) == (ShareState { result: Some(result), waker: None::<W> }),
            waker == old(self).waker,
    {
        self.result = Some(result);
        self.waker.take()
    }

    /// The state after a poll with `waker`: the result is taken if it is
    /// there, otherwise the waker is put on record.
    pub open spec fn after_poll(self, waker: W, will_wake: bool) -> Self {
        if self.result is Some {
            ShareState { result: None, ..self }
        } else {
            ShareState { waker: registered(self.waker, waker, will_wake), ..self }
        }
    }

    /// What a poll returns.
    pub open spec fn poll_result(self) -> Poll<T> {
        match self.result {
            Some(result) => Poll::Ready(result),
            None => Poll::Pending,
        }
    }

    /// The waker that a poll with `waker` does not need.
    pub open spec fn poll_unused(self, waker: W, will_wake: bool) -> Option<W> {
        if self.result is Some {
            Some(waker)
        } else {
            displaced(self.waker, waker, will_wake)
        }
    }

    /// Takes the result if it is there, otherwise puts a clone of `waker` on
    /// record, unless the waker there wakes the same task by `will_wake`. The
    /// second component is the waker that is not needed.
    pub fn poll<S: Fn(&W, &W) -> bool>(&mut self, waker: &W, will_wake: S) -> (polled: (
        Poll<T>,
        Option<W>,
    )) where W: Clone
        requires
            forall|a: &W, b: &W| call_requires(will_wake, (a, b)),
        ensures
            polled.0 == old(self).poll_result(),
            old(self).result is Some ==> {
                &&& *final(self) == (ShareState { result: None, ..*old(self) })
                &&& polled.1 is None
            },
            old(self).result is None ==> {
                &&& final(self).result is None
                &&& registers(old(self).waker, waker, will_wake, final(self).waker, polled.1)
            },
    {
        match self.result.take() {
            Some(result) => (Poll::Ready(result), None),
            None => {
                let unused = register_clone(&mut self.waker, waker, will_wake);
                (Poll::Pending, unused)
            },
        }
    }

    /// Takes the result if it is there, otherwise puts `waker` on record;
    /// `will_wake` says that the waker there, if there is one, wakes the same
    /// task. The second component is the waker that is not needed.
    pub fn poll_with(&mut self, waker: W, will_wake: bool) -> (polled: (Poll<T>, Option<W>))
        ensures
            *final(self) == old(self).after_poll(waker, will_wake),
            polled.0 == old(self).poll_result(),
            polled.1 == old(self).poll_unused(waker, will_wake),
    {
        match self.result.take() {
            Some(result) => (Poll::Ready(result), Some(waker)),
            None => {
                let unused = register(&mut self.waker, waker, will_wake);
                (Poll::Pending, unused)
            },
        }
    }
}

} // verus!
