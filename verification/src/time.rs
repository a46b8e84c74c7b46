//! Points in time and lengths of time, to the nanosecond.

use std::cmp::Ordering;
use vstd::prelude::*;

verus! {

/// Nanoseconds in a second.
pub const NANOS_PER_SEC: u32 = 1_000_000_000;

/// A length of time.
#[derive(Debug, Clone, Copy, PartialEq, Eq, Structural)]
pub struct Duration {
    pub secs: u64,
    /// Less than a second.
    pub nanos: u32,
}

impl Duration {
    /// The part below a second is below a second.
    pub open spec fn wf(self) -> bool {
        self.nanos < NANOS_PER_SEC
    }

    /// The whole length in nanoseconds.
    pub open spec fn total(self) -> int {
        self.secs * NANOS_PER_SEC + self.nanos
    }

    /// The length `secs` plus `nanos`, where `nanos` is less than a second.
    pub fn new(secs: u64, nanos: u32) -> (duration: Duration)
        requires
            nanos < NANOS_PER_SEC,
        ensures
            duration.wf(),
            duration == (Duration { secs, nanos }),
    {
        Duration { secs, nanos }
    }
}

/// A point in time: how long ago the clock was started.
#[derive(Debug, Clone, Copy, PartialEq, Eq, Structural)]
pub struct Instant {
    pub secs: u64,
    /// Less than a second.
    pub nanos: u32,
}

/// The last nanosecond that can be reached by adding to an [`Instant`]. The
/// last second is left out, so that the longest [`Duration`] leads past the end
/// from everywhere.
pub open spec fn last_reachable() -> int {
    u64::MAX * NANOS_PER_SEC - 1
}

/// Nanoseconds from `now` until `then`, none if that is past.
pub open spec fn nanos_left(now: Instant, then: Instant) -> int {
    if then.total() > now.total() {
        then.total() - now.total()
    } else {
        0
    }
}

impl Instant {
    /// The part below a second is below a second.
    pub open spec fn wf(self) -> bool {
        self.nanos < NANOS_PER_SEC
    }

    /// Nanoseconds since the clock was started.
    pub open spec fn total(self) -> int {
        self.secs * NANOS_PER_SEC + self.nanos
    }

    /// Whether `self` comes before `other`.
    pub open spec fn before(self, other: Instant) -> bool {
        self.secs < other.secs || (self.secs == other.secs && self.nanos < other.nanos)
    }

    /// The point `secs` and `nanos` after the clock was started, where `nanos`
    /// is less than a second.
    pub fn new(secs: u64, nanos: u32) -> (instant: Instant)
        requires
            nanos < NANOS_PER_SEC,
        ensures
            instant.wf(),
            instant == (Instant { secs, nanos }),
    {
        Instant { secs, nanos }
    }

    /// The earlier comes first.
    pub fn order(&self, other: &Instant) -> (order: Ordering)
        ensures
            order == Ordering::Less <==> self.before(*other),
            order == Ordering::Equal <==> *self == *other,
            order == Ordering::Greater <==> other.before(*self),
    {
        if self.secs < other.secs {
            Ordering::Less
        } else if self.secs > other.secs {
            Ordering::Greater
        } else if self.nanos < other.nanos {
            Ordering::Less
        } else if self.nanos > other.nanos {
            Ordering::Greater
        } else {
            Ordering::Equal
        }
    }

    /// The point `duration` later, if it can be reached.
    pub fn checked_add(&self, duration: Duration) -> (later: Option<Instant>)
        requires
            self.wf(),
            duration.wf(),
        ensures
            match later {
                Some(later) => {
                    &&& later.wf()
                    &&& later.total() == self.total() + duration.total()
                    &&& later.total() <= last_reachable()
                },
                None => self.total() + duration.total() > last_reachable(),
            },
    {
        let nanos: u32 = self.nanos + duration.nanos;
        let secs: u64 = match self.secs.checked_add(duration.secs) {
            Some(secs) => secs,
            None => {
                return None;
            },
        };
        if secs == u64::MAX {
            None
        } else if nanos < NANOS_PER_SEC {
            Some(Instant { secs, nanos })
        } else if secs + 1 == u64::MAX {
            None
        } else {
            Some(Instant { secs: secs + 1, nanos: nanos - NANOS_PER_SEC })
        }
    }

    /// How long after `earlier` this is; nothing if it is not after it.
    pub fn saturating_duration_since(&self, earlier: Instant) -> (elapsed: Duration)
        requires
            self.wf(),
            earlier.wf(),
        ensures
            elapsed.wf(),
            elapsed.total() == nanos_left(earlier, *self),
    {
        if self.secs < earlier.secs || (self.secs == earlier.secs && self.nanos <= earlier.nanos) {
            Duration { secs: 0, nanos: 0 }
        } else if self.nanos >= earlier.nanos {
            Duration { secs: self.secs - earlier.secs, nanos: self.nanos - earlier.nanos }
        } else {
            Duration {
                secs: self.secs - earlier.secs - 1,
                nanos: NANOS_PER_SEC - earlier.nanos + self.nanos,
            }
        }
    }
}

/// The order of instants is the order of the nanoseconds they name.
pub proof fn lemma_before_is_less(a: Instant, b: Instant)
    requires
        a.wf(),
        b.wf(),
    ensures
        a.before(b) <==> a.total() < b.total(),
        a == b <==> a.total() == b.total(),
{
}

} // verus!
