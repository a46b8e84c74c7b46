//! The pending timers, with the earliest deadline at hand.

use crate::timer::TimerEntry;
use std::cmp::Ordering;
use vstd::multiset::Multiset;
use vstd::prelude::*;

verus! {

/// Whether the deadline of `a` is no later than that of `b`.
pub open spec fn no_later(a: TimerEntry, b: TimerEntry) -> bool {
    !b.deadline.before(a.deadline)
}

/// Whether `entry` is pending and no other pending timer is due before it.
pub open spec fn is_earliest(pending: Multiset<TimerEntry>, entry: TimerEntry) -> bool {
    &&& pending.contains(entry)
    &&& forall|other: TimerEntry| #[trigger] pending.contains(other) ==> no_later(entry, other)
}

/// Whether `child` is the position of a child of `parent` in the tree.
spec fn is_child(parent: int, child: int) -> bool {
    child == 2 * parent + 1 || child == 2 * parent + 2
}

/// No entry is due before its parent, leaving out the pair whose child is at
/// `loose`.
spec fn ordered_but(s: Seq<TimerEntry>, loose: int) -> bool {
    forall|p: int, c: int|
        0 <= p && c < s.len() && c != loose && #[trigger] is_child(p, c) ==> no_later(s[p], s[c])
}

/// No entry is due before its parent, leaving out the pairs whose parent is at
/// `loose`.
spec fn ordered_below_but(s: Seq<TimerEntry>, loose: int) -> bool {
    forall|p: int, c: int|
        0 <= p && c < s.len() && p != loose && #[trigger] is_child(p, c) ==> no_later(s[p], s[c])
}

/// The children of `at` are due no earlier than its parent.
spec fn grandchildren_ordered(s: Seq<TimerEntry>, at: int) -> bool {
    forall|p: int, c: int|
        0 <= p && c < s.len() && #[trigger] is_child(p, at) && #[trigger] is_child(at, c)
            ==> no_later(s[p], s[c])
}

/// Whether the deadline of `a` is before that of `b`.
fn due_before(a: &TimerEntry, b: &TimerEntry) -> (before: bool)
    ensures
        before <==> a.deadline.before(b.deadline),
{
    match a.cmp(b) {
        Ordering::Less => true,
        _ => false,
    }
}

/// A binary heap of timers, the earliest deadline on top.
pub struct TimerHeap {
    entries: Vec<TimerEntry>,
}

impl View for TimerHeap {
    type V = Multiset<TimerEntry>;

    closed spec fn view(&self) -> Multiset<TimerEntry> {
        self.entries@.to_multiset()
    }
}

/// Exchanging two elements keeps the contents.
proof fn lemma_swap_keeps_contents(s: Seq<TimerEntry>, i: int, j: int)
    requires
        0 <= i < s.len(),
        0 <= j < s.len(),
        i != j,
    ensures
        s.update(i, s[j]).update(j, s[i]).to_multiset() == s.to_multiset(),
{
    broadcast use vstd::seq_lib::to_multiset_contains;

    let once = s.update(i, s[j]);
    vstd::seq_lib::to_multiset_update(s, i, s[j]);
    vstd::seq_lib::to_multiset_update(once, j, s[i]);
    assert(s.contains(s[i]));
    assert(s.contains(s[j]));
    assert(once[j] == s[j]);
    assert(once.update(j, s[i]).to_multiset() =~= s.to_multiset());
}

/// The entry on top is the earliest of all.
proof fn lemma_top_is_earliest(s: Seq<TimerEntry>, i: int)
    requires
        ordered_but(s, 0),
        0 <= i < s.len(),
    ensures
        no_later(s[0], s[i]),
    decreases i,
{
    if i > 0 {
        let p = (i - 1) / 2;
        lemma_top_is_earliest(s, p);
        assert(is_child(p, i));
        assert(no_later(s[p], s[i]));
    }
}

impl TimerHeap {
    /// The heap's order.
    pub closed spec fn wf(&self) -> bool {
        ordered_but(self.entries@, 0)
    }

    /// No timers.
    pub fn new() -> (heap: Self)
        ensures
            heap.wf(),
            heap@ == Multiset::<TimerEntry>::empty(),
    {
        let heap = TimerHeap { entries: Vec::new() };
        assert(heap@ =~= Multiset::empty()) by {
            broadcast use vstd::seq_lib::to_multiset_contains;

        }
        heap
    }

    /// Whether no timer is pending.
    pub fn is_empty(&self) -> (empty: bool)
        ensures
            empty <==> self@.len() == 0,
            empty <==> self@ == Multiset::<TimerEntry>::empty(),
    {
        proof {
            self.lemma_empty();
        }
        self.entries.len() == 0
    }

    /// The heap holds nothing when it has no entries.
    proof fn lemma_empty(&self)
        ensures
            self@.len() == self.entries@.len(),
            self.entries@.len() == 0 <==> self@ == Multiset::<TimerEntry>::empty(),
    {
        broadcast use vstd::seq_lib::to_multiset_contains, vstd::seq_lib::to_multiset_len;

        if self.entries@.len() == 0 {
            assert(self@ =~= Multiset::empty());
        }
    }

    /// The timer that is due next, or one of those that are.
    pub fn peek(&self) -> (top: Option<TimerEntry>)
        requires
            self.wf(),
        ensures
            match top {
                Some(entry) => is_earliest(self@, entry),
                None => self@ == Multiset::<TimerEntry>::empty(),
            },
    {
        proof {
            self.lemma_empty();
        }
        if self.entries.len() == 0 {
            None
        } else {
            proof {
                self.lemma_top();
            }
            Some(self.entries[0])
        }
    }

    /// Whatever the heap holds is due no earlier than what is on top.
    proof fn lemma_top(&self)
        requires
            self.wf(),
            self.entries@.len() > 0,
        ensures
            is_earliest(self@, self.entries@[0]),
    {
        broadcast use vstd::seq_lib::to_multiset_contains;

        let s = self.entries@;
        assert(s.contains(s[0]));
        assert forall|other: TimerEntry| #[trigger] self@.contains(other) implies no_later(
            s[0],
            other,
        ) by {
            assert(s.contains(other));
            let i = s.index_of(other);
            lemma_top_is_earliest(s, i);
        }
    }

    /// Adds a timer.
    pub fn push(&mut self, entry: TimerEntry)
        requires
            old(self).wf(),
        ensures
            final(self).wf(),
            final(self)@ == old(self)@.insert(entry),
    {
        let ghost before = self.entries@;
        let mut at: usize = self.entries.len();
        self.entries.push(entry);
        proof {
            vstd::seq_lib::to_multiset_build(before, entry);
            assert forall|p: int, c: int|
                0 <= p && c < self.entries@.len() && c != at && #[trigger] is_child(
                    p,
                    c,
                ) implies no_later(self.entries@[p], self.entries@[c]) by {
                assert(no_later(before[p], before[c]));
            }
        }
        while at > 0
            invariant
                at < self.entries@.len(),
                before == old(self).entries@,
                self.entries@.to_multiset() == before.to_multiset().insert(entry),
                ordered_but(self.entries@, at as int),
                grandchildren_ordered(self.entries@, at as int),
            decreases at,
        {
            let parent: usize = (at - 1) / 2;
            let child = self.entries[at];
            let above = self.entries[parent];
            let ghost s = self.entries@;
            assert(is_child(parent as int, at as int));
            if !due_before(&child, &above) {
                assert(ordered_but(s, 0));
                return ;
            }
            self.entries.set(at, above);
            self.entries.set(parent, child);
            proof {
                lemma_swap_keeps_contents(s, at as int, parent as int);
                let t = self.entries@;
                assert(t =~= s.update(at as int, above).update(parent as int, child));
                assert forall|p: int, c: int|
                    0 <= p && c < t.len() && c != parent && #[trigger] is_child(
                        p,
                        c,
                    ) implies no_later(t[p], t[c]) by {
                    if p == at {
                        assert(is_child(parent as int, at as int) && is_child(at as int, c));
                    } else if p == parent {
                        assert(c != at ==> no_later(s[p], s[c]));
                    } else {
                        assert(c != at);
                        assert(no_later(s[p], s[c]));
                    }
                }
                assert forall|p: int, c: int|
                    0 <= p && c < t.len() && #[trigger] is_child(p, parent as int)
                        && #[trigger] is_child(parent as int, c) implies no_later(t[p], t[c]) by {
                    assert(no_later(s[p], s[parent as int]));
                    if c != at {
                        assert(no_later(s[parent as int], s[c]));
                    }
                }
            }
            at = parent;
        }
    }

    /// Takes out the timer that is due next, or one of those that are.
    pub fn pop(&mut self) -> (top: Option<TimerEntry>)
        requires
            old(self).wf(),
        ensures
            final(self).wf(),
            match top {
                Some(entry) => {
                    &&& is_earliest(old(self)@, entry)
                    &&& final(self)@ == old(self)@.remove(entry)
                },
                None => {
                    &&& old(self)@ == Multiset::<TimerEntry>::empty()
                    &&& final(self)@ == old(self)@
                },
            },
    {
        proof {
            self.lemma_empty();
        }
        if self.entries.len() == 0 {
            return None;
        }
        proof {
            self.lemma_top();
        }
        let ghost s = self.entries@;
        // The last entry takes the place of the top.
        let top = self.entries.swap_remove(0);
        proof {
            broadcast use vstd::seq_lib::to_multiset_contains;

            let n = s.len() - 1;
            let t = self.entries@;
            let moved = s.update(0, s[n]);
            vstd::seq_lib::to_multiset_update(s, 0, s[n]);
            vstd::seq_lib::to_multiset_remove(moved, n);
            assert(moved.remove(n) =~= t);
            assert(s.contains(s[n]));
            assert(s.contains(s[0]));
            assert(t.to_multiset() =~= s.to_multiset().remove(s[0]));
            assert forall|p: int, c: int|
                0 <= p && c < t.len() && p != 0 && #[trigger] is_child(p, c) implies no_later(
                t[p],
                t[c],
            ) by {
                assert(no_later(s[p], s[c]));
            }
        }
        self.sift_down();
        Some(top)
    }

    /// Moves the entry on top down to where it belongs.
    fn sift_down(&mut self)
        requires
            ordered_below_but(old(self).entries@, 0),
        ensures
            final(self).wf(),
            final(self)@ == old(self)@,
    {
        let len: usize = self.entries.len();
        let mut at: usize = 0;
        while at < len / 2
            invariant
                len == self.entries@.len(),
                at == 0 || at < len,
                self@ == old(self)@,
                ordered_below_but(self.entries@, at as int),
                grandchildren_ordered(self.entries@, at as int),
            decreases len - at,
        {
            let left: usize = 2 * at + 1;
            let right: usize = left + 1;
            let ghost s = self.entries@;
            let mut child: usize = left;
            if right < len && due_before(&self.entries[right], &self.entries[left]) {
                child = right;
            }
            let above = self.entries[at];
            let below = self.entries[child];
            assert(is_child(at as int, child as int));
            assert forall|c: int| c < len && #[trigger] is_child(at as int, c) implies no_later(
                s[child as int],
                s[c],
            ) by {}
            if !due_before(&below, &above) {
                assert(ordered_but(s, 0));
                return ;
            }
            self.entries.set(at, below);
            self.entries.set(child, above);
            proof {
                lemma_swap_keeps_contents(s, at as int, child as int);
                let t = self.entries@;
                assert(t =~= s.update(at as int, below).update(child as int, above));
                assert forall|p: int, c: int|
                    0 <= p && c < t.len() && p != child && #[trigger] is_child(
                        p,
                        c,
                    ) implies no_later(t[p], t[c]) by {
                    if p == at {
                        assert(no_later(s[child as int], s[c]));
                    } else if c == at {
                        assert(is_child(p, at as int) && is_child(at as int, child as int));
                    } else {
                        assert(no_later(s[p], s[c]));
                    }
                }
                assert forall|p: int, c: int|
                    0 <= p && c < t.len() && #[trigger] is_child(p, child as int)
                        && #[trigger] is_child(child as int, c) implies no_later(t[p], t[c]) by {
                    assert(p == at);
                    assert(no_later(s[child as int], s[c]));
                }
            }
            at = child;
        }
        assert(ordered_but(self.entries@, 0));
    }
}

} // verus!
