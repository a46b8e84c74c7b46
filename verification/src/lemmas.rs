//! Facts about the executor model that the executor's proofs rest on.

use crate::join::ShareState;
use crate::model::{Model, Outcome};
use crate::queue::TaskId;
use vstd::prelude::*;

verus! {

/// Where only one task may be unreachable, collecting is about that task
/// alone, and leaves a valid executor.
pub proof fn lemma_collect_one<F, T, W>(m: Model<F, T, W>, id: TaskId)
    requires
        m.valid_but(Some(id)),
    ensures
        m.collect().valid(),
        m.collect().queue == m.queue,
        m.collect().next == m.next,
        m.collect().tasks == (if m.tasks.contains_key(id) && !m.live(id) {
            m.tasks.remove(id)
        } else {
            m.tasks
        }),
        m.collect().cells == (if m.cells.contains_key(id) && !m.cells[id].handle && !(m.live(id)
            && m.unfinished(id)) {
            m.cells.remove(id)
        } else {
            m.cells
        }),
{
    broadcast use vstd::seq_lib::to_multiset_contains;

    let c = m.collect();
    assert forall|j: TaskId| j != id && m.unfinished(j) implies #[trigger] c.unfinished(j) by {
        assert(m.tasks.contains_key(j));
    }
    assert(c.tasks =~= if m.tasks.contains_key(id) && !m.live(id) {
        m.tasks.remove(id)
    } else {
        m.tasks
    });
    assert(c.cells =~= if m.cells.contains_key(id) && !m.cells[id].handle && !(m.live(id)
        && m.unfinished(id)) {
        m.cells.remove(id)
    } else {
        m.cells
    });
    assert forall|j: TaskId| c.unfinished(j) implies m.unfinished(j) by {}
    assert forall|i: int| 0 <= i < c.queue.ready.len() implies c.tasks.contains_key(
        #[trigger] c.queue.ready[i],
    ) by {
        let j = m.queue.ready[i];
        assert(m.queue.ready.contains(j));
        assert(m.queued(j) > 0);
    }
    assert forall|j: TaskId| #[trigger] c.tasks.contains_key(j) implies c.live(j) by {
        assert(m.tasks.contains_key(j));
    }
}

/// A valid executor has nothing to collect.
pub proof fn lemma_collect_valid<F, T, W>(m: Model<F, T, W>)
    requires
        m.valid(),
    ensures
        m.collect() == m,
{
    assert(m.collect().tasks =~= m.tasks);
    assert forall|id: TaskId| m.unfinished(id) implies #[trigger] m.collect().unfinished(id) by {
        assert(m.tasks.contains_key(id));
    }
    assert(m.collect().cells =~= m.cells);
}

/// If the one task that may be unreachable is not, there is nothing to
/// collect.
pub proof fn lemma_valid_if_live<F, T, W>(m: Model<F, T, W>, id: TaskId)
    requires
        m.valid_but(Some(id)),
        m.tasks.contains_key(id),
        m.live(id),
        m.cells.contains_key(id) ==> m.cells[id].handle || m.unfinished(id),
    ensures
        m.valid(),
        m.collect() == m,
{
    lemma_collect_valid(m);
}

/// Waking a task adds a reference to it and takes none away.
pub proof fn lemma_woken_by_ref<F, T, W>(m: Model<F, T, W>, id: TaskId, loose: Option<TaskId>)
    requires
        m.valid_but(loose),
        m.tasks.contains_key(id),
    ensures
        m.woken_by_ref(id).valid_but(loose),
        m.queue.poisoned ==> m.woken_by_ref(id).queue.ready == m.queue.ready,
        !m.queue.poisoned ==> m.woken_by_ref(id).queued(id) == m.queued(id) + 1,
        forall|j: TaskId| j != id ==> #[trigger] m.woken_by_ref(id).queued(j) == m.queued(j),
{
    broadcast use vstd::seq_lib::to_multiset_build;

    let after = m.woken_by_ref(id);
    assert forall|j: TaskId| after.unfinished(j) implies m.unfinished(j) by {}
    assert forall|j: TaskId| m.unfinished(j) implies after.unfinished(j) by {}
}

/// A waker more changes nothing but its task's count.
pub proof fn lemma_waker_added<F, T, W>(m: Model<F, T, W>, id: TaskId)
    requires
        m.valid(),
        m.tasks.contains_key(id),
    ensures
        m.waker_added(id).valid(),
        forall|j: TaskId| #[trigger]
            m.waker_added(id).strong(j) == m.strong(j) + if j == id {
                1int
            } else {
                0
            },
{
    let after = m.waker_added(id);
    assert forall|j: TaskId| after.unfinished(j) implies m.unfinished(j) by {}
    assert forall|j: TaskId| m.unfinished(j) implies after.unfinished(j) by {}
}

/// A waker less leaves at most its task unreachable.
pub proof fn lemma_waker_removed<F, T, W>(m: Model<F, T, W>, id: TaskId)
    requires
        m.valid(),
        m.has_waker(id),
    ensures
        m.waker_removed(id).valid_but(Some(id)),
        forall|j: TaskId| #[trigger]
            m.waker_removed(id).strong(j) == m.strong(j) - if j == id {
                1int
            } else {
                0
            },
{
    let after = m.waker_removed(id);
    assert forall|j: TaskId| after.unfinished(j) implies m.unfinished(j) by {}
    assert forall|j: TaskId| m.unfinished(j) implies after.unfinished(j) by {}
}

/// Taking the first entry off the run queue takes one reference from its task.
pub proof fn lemma_pop<F, T, W>(m: Model<F, T, W>)
    requires
        m.valid(),
        m.queue.ready.len() > 0,
    ensures
        m.with_ready(m.queue.ready.drop_first()).valid_but(Some(m.queue.ready[0])),
        m.queued(m.queue.ready[0]) > 0,
        forall|j: TaskId| #[trigger]
            m.with_ready(m.queue.ready.drop_first()).queued(j) == m.queued(j) - if j
                == m.queue.ready[0] {
                1int
            } else {
                0
            },
{
    let ready = m.queue.ready;
    let after = m.with_ready(ready.drop_first());
    lemma_drop_first_count(ready);
    assert forall|i: int| 0 <= i < after.queue.ready.len() implies after.tasks.contains_key(
        #[trigger] after.queue.ready[i],
    ) by {
        assert(after.queue.ready[i] == ready[i + 1]);
    }
    assert forall|j: TaskId| after.unfinished(j) implies m.unfinished(j) by {}
    assert forall|j: TaskId| m.unfinished(j) implies after.unfinished(j) by {}
}

/// Without its first element, a sequence holds that element once less.
pub proof fn lemma_drop_first_count(s: Seq<TaskId>)
    requires
        s.len() > 0,
    ensures
        s.to_multiset().count(s[0]) > 0,
        forall|j: TaskId| #[trigger]
            s.drop_first().to_multiset().count(j) == s.to_multiset().count(j) - if j == s[0] {
                1int
            } else {
                0
            },
{
    broadcast use vstd::seq_lib::to_multiset_contains;

    assert(s.remove(0) =~= s.drop_first());
    vstd::seq_lib::to_multiset_remove(s, 0);
    assert(s.contains(s[0]));
}

/// Collecting in two steps, as the run queue gets shorter, is collecting once.
pub proof fn lemma_collect_twice<F, T, W>(m: Model<F, T, W>, long: Seq<TaskId>)
    requires
        long.len() > 0,
    ensures
        m.with_ready(long).collect().with_ready(long.drop_first()).collect() == m.with_ready(
            long.drop_first(),
        ).collect(),
{
    let short = long.drop_first();
    lemma_drop_first_count(long);
    let first = m.with_ready(long).collect();
    let twice = first.with_ready(short).collect();
    let once = m.with_ready(short).collect();
    assert forall|j: TaskId| once.tasks.contains_key(j) implies twice.tasks.contains_key(j) by {
        assert(short.to_multiset().count(j) <= long.to_multiset().count(j));
        assert(first.tasks.contains_key(j));
    }
    assert(twice.tasks =~= once.tasks);
    assert forall|j: TaskId| once.unfinished(j) implies first.unfinished(j) by {
        assert(once.tasks.contains_key(j));
        assert(short.to_multiset().count(j) <= long.to_multiset().count(j));
    }
    assert forall|j: TaskId| once.cells.contains_key(j) implies twice.cells.contains_key(j) by {
        if !m.cells[j].handle {
            assert(once.unfinished(j));
            assert(twice.unfinished(j));
        }
    }
    assert(twice.cells =~= once.cells);
}

/// Where everything before `rest` was passed over, taking the future of the
/// first task of `rest` is taking it from the whole.
pub proof fn lemma_take_future<F, T, W>(m: Model<F, T, W>, rest: Seq<TaskId>)
    requires
        rest.len() > 0,
        m.with_ready(rest).collect().valid(),
        m.with_ready(rest).collect().runnable(rest[0]),
    ensures
        m.with_ready(rest).collect().taken(rest[0]).with_ready(rest.drop_first()).valid(),
        m.with_ready(rest).collect().taken(rest[0]).with_ready(rest.drop_first()) == m.taken(
            rest[0],
        ).with_ready(rest.drop_first()).collect(),
{
    let id = rest[0];
    let short = rest.drop_first();
    let here = m.with_ready(rest).collect();
    let popped = here.with_ready(short);
    let after = here.taken(id).with_ready(short);
    lemma_pop(here);
    assert forall|j: TaskId| after.unfinished(j) implies popped.unfinished(j) by {}
    assert forall|j: TaskId| popped.unfinished(j) implies after.unfinished(j) by {}
    assert forall|j: TaskId| #[trigger] after.tasks.contains_key(j) implies after.live(j) by {
        assert(popped.tasks.contains_key(j));
        assert(j != id ==> popped.live(j));
    }
    assert(here.unfinished(id));
    assert(here.cells.contains_key(id));

    let whole = m.taken(id).with_ready(rest);
    assert(whole.collect().tasks =~= here.taken(id).tasks);
    assert forall|j: TaskId| whole.collect().unfinished(j) implies here.unfinished(j) by {}
    assert forall|j: TaskId| here.unfinished(j) implies whole.collect().unfinished(j) by {}
    assert(whole.collect().cells =~= here.cells) by {
        assert forall|j: TaskId| #[trigger] here.cells.contains_key(j) implies whole.collect()
            .cells.contains_key(j) by {
            if !m.cells[j].handle {
                assert(here.unfinished(j));
                assert(whole.collect().unfinished(j));
            }
        }
        assert forall|j: TaskId| #[trigger]
            whole.collect().cells.contains_key(j) implies here.cells.contains_key(j) by {
            if !m.cells[j].handle {
                assert(whole.collect().unfinished(j));
                assert(here.unfinished(j));
            }
        }
    }
    assert(whole.collect() =~= here.taken(id));
    lemma_collect_twice(m.taken(id), rest);
    lemma_collect_valid(after);
}

/// The end of a poll leaves at most the polled task unreachable.
pub proof fn lemma_polled<F, T, W>(m: Model<F, T, W>, id: TaskId, outcome: Outcome<F, T>)
    requires
        m.valid(),
        m.running(id),
    ensures
        m.unfinished(id),
        m.cells.contains_key(id),
        m.polled(id, outcome).valid_but(Some(id)),
{
    assert(m.unfinished(id));
    let after = m.polled(id, outcome);
    assert forall|j: TaskId| after.unfinished(j) implies m.unfinished(j) by {}
    assert forall|j: TaskId| j != id && m.unfinished(j) implies after.unfinished(j) by {}
    assert forall|j: TaskId| #[trigger] after.tasks.contains_key(j) && j != id implies after.live(
        j,
    ) by {
        assert(m.tasks.contains_key(j));
    }
}

/// Giving up a handle leaves at most its cell unreachable.
pub proof fn lemma_detached<F, T, W>(m: Model<F, T, W>, id: TaskId)
    requires
        m.valid(),
        m.has_handle(id),
    ensures
        m.detached(id).valid_but(Some(id)),
{
    let after = m.detached(id);
    assert forall|j: TaskId| after.unfinished(j) implies m.unfinished(j) by {}
    assert forall|j: TaskId| m.unfinished(j) implies after.unfinished(j) by {}
}

/// Changing the cell of a task keeps the invariant, if it puts no result there
/// before the task has finished.
pub proof fn lemma_with_cell<F, T, W>(m: Model<F, T, W>, id: TaskId, state: ShareState<T, W>)
    requires
        m.valid(),
        m.has_handle(id),
        m.cells[id].state.result is None ==> state.result is None,
    ensures
        m.with_cell(id, state).valid(),
{
    let after = m.with_cell(id, state);
    assert forall|j: TaskId| after.unfinished(j) implies m.unfinished(j) by {}
    assert forall|j: TaskId| m.unfinished(j) implies after.unfinished(j) by {}
}

/// Claiming a result keeps the invariant.
pub proof fn lemma_claimed<F, T, W>(m: Model<F, T, W>, id: TaskId)
    requires
        m.valid(),
        m.has_handle(id),
        m.cells[id].state.result is Some,
    ensures
        m.claimed(id).valid(),
{
    let after = m.claimed(id);
    assert forall|j: TaskId| after.unfinished(j) implies m.unfinished(j) by {}
    assert forall|j: TaskId| m.unfinished(j) implies after.unfinished(j) by {}
}

/// A new task is the only one that may be unreachable.
pub proof fn lemma_spawned<F, T, W>(m: Model<F, T, W>, fut: F)
    requires
        m.valid(),
        m.next < u64::MAX,
    ensures
        m.spawned(fut).valid_but(Some(m.next as TaskId)),
        m.spawned(fut).queued(m.next as TaskId) == if m.queue.poisoned {
            0nat
        } else {
            1
        },
        forall|j: TaskId| j != m.next ==> #[trigger] m.spawned(fut).queued(j) == m.queued(j),
{
    broadcast use vstd::seq_lib::to_multiset_build, vstd::seq_lib::to_multiset_contains;

    let id = m.next as TaskId;
    let after = m.spawned(fut);
    assert(!m.tasks.contains_key(id));
    assert(!m.cells.contains_key(id));
    assert(!m.queue.ready.contains(id)) by {
        if m.queue.ready.contains(id) {
            let i = m.queue.ready.index_of(id);
            assert(m.tasks.contains_key(m.queue.ready[i]));
        }
    }
    assert forall|j: TaskId| j != id && after.unfinished(j) implies m.unfinished(j) by {}
    assert forall|j: TaskId| m.unfinished(j) implies after.unfinished(j) by {}
    assert forall|j: TaskId| #[trigger] after.tasks.contains_key(j) && j != id implies after.live(
        j,
    ) by {
        assert(m.tasks.contains_key(j));
        assert(after.queued(j) == m.queued(j));
    }
    assert forall|i: int| 0 <= i < after.queue.ready.len() implies after.tasks.contains_key(
        #[trigger] after.queue.ready[i],
    ) by {
        if i < m.queue.ready.len() {
            assert(after.queue.ready[i] == m.queue.ready[i]);
        }
    }
}

/// Validity does not depend on whether the queue is poisoned or the executor
/// thread notified.
pub proof fn lemma_same_ready<F, T, W>(m: Model<F, T, W>, after: Model<F, T, W>)
    requires
        m.valid(),
        after.queue.ready == m.queue.ready,
        after.tasks == m.tasks,
        after.cells == m.cells,
        after.next == m.next,
    ensures
        after.valid(),
        forall|j: TaskId| #[trigger] after.strong(j) == m.strong(j),
{
    assert forall|j: TaskId| after.unfinished(j) implies m.unfinished(j) by {}
    assert forall|j: TaskId| m.unfinished(j) implies after.unfinished(j) by {}
    assert forall|j: TaskId| #[trigger] after.tasks.contains_key(j) implies after.live(j) by {
        assert(m.tasks.contains_key(j));
    }
}

} // verus!
