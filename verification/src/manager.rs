//! The stride-scheduling task manager.
//!
//! The manager owns the ready queue — an ordered multiset of tasks
//! eligible to run — and the epoch timestamp captured at construction.
//! Insertion order is not the scheduling order: `fetch` scans the whole
//! queue and removes the entry with the numerically least stride, so a
//! task with a smaller per-selection increment (higher priority) is due
//! proportionally more often, which is weighted fair sharing without a
//! global accounting pass.

use vstd::prelude::*;
use crate::task::Task;

verus! {

/// Owner of the ready queue and of the kernel-scheduler epoch.
///
/// Constructed exactly once at kernel initialization and handed around
/// explicitly; the external invocation loop holds it for the kernel's
/// entire run.
pub struct TaskManager {
    start_time: usize,
    ready_queue: Vec<Task>,
}

/// Index of the entry the scan settles on when it has examined
/// `[0, i)` with `best` the current winner: the first index of the
/// whole sequence holding the minimal stride.
pub open spec fn min_stride_index_from(q: Seq<Task>, i: int, best: int) -> int
    decreases q.len() - i,
{
    if i >= q.len() {
        best
    } else if q[i].stride < q[best].stride {
        min_stride_index_from(q, i + 1, i)
    } else {
        min_stride_index_from(q, i + 1, best)
    }
}

/// Index of the task `fetch` selects: the first entry whose stride is
/// minimal over the whole queue.
pub open spec fn min_stride_index(q: Seq<Task>) -> int {
    min_stride_index_from(q, 1, 0)
}

/// The selected index is in bounds and its stride is minimal.
pub proof fn lemma_min_stride_index_from_props(q: Seq<Task>, i: int, best: int)
    requires
        0 <= best < q.len(),
        best < i <= q.len(),
        forall|j: int| 0 <= j < i ==> q[best].stride <= (#[trigger] q[j]).stride,
    ensures
        0 <= min_stride_index_from(q, i, best) < q.len(),
        forall|j: int|
            0 <= j < q.len() ==> q[min_stride_index_from(q, i, best)].stride <= (#[trigger] q[j]).stride,
    decreases q.len() - i,
{
    if i < q.len() {
        if q[i].stride < q[best].stride {
            lemma_min_stride_index_from_props(q, i + 1, i);
        } else {
            lemma_min_stride_index_from_props(q, i + 1, best);
        }
    }
}

/// The task `fetch` selects carries the least stride in the queue.
pub proof fn lemma_min_stride_index_props(q: Seq<Task>)
    requires
        q.len() > 0,
    ensures
        0 <= min_stride_index(q) < q.len(),
        forall|j: int| 0 <= j < q.len() ==> q[min_stride_index(q)].stride <= (#[trigger] q[j]).stride,
{
    lemma_min_stride_index_from_props(q, 1, 0);
}

/// How many entries of the queue carry the given task identity.
pub open spec fn count_id(q: Seq<Task>, id: usize) -> nat
    decreases q.len(),
{
    if q.len() == 0 {
        0
    } else {
        count_id(q.drop_last(), id) + if q.last().id == id {
            1nat
        } else {
            0nat
        }
    }
}

/// Adding a task raises the count of its identity by one and leaves
/// every other identity's count unchanged.
pub proof fn lemma_count_id_push(q: Seq<Task>, t: Task, id: usize)
    ensures
        count_id(q.push(t), id) == count_id(q, id) + if t.id == id {
            1nat
        } else {
            0nat
        },
{
    assert(q.push(t).drop_last() =~= q);
}

/// Removing the entry at `k` lowers the count of that entry's identity
/// by one and leaves every other identity's count unchanged.
pub proof fn lemma_count_id_remove(q: Seq<Task>, k: int, id: usize)
    requires
        0 <= k < q.len(),
    ensures
        count_id(q, id) == count_id(q.remove(k), id) + if q[k].id == id {
            1nat
        } else {
            0nat
        },
    decreases q.len(),
{
    if k == q.len() - 1 {
        assert(q.remove(k) =~= q.drop_last());
    } else {
        lemma_count_id_remove(q.drop_last(), k, id);
        assert(q.remove(k).drop_last() =~= q.drop_last().remove(k));
        assert(q.remove(k).last() == q.last());
    }
}

/// Conservation of tasks across the ready queue (no loss, no
/// duplication): a task absent from the queue is present exactly once
/// after it is added; thereafter any single removal — and `fetch`
/// removes exactly the entry it returns — leaves it present exactly
/// once if some other entry was removed, and absent exactly when it was
/// the one fetched. So a task added exactly once is fetched exactly
/// once before it can be added again.
pub proof fn lemma_add_fetch_conservation(q: Seq<Task>, t: Task, k: int)
    requires
        count_id(q, t.id) == 0,
        0 <= k < q.push(t).len(),
    ensures
        count_id(q.push(t), t.id) == 1,
        count_id(q.push(t).remove(k), t.id) == if q.push(t)[k].id == t.id {
            0int
        } else {
            1int
        },
{
    lemma_count_id_push(q, t, t.id);
    lemma_count_id_remove(q.push(t), k, t.id);
}

impl TaskManager {
    /// Contents of the ready queue, in insertion order.
    pub closed spec fn queue(self) -> Seq<Task> {
        self.ready_queue@
    }

    /// The epoch captured at construction.
    pub closed spec fn spec_start_time(self) -> usize {
        self.start_time
    }

    /// Create an empty manager whose epoch is the given timer reading
    /// (milliseconds at kernel-scheduler construction).
    pub fn new(now_ms: usize) -> (mgr: TaskManager)
        ensures
            mgr.queue() == Seq::<Task>::empty(),
            mgr.spec_start_time() == now_ms,
    {
        TaskManager { start_time: now_ms, ready_queue: Vec::new() }
    }

    /// Append a task to the back of the ready queue.
    pub fn add(&mut self, task: Task)
        ensures
            final(self).queue() == old(self).queue().push(task),
            final(self).spec_start_time() == old(self).spec_start_time(),
    {
        self.ready_queue.push(task);
    }

    /// Remove and return the first task holding the minimal stride, its
    /// accumulator advanced by its own increment; on an empty queue
    /// signal "nothing ready" and leave the state untouched.
    pub fn fetch(&mut self) -> (result: Option<Task>)
        ensures
            final(self).spec_start_time() == old(self).spec_start_time(),
            old(self).queue().len() == 0 ==> {
                &&& result is None
                &&& final(self).queue() == old(self).queue()
            },
            old(self).queue().len() > 0 ==> {
                let q = old(self).queue();
                let k = min_stride_index(q);
                &&& result == Some(q[k].spec_advanced())
                &&& final(self).queue() == q.remove(k)
                &&& forall|j: int| 0 <= j < q.len() ==> q[k].stride <= (#[trigger] q[j]).stride
            },
    {
        if self.ready_queue.len() == 0 {
            return None;
        }
        let ghost q = self.ready_queue@;
        let mut best: usize = 0;
        let mut i: usize = 1;
        while i < self.ready_queue.len()
            invariant
                self.ready_queue@ == q,
                1 <= i <= q.len(),
                0 <= best < i,
                forall|j: int| 0 <= j < i ==> q[best as int].stride <= (#[trigger] q[j]).stride,
                min_stride_index_from(q, i as int, best as int) == min_stride_index(q),
            decreases q.len() - i,
        {
            if self.ready_queue[i].stride < self.ready_queue[best].stride {
                best = i;
            }
            i = i + 1;
        }
        let mut task = self.ready_queue.remove(best);
        task.add_stride();
        Some(task)
    }

    /// Number of tasks sitting in the ready queue.
    pub fn queue_len(&self) -> (len: usize)
        ensures
            len == self.queue().len(),
    {
        self.ready_queue.len()
    }

    /// The one-time epoch captured at construction: the base for the
    /// kernel's elapsed-time metrics.
    pub fn get_start_time(&self) -> (time: usize)
        ensures
            time == self.spec_start_time(),
    {
        self.start_time
    }
}

/// Place a task (back) into the ready queue, making it eligible for
/// dispatch.
pub fn add_task(mgr: &mut TaskManager, task: Task)
    ensures
        final(mgr).queue() == old(mgr).queue().push(task),
        final(mgr).spec_start_time() == old(mgr).spec_start_time(),
{
    mgr.add(task);
}

/// Take the next task to dispatch out of the ready queue: the first one
/// with minimal stride, advanced; or nothing when the queue is idle.
pub fn fetch_task(mgr: &mut TaskManager) -> (result: Option<Task>)
    ensures
        final(mgr).spec_start_time() == old(mgr).spec_start_time(),
        old(mgr).queue().len() == 0 ==> {
            &&& result is None
            &&& final(mgr).queue() == old(mgr).queue()
        },
        old(mgr).queue().len() > 0 ==> {
            let q = old(mgr).queue();
            let k = min_stride_index(q);
            &&& result == Some(q[k].spec_advanced())
            &&& final(mgr).queue() == q.remove(k)
            &&& forall|j: int| 0 <= j < q.len() ==> q[k].stride <= (#[trigger] q[j]).stride
        },
{
    mgr.fetch()
}

/// Timestamp at which the kernel scheduler was constructed.
pub fn get_start_time(mgr: &TaskManager) -> (time: usize)
    ensures
        time == mgr.spec_start_time(),
{
    mgr.get_start_time()
}

} // verus!
