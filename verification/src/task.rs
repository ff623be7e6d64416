//! Tasks: uniquely identified, heap-allocated units of cooperative
//! asynchronous work, polled by the executor.
use vstd::prelude::*;

use crate::executer::TaskWaker;
use crate::keyboard::ScancodeChannel;
use crate::queue::BoundedQueue;

verus! {

/// Source of fresh task identifiers. The kernel keeps one such counter for
/// its whole lifetime; ids are handed out in increasing order and never
/// reused.
pub struct TaskIdAllocator {
    next: u64,
}

impl TaskIdAllocator {
    /// The id the next allocation will return.
    pub closed spec fn next_id(self) -> u64 {
        self.next
    }

    pub fn new() -> (a: TaskIdAllocator)
        ensures
            a.next_id() == 0,
    {
        TaskIdAllocator { next: 0 }
    }
}

/// An opaque, monotonically increasing task identifier, globally unique for
/// the lifetime of the id source that issued it.
#[derive(Clone, Copy, Debug, PartialEq, Eq, Structural, Hash)]
pub struct TaskId(u64);

impl TaskId {
    /// The numeric value of the identifier.
    pub closed spec fn value(self) -> u64 {
        self.0
    }

    /// Issues a fresh identifier and advances the counter, so that every
    /// identifier is handed out at most once and later allocations return
    /// strictly larger ids.
    pub fn new(ids: &mut TaskIdAllocator) -> (id: TaskId)
        requires
            old(ids).next_id() < u64::MAX,
        ensures
            id.value() == old(ids).next_id(),
            final(ids).next_id() == old(ids).next_id() + 1,
    {
        let id = TaskId(ids.next);
        ids.next = ids.next + 1;
        id
    }

    pub fn as_u64(&self) -> (r: u64)
        ensures
            r == self.value(),
    {
        self.0
    }
}

/// Task ids issued by consecutive allocations are pairwise distinct and
/// strictly increasing: each call of `TaskId::new` returns the counter's
/// current value and bumps the counter by one, so the k-th id issued after
/// the counter stood at `start` is `start + k`, and these are ordered.
pub proof fn lemma_task_ids_strictly_increasing(start: int, ids: Seq<int>)
    requires
        forall|k: int| 0 <= k < ids.len() ==> ids[k] == start + k,
    ensures
        forall|i: int, j: int| 0 <= i < j < ids.len() ==> ids[i] < ids[j],
{
}

/// Outcome of driving a task's computation forward one step.
#[derive(Clone, Copy, Debug, PartialEq, Eq, Structural)]
pub enum TaskPoll {
    /// The computation finished.
    Ready,
    /// The computation suspended, awaiting a future wake.
    Pending,
}

/// A cooperative computation with no output value, the executor's analogue
/// of a pinned future. `poll` drives it one step: it receives the waker
/// bound to its task, the shared ready-queue (so it may re-enqueue itself),
/// and the event channel it may await on, and reports whether it finished
/// or suspended.
pub trait TaskFuture {
    /// Drives the computation one step. A computation touches the
    /// ready-queue only as a waker does — by pushing ids onto its tail —
    /// so what the queue held stays, in order, at its front; and the queue
    /// keeps its capacity, the executor's fixed configuration.
    fn poll(
        &mut self,
        waker: &TaskWaker,
        ready: &mut BoundedQueue,
        channel: &mut ScancodeChannel,
    ) -> (r: TaskPoll)
        ensures
            final(ready).capacity() == old(ready).capacity(),
            old(ready).contents().is_prefix_of(final(ready).contents()),
    ;
}

/// A uniquely identified unit of asynchronous work owned by the executor.
pub struct Task<F: TaskFuture> {
    id: TaskId,
    future: F,
}

impl<F: TaskFuture> Task<F> {
    /// The identifier assigned at creation.
    pub closed spec fn id_spec(self) -> u64 {
        self.id.value()
    }

    /// Wraps a computation and assigns it a fresh unique identifier.
    pub fn new(future: F, ids: &mut TaskIdAllocator) -> (t: Task<F>)
        requires
            old(ids).next_id() < u64::MAX,
        ensures
            t.id_spec() == old(ids).next_id(),
            final(ids).next_id() == old(ids).next_id() + 1,
    {
        Task { id: TaskId::new(ids), future }
    }

    pub fn id(&self) -> (r: TaskId)
        ensures
            r.value() == self.id_spec(),
    {
        self.id
    }

    /// Drives the wrapped computation forward exactly one step. The task's
    /// identity never changes, whatever the computation does.
    pub fn poll(
        &mut self,
        waker: &TaskWaker,
        ready: &mut BoundedQueue,
        channel: &mut ScancodeChannel,
    ) -> (r: TaskPoll)
        ensures
            final(self).id_spec() == old(self).id_spec(),
            final(ready).capacity() == old(ready).capacity(),
            old(ready).contents().is_prefix_of(final(ready).contents()),
    {
        self.future.poll(waker, ready, channel)
    }
}

} // verus!
