//! The cooperative scheduler: owns every live task, a bounded ready-queue
//! of task ids shared with the wakers derived from it, and a cache of wake
//! handles. It drives tasks to completion or suspension and idles the core
//! safely between interrupts.
use vstd::prelude::*;

use std::collections::BTreeMap;

use crate::keyboard::ScancodeChannel;
use crate::queue::BoundedQueue;
use crate::task::{Task, TaskFuture, TaskId, TaskPoll};

verus! {

broadcast use vstd::laws_cmp::group_laws_cmp, vstd::std_specs::btree::group_btree_axioms;

/// Capacity of the ready-queue: a configuration limit, not a recoverable
/// resource. Overflowing it on spawn or wake is fatal in this design.
pub const READY_QUEUE_CAPACITY: usize = 100;

/// A wake handle bound to one task and to the shared ready-queue: invoking
/// it re-enqueues that task's id for polling. Safe to invoke from any
/// context, including interrupt context, because a queue push neither
/// allocates nor blocks.
#[derive(Clone, Copy)]
pub struct TaskWaker {
    task_id: TaskId,
}

impl TaskWaker {
    /// The task this waker re-enqueues.
    pub closed spec fn id_spec(self) -> TaskId {
        self.task_id
    }

    pub fn new(task_id: TaskId) -> (w: TaskWaker)
        ensures
            w.id_spec() == task_id,
    {
        TaskWaker { task_id }
    }

    pub fn id(&self) -> (r: TaskId)
        ensures
            r == self.id_spec(),
    {
        self.task_id
    }

    /// Pushes the bound task id onto the ready-queue. A full ready-queue is
    /// a fatal configuration error and is excluded here.
    pub fn wake(self, ready: &mut BoundedQueue)
        requires
            old(ready).contents().len() < old(ready).capacity(),
        ensures
            final(ready).contents() == old(ready).contents().push(self.id_spec().value()),
            final(ready).capacity() == old(ready).capacity(),
    {
        self.wake_by_ref(ready)
    }

    /// As `wake`, by reference.
    pub fn wake_by_ref(&self, ready: &mut BoundedQueue)
        requires
            old(ready).contents().len() < old(ready).capacity(),
        ensures
            final(ready).contents() == old(ready).contents().push(self.id_spec().value()),
            final(ready).capacity() == old(ready).capacity(),
    {
        let r = ready.push(self.task_id.as_u64());
        proof {
            assert(r is Ok);
        }
    }
}

/// What one scheduling step did with an id popped from the ready-queue.
#[derive(Clone, Copy, Debug, PartialEq, Eq, Structural)]
pub enum ScheduleStep {
    /// No live task carries the id — a stale or duplicate wake — so it was
    /// skipped silently and nothing changed.
    Skipped,
    /// The task was polled and reported `Ready`: it was removed from the
    /// task table and its waker from the cache.
    Retired,
    /// The task was polled and reported `Pending`: it stays in the table,
    /// suspended until an external wake re-enqueues it.
    Suspended,
}

/// The single-threaded cooperative scheduling loop's state: the task table
/// (exclusive owner of every live task), the bounded FIFO ready-queue, and
/// the lazily filled waker cache.
pub struct Executer<F: TaskFuture> {
    tasks: BTreeMap<u64, Task<F>>,
    task_queue: BoundedQueue,
    waker_cache: BTreeMap<u64, TaskWaker>,
}

impl<F: TaskFuture> Executer<F> {
    /// The task table: every live task, keyed by its id.
    pub closed spec fn tasks_view(self) -> Map<u64, Task<F>> {
        self.tasks@
    }

    /// The ready-queue of task ids, front first.
    pub closed spec fn ready_view(self) -> Seq<u64> {
        self.task_queue.contents()
    }

    /// The ready-queue's fixed capacity.
    pub closed spec fn ready_capacity(self) -> nat {
        self.task_queue.capacity()
    }

    /// The cached wake handles, keyed by task id.
    pub closed spec fn wakers_view(self) -> Map<u64, TaskWaker> {
        self.waker_cache@
    }

    /// Internal consistency: the table keys each task by its own id, the
    /// cache keys each waker by the task it wakes and holds wakers only for
    /// live tasks, and the ready-queue has the configured capacity.
    pub open spec fn well_formed(self) -> bool {
        &&& forall|k: u64|
            #[trigger] self.tasks_view().contains_key(k) ==> self.tasks_view()[k].id_spec() == k
        &&& forall|k: u64|
            #[trigger] self.wakers_view().contains_key(k) ==> self.wakers_view()[k].id_spec().value() == k
        &&& forall|k: u64|
            #[trigger] self.wakers_view().contains_key(k) ==> self.tasks_view().contains_key(k)
        &&& self.ready_capacity() == READY_QUEUE_CAPACITY
    }

    /// A fresh executor: no tasks, an empty ready-queue of the configured
    /// capacity, and no cached wakers.
    pub fn new() -> (e: Executer<F>)
        ensures
            e.well_formed(),
            e.tasks_view() == Map::<u64, Task<F>>::empty(),
            e.ready_view() == Seq::<u64>::empty(),
            e.wakers_view() == Map::<u64, TaskWaker>::empty(),
    {
        Executer {
            tasks: BTreeMap::new(),
            task_queue: BoundedQueue::new(READY_QUEUE_CAPACITY),
            waker_cache: BTreeMap::new(),
        }
    }

    /// Inserts the task into the task table keyed by its id and enqueues
    /// the id for a first poll. A duplicate id and a full ready-queue are
    /// both fatal in this design and are excluded here; duplicates cannot
    /// arise when ids come from one `TaskIdAllocator`.
    pub fn spawn(&mut self, task: Task<F>)
        requires
            old(self).well_formed(),
            !old(self).tasks_view().contains_key(task.id_spec()),
            old(self).ready_view().len() < old(self).ready_capacity(),
        ensures
            final(self).well_formed(),
            final(self).tasks_view() == old(self).tasks_view().insert(task.id_spec(), task),
            final(self).ready_view() == old(self).ready_view().push(task.id_spec()),
            final(self).ready_capacity() == old(self).ready_capacity(),
            final(self).wakers_view() == old(self).wakers_view(),
    {
        let id = task.id();
        let idv = id.as_u64();
        let previous = self.tasks.insert(idv, task);
        proof {
            assert(previous is None);
        }
        let pushed = self.task_queue.push(idv);
        proof {
            assert(pushed is Ok);
            assert forall|k: u64| #[trigger] self.tasks_view().contains_key(k) implies self.tasks_view()[k].id_spec() == k by {
                if k == task.id_spec() {
                    assert(self.tasks_view()[k] == task);
                } else {
                    assert(old(self).tasks_view().contains_key(k));
                    assert(self.tasks_view()[k] == old(self).tasks_view()[k]);
                }
            }
            assert forall|k: u64| #[trigger] self.wakers_view().contains_key(k) implies self.wakers_view()[k].id_spec().value() == k by {
                assert(old(self).wakers_view().contains_key(k));
            }
            assert forall|k: u64| #[trigger] self.wakers_view().contains_key(k) implies self.tasks_view().contains_key(k) by {
                assert(old(self).wakers_view().contains_key(k));
                assert(old(self).tasks_view().contains_key(k));
            }
        }
    }

    /// Re-enqueues a task id, as the waker derived for that task does when
    /// invoked (including from interrupt context). The id need not be in
    /// the task table: a wake for an already completed task is legal and
    /// the stale queue entry will be skipped. A full ready-queue is fatal
    /// and is excluded here.
    pub fn wake(&mut self, id: TaskId)
        requires
            old(self).well_formed(),
            old(self).ready_view().len() < old(self).ready_capacity(),
        ensures
            final(self).well_formed(),
            final(self).ready_view() == old(self).ready_view().push(id.value()),
            final(self).tasks_view() == old(self).tasks_view(),
            final(self).wakers_view() == old(self).wakers_view(),
            final(self).ready_capacity() == old(self).ready_capacity(),
    {
        let pushed = self.task_queue.push(id.as_u64());
        proof {
            assert(pushed is Ok);
            assert(self.wakers_view() == old(self).wakers_view());
            assert forall|k: u64| #[trigger] self.tasks_view().contains_key(k) implies self.tasks_view()[k].id_spec() == k by {
                assert(old(self).tasks_view().contains_key(k));
            }
            assert forall|k: u64| #[trigger] self.wakers_view().contains_key(k) implies self.wakers_view()[k].id_spec().value() == k by {
                assert(old(self).wakers_view().contains_key(k));
            }
            assert forall|k: u64| #[trigger] self.wakers_view().contains_key(k) implies self.tasks_view().contains_key(k) by {
                assert(old(self).wakers_view().contains_key(k));
                assert(old(self).tasks_view().contains_key(k));
            }
        }
    }

    /// Whether a task with the given id is live in the task table.
    pub fn contains_task(&self, id: TaskId) -> (r: bool)
        ensures
            r == self.tasks_view().contains_key(id.value()),
    {
        self.tasks.contains_key(&id.as_u64())
    }

    /// How many tasks are live in the task table.
    pub fn task_count(&self) -> (n: usize)
        ensures
            n == self.tasks_view().dom().len(),
    {
        self.tasks.len()
    }

    /// How many ids the ready-queue currently holds.
    pub fn ready_len(&self) -> (n: usize)
        ensures
            n == self.ready_view().len(),
    {
        self.task_queue.len()
    }

    /// The waker for the given task, from the cache when it is already
    /// there, freshly built and cached the first time the task is polled.
    /// The waker handed back is bound to exactly the given task's id. Only
    /// a live task gets a cache entry.
    fn cached_waker(&mut self, id: TaskId) -> (w: TaskWaker)
        requires
            old(self).well_formed(),
            old(self).tasks_view().contains_key(id.value()),
        ensures
            final(self).well_formed(),
            w.id_spec().value() == id.value(),
            final(self).tasks_view() == old(self).tasks_view(),
            final(self).ready_view() == old(self).ready_view(),
            final(self).ready_capacity() == old(self).ready_capacity(),
            final(self).wakers_view() == old(self).wakers_view().insert(id.value(), w),
    {
        let idv = id.as_u64();
        match self.waker_cache.get(&idv) {
            Some(w) => {
                let cached = *w;
                proof {
                    assert(old(self).wakers_view().contains_key(idv));
                    assert(cached == old(self).wakers_view()[idv]);
                    assert(cached.id_spec().value() == id.value());
                    assert(self.wakers_view() =~= old(self).wakers_view().insert(idv, cached));
                }
                cached
            },
            None => {
                let w = TaskWaker::new(id);
                self.waker_cache.insert(idv, w);
                proof {
                    assert forall|k: u64| #[trigger] self.wakers_view().contains_key(k) implies self.wakers_view()[k].id_spec().value() == k by {
                        if k == idv {
                            assert(self.wakers_view()[k] == w);
                        } else {
                            assert(old(self).wakers_view().contains_key(k));
                            assert(self.wakers_view()[k] == old(self).wakers_view()[k]);
                        }
                    }
                    assert forall|k: u64| #[trigger] self.wakers_view().contains_key(k) implies self.tasks_view().contains_key(k) by {
                        if k != idv {
                            assert(old(self).wakers_view().contains_key(k));
                            assert(old(self).tasks_view().contains_key(k));
                        }
                    }
                    assert forall|k: u64| #[trigger] self.tasks_view().contains_key(k) implies self.tasks_view()[k].id_spec() == k by {
                        assert(old(self).tasks_view().contains_key(k));
                    }
                }
                w
            },
        }
    }

    /// Drains one snapshot of the ready-queue: exactly the ids queued when
    /// the call began are popped, in order; ids pushed during the polls
    /// (wakes, including self-wakes) stay queued for a later pass. For each
    /// popped id the scheduling step of `poll_one` runs: a stale id is
    /// skipped silently, a task reporting `Ready` is retired from table and
    /// waker cache, one reporting `Pending` stays suspended in the table.
    /// Tasks whose id was not in the snapshot are untouched, and no task is
    /// ever added.
    pub fn run_ready_tasks(&mut self, channel: &mut ScancodeChannel)
        requires
            old(self).well_formed(),
        ensures
            final(self).well_formed(),
            final(self).ready_capacity() == old(self).ready_capacity(),
            forall|k: u64|
                final(self).tasks_view().contains_key(k) ==> old(self).tasks_view().contains_key(
                    k,
                ),
            forall|k: u64|
                (#[trigger] old(self).tasks_view().contains_key(k)) && !old(self).ready_view().contains(k) ==> final(self).tasks_view().contains_key(k) && final(self).tasks_view()[k] == old(self).tasks_view()[k],
            (forall|j: int|
                0 <= j < old(self).ready_view().len() ==> !old(self).tasks_view().contains_key(
                    #[trigger] old(self).ready_view()[j],
                )) ==> final(self).tasks_view() == old(self).tasks_view() && final(self).wakers_view() == old(self).wakers_view() && final(self).ready_view()
                == Seq::<u64>::empty(),
            old(self).ready_view().len() == 0 ==> *final(self) == *old(self),
    {
        let n = self.task_queue.len();
        let mut i: usize = 0;
        let ghost tasks0 = self.tasks_view();
        let ghost wakers0 = self.wakers_view();
        let ghost ready0 = self.ready_view();
        let ghost cap0 = self.ready_capacity();
        let ghost pre0 = *self;
        let ghost mut extra: Seq<u64> = Seq::<u64>::empty();
        proof {
            assert(self.ready_view() =~= ready0.skip(0) + extra);
        }
        while i < n
            invariant
                i <= n,
                n == ready0.len(),
                self.well_formed(),
                self.ready_capacity() == cap0,
                self.ready_view() == ready0.skip(i as int) + extra,
                forall|k: u64| #[trigger] self.tasks_view().contains_key(k) ==> tasks0.contains_key(k),
                forall|k: u64|
                    (#[trigger] tasks0.contains_key(k)) && !ready0.contains(k)
                        ==> self.tasks_view().contains_key(k) && self.tasks_view()[k] == tasks0[k],
                (forall|j: int|
                    0 <= j < ready0.len() ==> !tasks0.contains_key(#[trigger] ready0[j]))
                    ==> self.tasks_view() == tasks0 && self.wakers_view() == wakers0 && extra
                        == Seq::<u64>::empty(),
                n == 0 ==> *self == pre0,
            decreases n - i,
        {
            let ghost pre = *self;
            let popped = self.task_queue.pop();
            proof {
                assert(pre.ready_view()[0] == ready0[i as int]);
                assert(self.ready_view() =~= ready0.skip(i as int + 1) + extra);
                assert forall|k: u64| #[trigger] self.tasks_view().contains_key(k) implies self.tasks_view()[k].id_spec() == k by {
                    assert(pre.tasks_view().contains_key(k));
                }
                assert forall|k: u64| #[trigger] self.wakers_view().contains_key(k) implies self.wakers_view()[k].id_spec().value() == k && self.tasks_view().contains_key(k) by {
                    assert(pre.wakers_view().contains_key(k));
                    assert(pre.tasks_view().contains_key(k));
                }
            }
            if let Some(idv) = popped {
                proof {
                    assert(idv == ready0[i as int]);
                    assert(ready0.contains(idv));
                }
                let ghost mid = *self;
                let step = self.poll_one(idv, channel);
                proof {
                    assert(mid.ready_view().is_prefix_of(self.ready_view()));
                    let grown = self.ready_view().skip(mid.ready_view().len() as int);
                    assert(self.ready_view() =~= mid.ready_view() + grown);
                    assert(self.ready_view() =~= ready0.skip(i as int + 1) + (extra + grown));
                    extra = extra + grown;
                    assert forall|k: u64| #[trigger] self.tasks_view().contains_key(k) implies tasks0.contains_key(k) by {
                        assert(mid.tasks_view().contains_key(k));
                    }
                    assert forall|k: u64|
                        (#[trigger] tasks0.contains_key(k)) && !ready0.contains(k) implies self.tasks_view().contains_key(k) && self.tasks_view()[k] == tasks0[k] by {
                        assert(mid.tasks_view().contains_key(k) && mid.tasks_view()[k]
                            == tasks0[k]);
                        assert(k != idv);
                    }
                    if forall|j: int|
                        0 <= j < ready0.len() ==> !tasks0.contains_key(#[trigger] ready0[j]) {
                        assert(!tasks0.contains_key(idv));
                        assert(!mid.tasks_view().contains_key(idv));
                        assert(step == ScheduleStep::Skipped);
                        assert(*self == mid);
                    }
                }
            }
            i = i + 1;
        }
        proof {
            assert(ready0.skip(n as int).len() == 0);
            if forall|j: int| 0 <= j < ready0.len() ==> !tasks0.contains_key(#[trigger] ready0[j]) {
                assert(self.ready_view() =~= Seq::<u64>::empty());
            }
            assert forall|k: u64| #[trigger] self.tasks_view().contains_key(k) implies old(self).tasks_view().contains_key(k) by {
                assert(tasks0.contains_key(k));
            }
        }
    }

    /// One scheduling step for one popped id, reporting what it did. A
    /// stale id — no live task — is skipped silently and nothing changes.
    /// A live task is polled exactly once, with its cached waker (bound to
    /// its own id; built and cached on the first poll), the shared
    /// ready-queue, and the event channel. A task that reports `Ready` is
    /// retired: it leaves the task table and its waker leaves the cache. A
    /// task that reports `Pending` stays in the table, awaiting an external
    /// wake; every other task is untouched either way.
    pub fn poll_one(&mut self, idv: u64, channel: &mut ScancodeChannel) -> (step: ScheduleStep)
        requires
            old(self).well_formed(),
        ensures
            final(self).well_formed(),
            final(self).ready_capacity() == old(self).ready_capacity(),
            old(self).ready_view().is_prefix_of(final(self).ready_view()),
            step == ScheduleStep::Skipped <==> !old(self).tasks_view().contains_key(idv),
            step == ScheduleStep::Skipped ==> *final(self) == *old(self) && *final(channel)
                == *old(channel),
            step == ScheduleStep::Retired ==> final(self).tasks_view() == old(self).tasks_view().remove(idv) && final(self).wakers_view() == old(self).wakers_view().remove(idv),
            step == ScheduleStep::Suspended ==> final(self).tasks_view().dom() == old(self).tasks_view().dom() && final(self).wakers_view().dom() == old(self).wakers_view().dom().insert(idv),
            forall|k: u64|
                (#[trigger] old(self).tasks_view().contains_key(k)) && k != idv ==> final(self).tasks_view().contains_key(k) && final(self).tasks_view()[k] == old(self).tasks_view()[k],
            forall|k: u64|
                (#[trigger] old(self).wakers_view().contains_key(k)) && k != idv ==> final(self).wakers_view().contains_key(k) && final(self).wakers_view()[k] == old(self).wakers_view()[k],
    {
        if !self.tasks.contains_key(&idv) {
            return ScheduleStep::Skipped;
        }
        let id = match self.tasks.get(&idv) {
            Some(task) => {
                proof {
                    assert(self.tasks_view().contains_key(idv));
                    assert(*task == self.tasks_view()[idv]);
                }
                task.id()
            },
            None => {
                proof {
                    assert(false);
                }
                return ScheduleStep::Skipped;
            },
        };
        proof {
            assert(id.value() == idv);
        }
        let waker = self.cached_waker(id);
        let ghost with_waker = *self;
        let got = self.tasks.remove(&idv);
        proof {
            assert(vstd::std_specs::btree::borrowed_key_removed(
                with_waker.tasks_view(),
                self.tasks_view(),
                &idv,
            ));
            assert(self.tasks_view() == with_waker.tasks_view().remove(idv));
        }
        match got {
            None => {
                proof {
                    assert(false);
                }
                ScheduleStep::Skipped
            },
            Some(mut task) => {
                proof {
                    assert(task == with_waker.tasks_view()[idv]);
                    assert(task.id_spec() == idv);
                }
                let ghost after_remove = *self;
                match task.poll(&waker, &mut self.task_queue, channel) {
                    TaskPoll::Ready => {
                        let removed = self.waker_cache.remove(&idv);
                        proof {
                            assert(vstd::std_specs::btree::borrowed_key_removed(
                                after_remove.wakers_view(),
                                self.wakers_view(),
                                &idv,
                            ));
                            assert(self.wakers_view() == after_remove.wakers_view().remove(idv));
                            assert(self.tasks_view() =~= old(self).tasks_view().remove(idv));
                            assert(self.wakers_view() =~= old(self).wakers_view().remove(idv));
                            assert forall|k: u64| #[trigger] self.tasks_view().contains_key(k) implies self.tasks_view()[k].id_spec() == k by {
                                assert(old(self).tasks_view().contains_key(k));
                                assert(self.tasks_view()[k] == old(self).tasks_view()[k]);
                            }
                            assert forall|k: u64| #[trigger] self.wakers_view().contains_key(k) implies self.wakers_view()[k].id_spec().value() == k && self.tasks_view().contains_key(k) by {
                                assert(old(self).wakers_view().contains_key(k));
                                assert(self.wakers_view()[k] == old(self).wakers_view()[k]);
                                assert(k != idv);
                                assert(old(self).tasks_view().contains_key(k));
                            }
                        }
                        ScheduleStep::Retired
                    },
                    TaskPoll::Pending => {
                        let previous = self.tasks.insert(idv, task);
                        proof {
                            assert(self.tasks_view().dom() =~= old(self).tasks_view().dom());
                            assert(self.wakers_view().dom() =~= old(self).wakers_view().dom().insert(idv));
                            assert forall|k: u64| #[trigger] self.tasks_view().contains_key(k) implies self.tasks_view()[k].id_spec() == k by {
                                if k != idv {
                                    assert(with_waker.tasks_view().contains_key(k));
                                    assert(self.tasks_view()[k] == with_waker.tasks_view()[k]);
                                }
                            }
                            assert forall|k: u64| #[trigger] self.wakers_view().contains_key(k) implies self.wakers_view()[k].id_spec().value() == k && self.tasks_view().contains_key(k) by {
                                assert(with_waker.wakers_view().contains_key(k));
                                assert(self.wakers_view()[k] == with_waker.wakers_view()[k]);
                                if k != idv {
                                    assert(with_waker.tasks_view().contains_key(k));
                                }
                            }
                        }
                        ScheduleStep::Suspended
                    },
                }
            },
        }
    }

    /// The idle step between scheduling rounds. Interrupts are disabled
    /// first, so the emptiness check and the decision to halt form one
    /// atomic step with respect to hardware events: the core is halted if
    /// and only if the ready-queue was empty while no interrupt could run,
    /// and the halt itself re-enables interrupts in the same instant, so a
    /// wake arriving at any point either prevents the halt or ends it.
    pub fn sleep_while_idle(&self) -> (halted: bool)
        ensures
            halted <==> self.ready_view().len() == 0,
    {
        disable_interrupts();
        if self.task_queue.is_empty() {
            enable_interrupts_and_halt();
            true
        } else {
            enable_interrupts();
            false
        }
    }

    /// One round of the scheduling loop: drain the ready tasks as
    /// `run_ready_tasks` does, then idle until the next interrupt. The core
    /// was halted exactly when the drain left the ready-queue empty; the
    /// returned flag reports it. The kernel's entry point repeats this
    /// round forever — the executor never finishes its work, because a new
    /// interrupt can always arrive — so the endless loop itself lives with
    /// the platform entry point.
    pub fn run(&mut self, channel: &mut ScancodeChannel) -> (halted: bool)
        requires
            old(self).well_formed(),
        ensures
            final(self).well_formed(),
            final(self).ready_capacity() == old(self).ready_capacity(),
            forall|k: u64|
                final(self).tasks_view().contains_key(k) ==> old(self).tasks_view().contains_key(
                    k,
                ),
            forall|k: u64|
                (#[trigger] old(self).tasks_view().contains_key(k)) && !old(self).ready_view().contains(k) ==> final(self).tasks_view().contains_key(k) && final(self).tasks_view()[k] == old(self).tasks_view()[k],
            halted <==> final(self).ready_view().len() == 0,
            old(self).ready_view().len() == 0 ==> *final(self) == *old(self) && halted,
    {
        self.run_ready_tasks(channel);
        self.sleep_while_idle()
    }
}

/// Relies on `x86_64::instructions::interrupts::disable`: executes the
/// `cli` instruction, so no interrupt handler can run until interrupts are
/// enabled again.
#[verifier::external_body]
fn disable_interrupts() {
    x86_64::instructions::interrupts::disable()
}

/// Relies on `x86_64::instructions::interrupts::enable`: executes the
/// `sti` instruction, allowing interrupt handlers to run again.
#[verifier::external_body]
fn enable_interrupts() {
    x86_64::instructions::interrupts::enable()
}

/// Relies on `x86_64::instructions::interrupts::enable_and_hlt`: executes
/// `sti` immediately followed by `hlt`. The processor recognizes pending
/// maskable interrupts only after the instruction that follows `sti`, so no
/// wake from a maskable interrupt — and every wake of this core comes from
/// one — can slip between enabling interrupts and halting: the core either
/// halts and is woken by the next interrupt, or the interrupt lands after
/// the halt and ends it. Returns when an interrupt has run.
#[verifier::external_body]
fn enable_interrupts_and_halt() {
    x86_64::instructions::interrupts::enable_and_hlt()
}

} // verus!
