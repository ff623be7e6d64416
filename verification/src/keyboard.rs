//! The interrupt-driven event channel: a bounded scancode buffer fed from
//! interrupt context plus a single-slot wake registration drained by one
//! asynchronous consumer.
//!
//! The producer side never allocates and never blocks: a push into a full
//! buffer drops the newest value by design. The consumer side follows the
//! double-check-after-register discipline: an empty first check is followed
//! by registering the wake slot and checking once more, so a value pushed
//! between the first check and the registration is still observed by the
//! same poll and no wakeup is lost.
use vstd::prelude::*;

use crate::executer::TaskWaker;
use crate::queue::BoundedQueue;
use crate::task::{TaskFuture, TaskId, TaskPoll};

verus! {

/// Capacity of the scancode buffer.
pub const SCANCODE_QUEUE_CAPACITY: usize = 100;

/// The shared state of the event channel: the bounded scancode buffer and
/// the single wake slot. In the running kernel this is a process-wide
/// singleton created once at boot.
pub struct ScancodeChannel {
    queue: crate::queue::BoundedQueue,
    waker: Option<TaskId>,
    consumer_claimed: bool,
}

impl ScancodeChannel {
    #[verifier::type_invariant]
    spec fn inv(self) -> bool {
        &&& self.queue.capacity() == SCANCODE_QUEUE_CAPACITY
        &&& forall|i: int|
            0 <= i < self.queue.contents().len() ==> self.queue.contents()[i] < 256
    }

    /// The buffered scancodes, oldest first.
    pub closed spec fn scancodes(self) -> Seq<u8> {
        self.queue.contents().map(|i: int, v: u64| v as u8)
    }

    /// The wake registration, if a consumer is currently waiting.
    pub closed spec fn registered(self) -> Option<TaskId> {
        self.waker
    }

    /// Whether the single consumer handle has been handed out.
    pub closed spec fn claimed(self) -> bool {
        self.consumer_claimed
    }

    /// Creates the channel with an empty buffer, an empty wake slot, and no
    /// consumer yet.
    pub fn new() -> (ch: ScancodeChannel)
        ensures
            ch.scancodes() == Seq::<u8>::empty(),
            ch.registered() is None,
            !ch.claimed(),
    {
        let ch = ScancodeChannel {
            queue: crate::queue::BoundedQueue::new(SCANCODE_QUEUE_CAPACITY),
            waker: None,
            consumer_claimed: false,
        };
        proof {
            assert(ch.scancodes() =~= Seq::<u8>::empty());
        }
        ch
    }

    /// How many scancodes are buffered.
    pub fn buffered(&self) -> (n: usize)
        ensures
            n == self.scancodes().len(),
    {
        self.queue.len()
    }

    /// The consumer's first, non-blocking check: pop the oldest buffered
    /// scancode if there is one. The wake slot is not touched.
    pub fn try_pop(&mut self) -> (r: Option<u8>)
        ensures
            final(self).registered() == old(self).registered(),
            final(self).claimed() == old(self).claimed(),
            old(self).scancodes().len() == 0 ==> r is None && final(self).scancodes() == old(self).scancodes(),
            old(self).scancodes().len() > 0 ==> r == Some(old(self).scancodes()[0]) && final(self).scancodes() == old(self).scancodes().skip(1),
    {
        proof {
            use_type_invariant(&*self);
        }
        let ghost c = self.queue.contents();
        let popped = self.queue.pop();
        proof {
            if c.len() > 0 {
                assert(self.queue.contents().map(|i: int, v: u64| v as u8) =~= c.map(
                    |i: int, v: u64| v as u8,
                ).skip(1));
            }
        }
        match popped {
            Some(v) => Some(v as u8),
            None => None,
        }
    }

    /// The second half of the consumer's poll, entered only after an empty
    /// first check: register the caller's wake slot, then check the buffer
    /// once more. A value that arrived between the caller's first check and
    /// the registration is returned by this same call — and the freshly
    /// registered slot is cleared again — so it never needs an extra
    /// external wake to be observed. Only when the buffer is still empty
    /// does the registration stand, and the producer's next push will wake
    /// the registered task.
    pub fn register_and_recheck(&mut self, id: TaskId) -> (r: Option<u8>)
        ensures
            final(self).claimed() == old(self).claimed(),
            old(self).scancodes().len() == 0 ==> r is None && final(self).scancodes() == old(self).scancodes() && final(self).registered() == Some(id),
            old(self).scancodes().len() > 0 ==> r == Some(old(self).scancodes()[0]) && final(self).scancodes() == old(self).scancodes().skip(1) && final(self).registered() is None,
    {
        proof {
            use_type_invariant(&*self);
        }
        self.waker = Some(id);
        let ghost c = self.queue.contents();
        let popped = self.queue.pop();
        proof {
            if c.len() > 0 {
                assert(self.queue.contents().map(|i: int, v: u64| v as u8) =~= c.map(
                    |i: int, v: u64| v as u8,
                ).skip(1));
            }
        }
        match popped {
            Some(v) => {
                self.waker = None;
                Some(v as u8)
            },
            None => None,
        }
    }
}

/// The producer operation, called with one raw scancode per hardware event
/// from interrupt context. It pushes into the bounded buffer without ever
/// allocating or blocking: when the buffer is full the newest value is
/// dropped by design. On a successful push the registered wake slot, if
/// any, is taken; the returned task id is the wake the caller must deliver
/// to the executor (the model of invoking the registered waker).
pub fn add_scancode(channel: &mut ScancodeChannel, scancode: u8) -> (woken: Option<TaskId>)
    ensures
        final(channel).claimed() == old(channel).claimed(),
        old(channel).scancodes().len() < SCANCODE_QUEUE_CAPACITY ==> final(channel).scancodes()
            == old(channel).scancodes().push(scancode) && woken == old(channel).registered()
            && final(channel).registered() is None,
        old(channel).scancodes().len() >= SCANCODE_QUEUE_CAPACITY ==> final(channel).scancodes()
            == old(channel).scancodes() && woken is None && final(channel).registered() == old(channel).registered(),
{
    proof {
        use_type_invariant(&*channel);
    }
    let ghost c = channel.queue.contents();
    let pushed = channel.queue.push(scancode as u64);
    proof {
        if c.len() < SCANCODE_QUEUE_CAPACITY {
            assert(channel.queue.contents().map(|i: int, v: u64| v as u8) =~= c.map(
                |i: int, v: u64| v as u8,
            ).push(scancode));
        } else {
            assert(channel.queue.contents().map(|i: int, v: u64| v as u8) =~= c.map(
                |i: int, v: u64| v as u8,
            ));
        }
    }
    match pushed {
        Ok(()) => {
            let woken = channel.waker;
            channel.waker = None;
            woken
        },
        Err(_) => None,
    }
}

/// The single live consumer handle of the event channel. Creating it claims
/// the channel's consumer side; at most one such handle may ever exist,
/// because the single wake slot cannot fairly serve several waiters.
pub struct ScancodeStream {}

impl ScancodeStream {
    /// Claims the channel's consumer side. The channel configuration allows
    /// this exactly once; a second claim is a fatal configuration error and
    /// is excluded here.
    pub fn new(channel: &mut ScancodeChannel) -> (s: ScancodeStream)
        requires
            !old(channel).claimed(),
        ensures
            final(channel).claimed(),
            final(channel).scancodes() == old(channel).scancodes(),
            final(channel).registered() == old(channel).registered(),
    {
        proof {
            use_type_invariant(&*channel);
        }
        channel.consumer_claimed = true;
        ScancodeStream {  }
    }

    /// One poll of the asynchronous "read next scancode" capability. A
    /// buffered value is returned at once, and the wake slot is left as it
    /// was. Otherwise the caller's waker is registered and the buffer is
    /// checked once more (see `register_and_recheck`); only if it is still
    /// empty does the poll report `Pending`, with the registration in
    /// place, relying on the producer's next wake to resume the task.
    pub fn poll_next(&mut self, channel: &mut ScancodeChannel, waker: &TaskWaker) -> (r:
        ScancodePoll)
        ensures
            final(channel).claimed() == old(channel).claimed(),
            old(channel).scancodes().len() > 0 ==> r == ScancodePoll::Ready(
                old(channel).scancodes()[0],
            ) && final(channel).scancodes() == old(channel).scancodes().skip(1) && final(channel).registered() == old(channel).registered(),
            old(channel).scancodes().len() == 0 ==> r == ScancodePoll::Pending && final(channel).scancodes() == old(channel).scancodes() && final(channel).registered() == Some(
                waker.id_spec(),
            ),
    {
        if let Some(code) = channel.try_pop() {
            return ScancodePoll::Ready(code);
        }
        match channel.register_and_recheck(waker.id()) {
            Some(code) => ScancodePoll::Ready(code),
            None => ScancodePoll::Pending,
        }
    }
}

/// Outcome of one poll of the scancode stream.
#[derive(Clone, Copy, Debug, PartialEq, Eq, Structural)]
pub enum ScancodePoll {
    /// The oldest buffered scancode.
    Ready(u8),
    /// Nothing buffered; the wake slot is registered.
    Pending,
}

/// The simplest consumer task: it owns the scancode stream and discards
/// every scancode it yields. It never completes; each poll drains whatever
/// is buffered and then suspends with its wake registered.
pub struct IgnoreKeypresses {
    stream: ScancodeStream,
}

impl IgnoreKeypresses {
    pub fn new(stream: ScancodeStream) -> (t: IgnoreKeypresses) {
        IgnoreKeypresses { stream }
    }
}

impl TaskFuture for IgnoreKeypresses {
    /// Reads scancodes until the stream suspends, ignoring each one, then
    /// reports `Pending`: the channel is left drained with the task's wake
    /// registered, and the ready-queue is not touched.
    fn poll(
        &mut self,
        waker: &TaskWaker,
        ready: &mut BoundedQueue,
        channel: &mut ScancodeChannel,
    ) -> (r: TaskPoll)
        ensures
            final(ready).capacity() == old(ready).capacity(),
            old(ready).contents().is_prefix_of(final(ready).contents()),
            r == TaskPoll::Pending,
            final(channel).scancodes().len() == 0,
            final(channel).registered() == Some(waker.id_spec()),
    {
        loop
            invariant
                *ready == *old(ready),
            decreases channel.scancodes().len(),
        {
            match self.stream.poll_next(channel, waker) {
                ScancodePoll::Ready(_) => {},
                ScancodePoll::Pending => {
                    proof {
                        assert(old(ready).contents() =~= ready.contents().subrange(
                            0,
                            old(ready).contents().len() as int,
                        ));
                    }
                    return TaskPoll::Pending;
                },
            }
        }
    }
}

} // verus!
