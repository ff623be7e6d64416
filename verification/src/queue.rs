//! Bounded FIFO queue of small unsigned values, backed by crossbeam's
//! lock-free `ArrayQueue`.
//!
//! The executor's ready-queue of task ids and the event channel's scancode
//! buffer are both instances of this queue. Its push path neither allocates
//! nor blocks, which is what makes it safe to touch from interrupt handlers.
use vstd::prelude::*;

verus! {

/// Declares crossbeam's bounded lock-free queue so that verified code can
/// hold one in a field and pass it around.
#[verifier::external_type_specification]
#[verifier::external_body]
#[verifier::reject_recursive_types(T)]
pub struct ExArrayQueue<T>(crossbeam_queue::ArrayQueue<T>);

/// A bounded FIFO of `u64` values with a fixed capacity chosen at creation.
pub struct BoundedQueue {
    inner: crossbeam_queue::ArrayQueue<u64>,
}

/// The elements buffered in the underlying `ArrayQueue`, front first.
pub uninterp spec fn queue_contents(q: BoundedQueue) -> Seq<u64>;

/// The capacity the underlying `ArrayQueue` was created with.
pub uninterp spec fn queue_capacity(q: BoundedQueue) -> nat;

/// One push against a bounded FIFO of capacity `cap`: the value is appended
/// when there is room and silently dropped otherwise.
pub open spec fn push_model(s: Seq<u64>, cap: nat, v: u64) -> Seq<u64> {
    if s.len() < cap {
        s.push(v)
    } else {
        s
    }
}

/// A run of pushes, oldest first, with no intervening pops.
pub open spec fn push_all_model(s: Seq<u64>, cap: nat, vs: Seq<u64>) -> Seq<u64>
    decreases vs.len(),
{
    if vs.len() == 0 {
        s
    } else {
        push_all_model(push_model(s, cap, vs[0]), cap, vs.skip(1))
    }
}

impl BoundedQueue {
    /// The buffered elements, front (next to be popped) first.
    pub open spec fn contents(self) -> Seq<u64> {
        queue_contents(self)
    }

    /// The fixed capacity.
    pub open spec fn capacity(self) -> nat {
        queue_capacity(self)
    }

    /// Relies on `crossbeam_queue::ArrayQueue::new`: a fresh queue with the
    /// given capacity holds nothing. `new` panics on a zero capacity, and on
    /// one so large that its ring indexing would overflow, so both are
    /// excluded here.
    #[verifier::external_body]
    pub fn new(cap: usize) -> (q: BoundedQueue)
        requires
            1 <= cap < 0x1000_0000,
        ensures
            queue_contents(q) == Seq::<u64>::empty(),
            queue_capacity(q) == cap as nat,
    {
        BoundedQueue { inner: crossbeam_queue::ArrayQueue::new(cap) }
    }

    /// Relies on `crossbeam_queue::ArrayQueue::push`: appends at the tail
    /// when the queue holds fewer than `capacity` elements, and returns the
    /// value unchanged when the queue is full.
    #[verifier::external_body]
    pub fn push(&mut self, v: u64) -> (r: Result<(), u64>)
        ensures
            queue_capacity(*final(self)) == queue_capacity(*old(self)),
            queue_contents(*final(self)) == push_model(queue_contents(*old(self)), queue_capacity(*old(self)), v),
            r is Ok <==> queue_contents(*old(self)).len() < queue_capacity(*old(self)),
            r is Err ==> r->Err_0 == v,
        no_unwind
    {
        self.inner.push(v)
    }

    /// Relies on `crossbeam_queue::ArrayQueue::pop`: removes and returns the
    /// element at the front, first-in first-out, or returns nothing when the
    /// queue is empty.
    #[verifier::external_body]
    pub fn pop(&mut self) -> (r: Option<u64>)
        ensures
            queue_capacity(*final(self)) == queue_capacity(*old(self)),
            queue_contents(*old(self)).len() == 0 ==> r is None && queue_contents(*final(self)) == queue_contents(*old(self)),
            queue_contents(*old(self)).len() > 0 ==> r == Some(queue_contents(*old(self))[0]) && queue_contents(*final(self)) == queue_contents(*old(self)).skip(1),
        no_unwind
    {
        self.inner.pop()
    }

    /// Relies on `crossbeam_queue::ArrayQueue::is_empty`.
    #[verifier::external_body]
    pub fn is_empty(&self) -> (r: bool)
        ensures
            r <==> queue_contents(*self).len() == 0,
    {
        self.inner.is_empty()
    }

    /// Relies on `crossbeam_queue::ArrayQueue::len`.
    #[verifier::external_body]
    pub fn len(&self) -> (r: usize)
        ensures
            r == queue_contents(*self).len(),
    {
        self.inner.len()
    }
}

proof fn lemma_push_all_prefix(s: Seq<u64>, cap: nat, vs: Seq<u64>)
    requires
        s.len() <= cap,
    ensures
        push_all_model(s, cap, vs) == s + vs.take(
            vstd::math::min((cap - s.len()) as int, vs.len() as int),
        ),
    decreases vs.len(),
{
    if vs.len() == 0 {
        assert(push_all_model(s, cap, vs) =~= s + vs.take(0));
    } else if s.len() < cap {
        lemma_push_all_prefix(s.push(vs[0]), cap, vs.skip(1));
        let m = vstd::math::min((cap - s.len()) as int, vs.len() as int);
        let m1 = vstd::math::min((cap - s.len() - 1) as int, (vs.len() - 1) as int);
        assert(s.push(vs[0]) + vs.skip(1).take(m1) =~= s + vs.take(m));
    } else {
        lemma_push_all_prefix(s, cap, vs.skip(1));
        assert(push_all_model(s, cap, vs) =~= s + vs.take(0));
    }
}

/// For any run of pushes on an empty bounded queue with no intervening pops:
/// when they fit within the capacity, every value is retained in push order
/// (so a subsequent run of pops returns them in that order, by the contract
/// of `pop`); when they overflow, exactly the capacity's worth of values is
/// retained, oldest first, and the excess is dropped without error.
pub proof fn lemma_bounded_queue_fifo(cap: nat, vs: Seq<u64>)
    ensures
        vs.len() <= cap ==> push_all_model(Seq::<u64>::empty(), cap, vs) == vs,
        vs.len() > cap ==> push_all_model(Seq::<u64>::empty(), cap, vs) == vs.take(cap as int),
{
    lemma_push_all_prefix(Seq::<u64>::empty(), cap, vs);
    if vs.len() <= cap {
        assert(Seq::<u64>::empty() + vs.take(vs.len() as int) =~= vs);
    } else {
        assert(Seq::<u64>::empty() + vs.take(cap as int) =~= vs.take(cap as int));
    }
}

} // verus!
