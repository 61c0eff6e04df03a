//! The bounded sample buffer: a fixed-capacity FIFO of samples with
//! non-blocking push and pop and constant-time vacancy queries, backed by
//! ringbuf's heap ring buffer.

use vstd::math::min;
use vstd::prelude::*;

use ringbuf::traits::{Consumer, Observer, Producer};
use ringbuf::HeapRb;

verus! {

/// Holds ringbuf's heap ring buffer of samples. Verus sees it only through
/// `ring_items` and `ring_capacity` and the wrappers below.
#[verifier::external_body]
pub struct RingStore {
    rb: HeapRb<i32>,
}

/// The samples a ring buffer holds, oldest first.
pub uninterp spec fn ring_items(rb: RingStore) -> Seq<i32>;

/// The number of slots a ring buffer was made with.
pub uninterp spec fn ring_capacity(rb: RingStore) -> nat;

/// Relies on `HeapRb::new`: an empty buffer with exactly `capacity` slots
/// (it panics on a capacity of zero).
#[verifier::external_body]
fn rb_new(capacity: usize) -> (rb: RingStore)
    requires
        capacity > 0,
    ensures
        ring_items(rb) == Seq::<i32>::empty(),
        ring_capacity(rb) == capacity,
{
    RingStore { rb: HeapRb::<i32>::new(capacity) }
}

/// Relies on `Producer::push_slice`: it copies the longest prefix of `elems`
/// that fits into the vacant slots, after the items already held, and
/// returns its length.
#[verifier::external_body]
fn rb_push_slice(rb: &mut RingStore, elems: &[i32]) -> (n: usize)
    ensures
        n == min(elems@.len() as int, ring_capacity(*old(rb)) - ring_items(*old(rb)).len()),
        ring_items(*final(rb)) == ring_items(*old(rb)) + elems@.take(n as int),
        ring_capacity(*final(rb)) == ring_capacity(*old(rb)),
{
    rb.rb.push_slice(elems)
}

/// Relies on `Consumer::try_pop`: it removes and returns the oldest item, or
/// returns `None` when the buffer is empty.
#[verifier::external_body]
fn rb_try_pop(rb: &mut RingStore) -> (r: Option<i32>)
    ensures
        ring_items(*old(rb)).len() == 0 ==> r is None && ring_items(*final(rb)) == ring_items(
            *old(rb),
        ),
        ring_items(*old(rb)).len() > 0 ==> r == Some(ring_items(*old(rb))[0]) && ring_items(
            *final(rb),
        ) == ring_items(*old(rb)).drop_first(),
        ring_capacity(*final(rb)) == ring_capacity(*old(rb)),
{
    rb.rb.try_pop()
}

/// Relies on `Observer::vacant_len`: the number of free slots.
#[verifier::external_body]
fn rb_vacant_len(rb: &RingStore) -> (n: usize)
    ensures
        n == ring_capacity(*rb) - ring_items(*rb).len(),
{
    rb.rb.vacant_len()
}

/// Relies on `Observer::occupied_len`: the number of items held.
#[verifier::external_body]
fn rb_occupied_len(rb: &RingStore) -> (n: usize)
    ensures
        n == ring_items(*rb).len(),
{
    rb.rb.occupied_len()
}

/// Relies on `Observer::capacity`: the number of slots.
#[verifier::external_body]
fn rb_capacity(rb: &RingStore) -> (n: usize)
    ensures
        n == ring_capacity(*rb),
{
    rb.rb.capacity().get()
}

/// What pushing `elems` onto a buffer holding `items` with `cap` slots
/// leaves in it: as many leading samples of `elems` as fit, after `items`.
pub open spec fn pushed(items: Seq<i32>, cap: nat, elems: Seq<i32>) -> Seq<i32> {
    items + elems.take(min(elems.len() as int, cap - items.len()))
}

/// The samples that `k` successive pops take from a buffer holding `items`.
pub open spec fn popped(items: Seq<i32>, k: nat) -> Seq<i32>
    decreases k,
{
    if k == 0 || items.len() == 0 {
        Seq::empty()
    } else {
        seq![items[0]] + popped(items.drop_first(), (k - 1) as nat)
    }
}

/// A fixed-capacity single-producer, single-consumer sample queue.
pub struct SampleRing {
    rb: RingStore,
}

impl SampleRing {
    /// The samples held, oldest first.
    pub closed spec fn view(&self) -> Seq<i32> {
        ring_items(self.rb)
    }

    /// The fixed number of slots.
    pub closed spec fn cap(&self) -> nat {
        ring_capacity(self.rb)
    }

    /// The number of free slots.
    pub open spec fn vacancy(&self) -> int {
        self.cap() - self@.len()
    }

    /// The number of samples held.
    pub open spec fn occupancy(&self) -> int {
        self@.len() as int
    }

    /// Occupancy never exceeds the capacity, which is positive.
    pub open spec fn wf(&self) -> bool {
        0 < self.cap() && self@.len() <= self.cap()
    }

    /// An empty queue with `capacity` slots.
    pub fn new(capacity: usize) -> (r: Self)
        requires
            capacity > 0,
        ensures
            r.wf(),
            r@ == Seq::<i32>::empty(),
            r.cap() == capacity,
    {
        SampleRing { rb: rb_new(capacity) }
    }

    /// Writes as many leading samples of `samples` as fit without blocking
    /// and returns how many were written; the caller retries the rest later.
    pub fn push_slice(&mut self, samples: &[i32]) -> (n: usize)
        requires
            old(self).wf(),
        ensures
            final(self).wf(),
            final(self).cap() == old(self).cap(),
            n == min(samples@.len() as int, old(self).cap() - old(self)@.len()),
            final(self)@ == pushed(old(self)@, old(self).cap(), samples@),
            final(self)@ == old(self)@ + samples@.take(n as int),
    {
        rb_push_slice(&mut self.rb, samples)
    }

    /// Removes and returns the oldest sample, or `None` when empty.
    pub fn pop_one(&mut self) -> (r: Option<i32>)
        requires
            old(self).wf(),
        ensures
            final(self).wf(),
            final(self).cap() == old(self).cap(),
            old(self)@.len() == 0 ==> r is None && final(self)@ == old(self)@,
            old(self)@.len() > 0 ==> r == Some(old(self)@[0]) && final(self)@ == old(
                self,
            )@.drop_first(),
    {
        rb_try_pop(&mut self.rb)
    }

    /// The number of free slots.
    pub fn vacant_len(&self) -> (n: usize)
        requires
            self.wf(),
        ensures
            n == self.vacancy(),
    {
        rb_vacant_len(&self.rb)
    }

    /// The number of samples held.
    pub fn occupied_len(&self) -> (n: usize)
        requires
            self.wf(),
        ensures
            n == self.occupancy(),
    {
        rb_occupied_len(&self.rb)
    }

    /// The fixed number of slots.
    pub fn capacity(&self) -> (n: usize)
        requires
            self.wf(),
        ensures
            n == self.cap(),
    {
        rb_capacity(&self.rb)
    }

    /// Whether no slot is free.
    pub fn is_full(&self) -> (b: bool)
        requires
            self.wf(),
        ensures
            b <==> self@.len() == self.cap(),
    {
        self.vacant_len() == 0
    }

    /// Whether no sample is held.
    pub fn is_empty(&self) -> (b: bool)
        requires
            self.wf(),
        ensures
            b <==> self@.len() == 0,
    {
        self.occupied_len() == 0
    }
}

/// First-in, first-out: pushing samples that all fit onto a buffer holding
/// `before`, and then popping as many samples as it then holds, yields
/// `before` followed by the pushed samples, in order.
pub proof fn lemma_push_then_pop_is_fifo(before: Seq<i32>, cap: nat, elems: Seq<i32>)
    requires
        before.len() + elems.len() <= cap,
    ensures
        popped(pushed(before, cap, elems), before.len() + elems.len()) == before + elems,
{
    assert(elems.take(elems.len() as int) =~= elems);
    lemma_popped_all(before + elems);
}

/// Popping as many samples as a buffer holds yields all of them.
pub proof fn lemma_popped_all(items: Seq<i32>)
    ensures
        popped(items, items.len()) == items,
    decreases items.len(),
{
    if items.len() > 0 {
        lemma_popped_all(items.drop_first());
        assert(seq![items[0]] + items.drop_first() =~= items);
    }
}

/// What `vacant_len` and `occupied_len` report always adds up to the
/// capacity, and stays within it, after any sequence of pushes and pops
/// (each of which keeps the queue well formed).
pub proof fn lemma_vacancy_plus_occupancy(r: SampleRing)
    requires
        r.wf(),
    ensures
        r.vacancy() + r.occupancy() == r.cap(),
        0 <= r.vacancy() <= r.cap(),
        0 <= r.occupancy() <= r.cap(),
{
}

} // verus!
