//! The per-channel sample ring: a bounded queue of 32-bit samples backed by
//! `ringbuf`'s single-producer/single-consumer buffer. Both endpoints are
//! held together in one [`Ring`], so exactly one party can touch the buffer
//! at a time and every operation observes and leaves an exact state.

use vstd::prelude::*;

verus! {

#[verifier::external_type_specification]
#[verifier::external_body]
#[verifier::reject_recursive_types(T)]
pub struct ExProducer<T>(ringbuf::Producer<T>);

#[verifier::external_type_specification]
#[verifier::external_body]
#[verifier::reject_recursive_types(T)]
pub struct ExConsumer<T>(ringbuf::Consumer<T>);

/// The samples the ring currently holds, oldest first.
pub uninterp spec fn ring_items(r: &Ring) -> Seq<u32>;

/// The fixed capacity the ring was created with.
pub uninterp spec fn ring_capacity(r: &Ring) -> nat;

/// A bounded queue of 32-bit samples. The producer and consumer endpoints
/// of the underlying buffer are kept side by side and private, so the
/// holder of a `Ring` is its only user: the buffer can be reached only
/// through the wrappers below, and the counts they state are exact, not
/// lower or upper bounds.
pub struct Ring {
    tx: ringbuf::Producer<u32>,
    rx: ringbuf::Consumer<u32>,
}

impl View for Ring {
    type V = Seq<u32>;

    open spec fn view(&self) -> Seq<u32> {
        ring_items(self)
    }
}

impl Ring {
    /// The capacity the ring was created with; constant over its life.
    pub open spec fn cap(&self) -> nat {
        ring_capacity(self)
    }

    /// Relies on `ringbuf::RingBuffer::new` and `split`: a fresh buffer of
    /// the requested capacity is empty.
    #[verifier::external_body]
    pub fn new(capacity: usize) -> (r: Ring)
        ensures
            ring_items(&r) == Seq::<u32>::empty(),
            ring_capacity(&r) == capacity,
    {
        let (tx, rx) = ringbuf::RingBuffer::new(capacity).split();
        Ring { tx, rx }
    }

    /// Relies on `ringbuf::Producer::push_slice`: with no concurrent
    /// consumer it appends exactly as many samples from `src[from..]` as
    /// there is free space, in order.
    #[verifier::external_body]
    pub fn push_from(&mut self, src: &Vec<u32>, from: usize) -> (n: usize)
        requires
            from <= src@.len(),
            old(self)@.len() <= old(self).cap(),
        ensures
            n == vstd::math::min(src@.len() - from, old(self).cap() - old(self)@.len()),
            ring_items(final(self)) == old(self)@ + src@.subrange(from as int, from + n),
            ring_capacity(final(self)) == old(self).cap(),
    {
        self.tx.push_slice(&src[from..])
    }

    /// Relies on `ringbuf::Consumer::pop_slice`: with no concurrent
    /// producer it removes exactly `min(|dst|, len)` of the oldest samples
    /// and writes them to the front of `dst`, in order.
    #[verifier::external_body]
    pub fn pop_into(&mut self, dst: &mut Vec<u32>) -> (n: usize)
        ensures
            n == vstd::math::min(old(dst)@.len() as int, old(self)@.len() as int),
            final(dst)@ == old(self)@.take(n as int) + old(dst)@.skip(n as int),
            ring_items(final(self)) == old(self)@.skip(n as int),
            ring_capacity(final(self)) == old(self).cap(),
    {
        self.rx.pop_slice(dst.as_mut_slice())
    }

    /// Relies on `ringbuf::Consumer::len`: exact while no other party
    /// touches the buffer.
    #[verifier::external_body]
    pub fn len(&self) -> (n: usize)
        ensures
            n == self@.len(),
    {
        self.rx.len()
    }

    /// Relies on `ringbuf::Consumer::discard`: removes exactly `min(n, len)`
    /// of the oldest samples without copying them out.
    #[verifier::external_body]
    pub fn discard(&mut self, n: usize) -> (k: usize)
        ensures
            k == vstd::math::min(n as int, old(self)@.len() as int),
            ring_items(final(self)) == old(self)@.skip(k as int),
            ring_capacity(final(self)) == old(self).cap(),
    {
        self.rx.discard(n)
    }
}

} // verus!
