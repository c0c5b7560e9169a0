//! Typed channel handles over one shared ring buffer.
//!
//! A [`Sender`] may only enqueue and a [`Receiver`] may only dequeue; the two
//! are created together by [`make_channel`] (or [`spsc`], which picks a
//! default capacity) as an inseparable pair bound to a single buffer. The
//! buffer is shared through a reader-writer lock whose invariant pins the
//! buffer's well-formedness and its capacity, so every operation acts on a
//! well-formed buffer and leaves one behind; it is destroyed only when the
//! last handle drops. Each handle is meant to be owned by exactly one thread:
//! one producer sending, one consumer receiving. Neither operation blocks or
//! retries: a full buffer makes `send` report failure and an empty buffer
//! makes `try_recv` report failure, and the caller owns the retry or
//! backpressure policy.

use std::sync::Arc;

use vstd::prelude::*;
use vstd::rwlock::{RwLock, RwLockPredicate};

use crate::ring_buffer::RingBuffer;

verus! {

const DEFAULT_CAPACITY: usize = 1024;

/// Lock invariant for the shared buffer: whatever value sits in the lock is a
/// well-formed ring buffer of the capacity the channel was created with.
pub(crate) struct ChannelPred {
    pub(crate) cap: nat,
}

impl<T> RwLockPredicate<RingBuffer<T>> for ChannelPred {
    closed spec fn inv(self, rb: RingBuffer<T>) -> bool {
        &&& rb.wf()
        &&& rb.capacity() == self.cap
    }
}

/// The producer's handle: shared ownership of one ring buffer, restricted to
/// enqueuing.
pub struct Sender<T> {
    pub(crate) rb: Arc<RwLock<RingBuffer<T>, ChannelPred>>,
}

/// The consumer's handle: shared ownership of one ring buffer, restricted to
/// dequeuing.
pub struct Receiver<T> {
    pub(crate) rb: Arc<RwLock<RingBuffer<T>, ChannelPred>>,
}

/// Whether the two handles are bound to the same buffer, as the two halves of
/// one channel are.
pub closed spec fn connected<T>(s: &Sender<T>, r: &Receiver<T>) -> bool {
    s.rb == r.rb
}

/// Handles bound to the same buffer agree on its capacity.
pub proof fn lemma_connected_capacity<T>(s: &Sender<T>, r: &Receiver<T>)
    requires
        connected(s, r),
    ensures
        s.capacity() == r.capacity(),
{
}

/// Relies on `std::sync::Arc::clone`: the clone is a second handle to the
/// same allocation, so the value it points to is the very value the original
/// points to.
#[verifier::external_body]
fn clone_arc<T>(rb: &Arc<RwLock<RingBuffer<T>, ChannelPred>>) -> (res: Arc<
    RwLock<RingBuffer<T>, ChannelPred>,
>)
    ensures
        res == *rb,
{
    Arc::clone(rb)
}

impl<T> Sender<T> {
    /// Capacity of the buffer this handle is bound to.
    pub closed spec fn capacity(&self) -> nat {
        (*self.rb).pred().cap
    }

    pub(crate) fn new(rb: Arc<RwLock<RingBuffer<T>, ChannelPred>>) -> (s: Sender<T>)
        ensures
            s.capacity() == (*rb).pred().cap,
            s == (Sender { rb }),
    {
        Sender { rb }
    }

    /// Attempts to enqueue `x`: a single, non-blocking attempt on the shared
    /// buffer, exactly [`RingBuffer::push`] on the buffer's state at the
    /// instant of the call. `Some(())` means the value was accepted; `None`
    /// means the buffer was full — the concurrently running consumer decides
    /// which, so no outcome is promised here, and the caller owns the
    /// backpressure decision.
    pub fn send(&mut self, x: T) -> (r: Option<()>)
        ensures
            *final(self) == *old(self),
    {
        let lock = &*self.rb;
        let (mut rb, handle) = lock.acquire_write();
        let r = rb.push(x);
        handle.release_write(rb);
        r
    }
}

impl<T> Receiver<T> {
    /// Capacity of the buffer this handle is bound to.
    pub closed spec fn capacity(&self) -> nat {
        (*self.rb).pred().cap
    }

    pub(crate) fn new(rb: Arc<RwLock<RingBuffer<T>, ChannelPred>>) -> (r: Receiver<T>)
        ensures
            r.capacity() == (*rb).pred().cap,
            r == (Receiver { rb }),
    {
        Receiver { rb }
    }

    /// Attempts to dequeue the oldest value: a single, non-blocking attempt
    /// on the shared buffer, exactly [`RingBuffer::pop`] on the buffer's
    /// state at the instant of the call. `Some(value)` is the oldest queued
    /// value; `None` means the buffer was empty — the concurrently running
    /// producer decides which, so no outcome is promised here, and the caller
    /// owns the polling policy.
    pub fn try_recv(&mut self) -> (r: Option<T>)
        ensures
            *final(self) == *old(self),
    {
        let lock = &*self.rb;
        let (mut rb, handle) = lock.acquire_write();
        let r = rb.pop();
        handle.release_write(rb);
        r
    }
}

/// Allocates one ring buffer of the given capacity and returns the one bound
/// `Sender`/`Receiver` pair sharing it.
pub fn make_channel<T>(capacity: usize) -> (pair: (Sender<T>, Receiver<T>))
    requires
        0 < capacity,
    ensures
        pair.0.capacity() == capacity,
        pair.1.capacity() == capacity,
        connected(&pair.0, &pair.1),
{
    let rb = RingBuffer::<T>::new(capacity);
    let lock = RwLock::new(rb, Ghost(ChannelPred { cap: capacity as nat }));
    let rb_sender = Arc::new(lock);
    let rb_receiver = clone_arc(&rb_sender);
    (Sender::new(rb_sender), Receiver::new(rb_receiver))
}

/// Creates a channel with the default capacity.
pub fn spsc<T>() -> (pair: (Sender<T>, Receiver<T>))
    ensures
        pair.0.capacity() == 1024,
        pair.1.capacity() == 1024,
        connected(&pair.0, &pair.1),
{
    make_channel(DEFAULT_CAPACITY)
}

} // verus!
