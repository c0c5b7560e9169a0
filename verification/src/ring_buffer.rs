//! A fixed-capacity circular buffer for exactly one producer and one consumer.
//!
//! Every slot is an explicit owned-value cell (`Option<T>`): a push installs a
//! value and marks the slot occupied, a pop moves the value out and marks the
//! slot empty. The abstract state is the sequence of queued values, oldest
//! first, together with two monotonically increasing logical counters: the
//! tail counter counts every value ever enqueued, the head counter every value
//! ever dequeued. Fullness and emptiness are decided from those unbounded
//! counters — the buffer is empty iff they are equal and full iff they differ
//! by exactly the capacity — never by comparing wrapped slot indices, which
//! becomes ambiguous once the counters alias modulo the capacity.

use vstd::prelude::*;

verus! {

/// What a push does to the abstract queue: appends the value when a free slot
/// exists, and leaves the queue untouched (`None`) when it is full.
pub open spec fn spec_push<T>(q: Seq<T>, capacity: nat, x: T) -> Option<Seq<T>> {
    if q.len() < capacity {
        Some(q.push(x))
    } else {
        None
    }
}

/// What a pop does to the abstract queue: removes and yields the oldest value,
/// or reports `None` when the queue is empty.
pub open spec fn spec_pop<T>(q: Seq<T>) -> Option<(T, Seq<T>)> {
    if q.len() > 0 {
        Some((q.first(), q.drop_first()))
    } else {
        None
    }
}

/// Stepping a monotonic counter advances its reduction modulo the capacity by
/// one, wrapping from `cap - 1` back to `0`.
proof fn lemma_mod_step(x: int, cap: int)
    requires
        0 < cap,
    ensures
        (x + 1) % cap == if x % cap + 1 < cap {
            x % cap + 1
        } else {
            0
        },
{
    vstd::arithmetic::div_mod::lemma_add_mod_noop(x, 1, cap);
    if cap == 1 {
    } else {
        vstd::arithmetic::div_mod::lemma_small_mod(1nat, cap as nat);
        let r = x % cap;
        if r + 1 == cap {
            vstd::arithmetic::div_mod::lemma_mod_self_0(cap);
        } else {
            vstd::arithmetic::div_mod::lemma_small_mod((r + 1) as nat, cap as nat);
        }
    }
}

/// Fixed-capacity circular slot array with a head index into the slot vector,
/// a queue length, and ghost monotonic counters recording the whole history
/// of enqueues and dequeues.
pub struct RingBuffer<T> {
    /// One cell per slot; `Some` exactly on the slots holding queued values.
    slots: Vec<Option<T>>,
    /// Slot index of the oldest queued value; always `head_count % capacity`.
    head: usize,
    /// Number of values currently queued.
    len: usize,
    /// Logical count of values ever dequeued.
    head_count: Ghost<nat>,
    /// Logical count of values ever enqueued.
    tail_count: Ghost<nat>,
}

impl<T> RingBuffer<T> {
    /// Number of slots, fixed at construction.
    pub closed spec fn capacity(&self) -> nat {
        self.slots@.len()
    }

    /// Logical count of values ever dequeued.
    pub closed spec fn head_count(&self) -> nat {
        self.head_count@
    }

    /// Logical count of values ever enqueued.
    pub closed spec fn tail_count(&self) -> nat {
        self.tail_count@
    }

    /// Slot index that the `i`-th queued value occupies, counting from the
    /// oldest: `head + i` reduced once past the end of the slot vector.
    spec fn slot_of(&self, i: int) -> int {
        if self.head + i < self.slots@.len() {
            self.head + i
        } else {
            self.head + i - self.slots@.len()
        }
    }

    /// Whether slot `j` holds one of the currently queued values, i.e. lies in
    /// the wrapped interval starting at `head` of length `len`.
    spec fn slot_live(&self, j: int) -> bool {
        let cap = self.slots@.len() as int;
        if self.head + self.len <= cap {
            self.head <= j < self.head + self.len
        } else {
            self.head <= j < cap || 0 <= j < self.head + self.len - cap
        }
    }

    /// The queued values, oldest first.
    pub closed spec fn view(&self) -> Seq<T> {
        Seq::new(self.len as nat, |i: int| self.slots@[self.slot_of(i)].unwrap())
    }

    /// Structural invariant: the capacity is positive, the head index is the
    /// head counter reduced modulo the capacity, the counters differ by the
    /// queue length, at most capacity, and a slot holds a value exactly when
    /// it lies in the live range `[head_count, tail_count)` taken modulo the
    /// capacity.
    pub closed spec fn wf(&self) -> bool {
        &&& 0 < self.slots@.len()
        &&& self.head < self.slots@.len()
        &&& self.len <= self.slots@.len()
        &&& self.tail_count@ == self.head_count@ + self.len
        &&& self.head as int == self.head_count@ as int % (self.slots@.len() as int)
        &&& forall|j: int|
            0 <= j < self.slots@.len() ==> ((#[trigger] self.slots@[j]) is Some <==> self.slot_live(
                j,
            ))
    }

    /// Creates a buffer with `capacity` empty slots and both counters at zero.
    pub fn new(capacity: usize) -> (rb: RingBuffer<T>)
        requires
            0 < capacity,
        ensures
            rb.wf(),
            rb@ == Seq::<T>::empty(),
            rb.capacity() == capacity,
            rb.head_count() == 0,
            rb.tail_count() == 0,
    {
        let mut slots: Vec<Option<T>> = Vec::new();
        let mut i: usize = 0;
        while i < capacity
            invariant
                i <= capacity,
                slots@.len() == i,
                forall|j: int| 0 <= j < i ==> (#[trigger] slots@[j]) is None,
            decreases capacity - i,
        {
            slots.push(None);
            i = i + 1;
        }
        let rb = RingBuffer {
            slots,
            head: 0,
            len: 0,
            head_count: Ghost(0),
            tail_count: Ghost(0),
        };
        proof {
            assert(rb@ =~= Seq::<T>::empty());
        }
        rb
    }

    /// Attempts to enqueue `x`. When a free slot exists the value is written
    /// into the slot at `tail_count % capacity`, the tail counter advances and
    /// `Some(())` is returned; when the buffer is full (the counters differ by
    /// the capacity) nothing is written, no value is overwritten, and `None`
    /// is returned. Single-attempt: the call never blocks or retries.
    pub fn push(&mut self, x: T) -> (r: Option<()>)
        requires
            old(self).wf(),
        ensures
            final(self).wf(),
            final(self).capacity() == old(self).capacity(),
            final(self).head_count() == old(self).head_count(),
            r is Some <==> old(self)@.len() < old(self).capacity(),
            match spec_push(old(self)@, old(self).capacity(), x) {
                Some(q) => {
                    &&& final(self)@ == q
                    &&& final(self).tail_count() == old(self).tail_count() + 1
                },
                None => {
                    &&& final(self)@ == old(self)@
                    &&& final(self).tail_count() == old(self).tail_count()
                },
            },
    {
        let cap = self.slots.len();
        if self.len == cap {
            // Full: tail_count == head_count + capacity.
            return None;
        }
        // Slot index of the next free cell, i.e. (head + len) wrapped once.
        // `cap - self.head` cannot underflow because head < cap.
        let idx = if self.len >= cap - self.head {
            self.len - (cap - self.head)
        } else {
            self.head + self.len
        };
        proof {
            assert(idx == self.slot_of(self.len as int));
            assert(!self.slot_live(idx as int));
        }
        self.slots[idx] = Some(x);
        self.len = self.len + 1;
        self.tail_count = Ghost(self.tail_count@ + 1);
        proof {
            assert forall|j: int| 0 <= j < self.slots@.len() implies ((#[trigger] self.slots@[j])
                is Some <==> self.slot_live(j)) by {
                assert(self.slots@[j] == if j == idx {
                    Some(x)
                } else {
                    old(self).slots@[j]
                });
            }
            assert(self@ =~= old(self)@.push(x)) by {
                assert forall|i: int| 0 <= i < self.len implies self@[i] == old(self)@.push(x)[i] by {
                    if i < old(self).len {
                        assert(old(self).slot_live(old(self).slot_of(i)));
                        assert(self.slot_of(i) == old(self).slot_of(i));
                        assert(self.slot_of(i) != idx);
                    } else {
                        assert(self.slot_of(i) == idx);
                    }
                }
            }
        }
        Some(())
    }

    /// Attempts to dequeue the oldest value. When the buffer is non-empty the
    /// value is moved out of the slot at `head_count % capacity`, the slot is
    /// vacated, the head counter advances and `Some(value)` is returned; when
    /// the buffer is empty (the counters are equal) nothing changes and `None`
    /// is returned. Single-attempt: the call never blocks or retries.
    pub fn pop(&mut self) -> (r: Option<T>)
        requires
            old(self).wf(),
        ensures
            final(self).wf(),
            final(self).capacity() == old(self).capacity(),
            final(self).tail_count() == old(self).tail_count(),
            r is Some <==> old(self)@.len() > 0,
            match spec_pop(old(self)@) {
                Some(vq) => {
                    &&& r == Some(vq.0)
                    &&& final(self)@ == vq.1
                    &&& final(self).head_count() == old(self).head_count() + 1
                },
                None => {
                    &&& r is None
                    &&& final(self)@ == old(self)@
                    &&& final(self).head_count() == old(self).head_count()
                },
            },
    {
        if self.len == 0 {
            // Empty: tail_count == head_count.
            return None;
        }
        let h = self.head;
        proof {
            assert(self.slot_live(h as int));
            assert(self.slot_of(0) == h as int);
            assert(old(self)@.first() == self.slots@[h as int].unwrap());
        }
        let v = self.slots[h].take();
        let cap = self.slots.len();
        // The head index wraps from the last slot back to slot 0.
        self.head = if h + 1 == cap {
            0
        } else {
            h + 1
        };
        self.len = self.len - 1;
        self.head_count = Ghost(self.head_count@ + 1);
        proof {
            lemma_mod_step(old(self).head_count@ as int, cap as int);
            assert forall|j: int| 0 <= j < self.slots@.len() implies ((#[trigger] self.slots@[j])
                is Some <==> self.slot_live(j)) by {
                assert(self.slots@[j] == if j == h as int {
                    None::<T>
                } else {
                    old(self).slots@[j]
                });
                assert(old(self).slot_live(j) <==> (j == h as int || self.slot_live(j)));
            }
            assert(self@ =~= old(self)@.drop_first()) by {
                let rest = old(self)@.drop_first();
                assert forall|i: int| 0 <= i < self.len implies self@[i] == rest[i] by {
                    assert(self.slot_of(i) == old(self).slot_of(i + 1));
                    assert(old(self).slot_live(old(self).slot_of(i + 1)));
                    assert(self.slot_of(i) != h as int);
                }
            }
        }
        v
    }

    /// Counter discipline of every well-formed buffer: the head counter never
    /// exceeds the tail counter, their difference is exactly the number of
    /// queued values and never exceeds the capacity; the buffer is empty
    /// precisely when the counters are equal and full precisely when they
    /// differ by the capacity.
    pub proof fn lemma_counter_invariant(&self)
        requires
            self.wf(),
        ensures
            self.head_count() <= self.tail_count(),
            self.tail_count() - self.head_count() == self@.len(),
            self@.len() <= self.capacity(),
            (self@.len() == 0) <==> (self.tail_count() == self.head_count()),
            (self@.len() == self.capacity()) <==> (self.tail_count() - self.head_count()
                == self.capacity()),
    {
    }
}

} // verus!
