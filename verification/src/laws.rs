//! The queue discipline, stated and proved once and for all.
//!
//! The buffer's operations are specified through [`spec_push`] and
//! [`spec_pop`]. This module closes the loop: it models an arbitrary run of
//! the queue — any interleaving of enqueue attempts by the producer and
//! dequeue attempts by the consumer — as a fold of those same two functions,
//! and proves the laws a caller relies on: first-in-first-out delivery, the
//! capacity bound, and that no value is ever lost or duplicated.

use vstd::prelude::*;

use crate::ring_buffer::{spec_pop, spec_push};

verus! {

/// One attempted operation: an enqueue of a value by the producer, or a
/// dequeue attempt by the consumer.
pub enum Op<T> {
    Push(T),
    Pop,
}

/// Abstract run state: the queue contents together with the full history of
/// the run — every value the buffer accepted, in order, and every value a pop
/// delivered, in order. Rejected pushes and empty pops leave it unchanged.
pub struct RunState<T> {
    /// Values currently queued, oldest first.
    pub queue: Seq<T>,
    /// Values accepted by a successful push, in push order.
    pub accepted: Seq<T>,
    /// Values delivered by a successful pop, in pop order.
    pub delivered: Seq<T>,
}

/// The state of a freshly created buffer: nothing queued, no history.
pub open spec fn init_state<T>() -> RunState<T> {
    RunState { queue: Seq::empty(), accepted: Seq::empty(), delivered: Seq::empty() }
}

/// Effect of one attempted operation on the run state, defined by the same
/// transition functions that `push` and `pop` are proved to implement.
pub open spec fn step<T>(s: RunState<T>, capacity: nat, op: Op<T>) -> RunState<T> {
    match op {
        Op::Push(v) => match spec_push(s.queue, capacity, v) {
            Some(q) => RunState { queue: q, accepted: s.accepted.push(v), delivered: s.delivered },
            None => s,
        },
        Op::Pop => match spec_pop(s.queue) {
            Some(vq) => RunState {
                queue: vq.1,
                accepted: s.accepted,
                delivered: s.delivered.push(vq.0),
            },
            None => s,
        },
    }
}

/// Folds a sequence of attempted operations over a starting state.
pub open spec fn run_from<T>(s: RunState<T>, ops: Seq<Op<T>>, capacity: nat) -> RunState<T>
    decreases ops.len(),
{
    if ops.len() == 0 {
        s
    } else {
        run_from(step(s, capacity, ops.first()), ops.drop_first(), capacity)
    }
}

/// Folds a sequence of attempted operations over the fresh buffer.
pub open spec fn run<T>(ops: Seq<Op<T>>, capacity: nat) -> RunState<T> {
    run_from(init_state(), ops, capacity)
}

/// The run states that can actually be reached: the queue never exceeds the
/// capacity, and the accepted history splits exactly into the delivered
/// history followed by what is still queued.
pub open spec fn consistent<T>(s: RunState<T>, capacity: nat) -> bool {
    &&& s.queue.len() <= capacity
    &&& s.accepted == s.delivered + s.queue
}

/// A sequence of `n` enqueue attempts, one per value of `vs` in order.
pub open spec fn pushes<T>(vs: Seq<T>) -> Seq<Op<T>> {
    Seq::new(vs.len(), |i: int| Op::Push(vs[i]))
}

/// A sequence of `n` dequeue attempts.
pub open spec fn pops<T>(n: nat) -> Seq<Op<T>> {
    Seq::new(n, |i: int| Op::Pop)
}

/// One step keeps a run state consistent.
proof fn lemma_step_consistent<T>(s: RunState<T>, capacity: nat, op: Op<T>)
    requires
        consistent(s, capacity),
    ensures
        consistent(step(s, capacity, op), capacity),
{
    match op {
        Op::Push(v) => {
            if s.queue.len() < capacity {
                assert(s.accepted.push(v) =~= s.delivered + s.queue.push(v));
            }
        },
        Op::Pop => {
            if s.queue.len() > 0 {
                assert(s.accepted =~= s.delivered.push(s.queue.first()) + s.queue.drop_first());
            }
        },
    }
}

/// A whole run from a consistent state stays consistent.
proof fn lemma_run_from_consistent<T>(s: RunState<T>, ops: Seq<Op<T>>, capacity: nat)
    requires
        consistent(s, capacity),
    ensures
        consistent(run_from(s, ops, capacity), capacity),
    decreases ops.len(),
{
    if ops.len() > 0 {
        lemma_step_consistent(s, capacity, ops.first());
        lemma_run_from_consistent(step(s, capacity, ops.first()), ops.drop_first(), capacity);
    }
}

/// Empty on start: a freshly created buffer delivers nothing — a dequeue
/// attempt on it reports failure and changes nothing.
pub proof fn lemma_empty_on_start<T>(capacity: nat)
    ensures
        spec_pop(init_state::<T>().queue) is None,
        step(init_state::<T>(), capacity, Op::Pop) == init_state::<T>(),
{
}

/// Running the concatenation of two operation sequences is running the first
/// and then the second.
proof fn lemma_run_from_concat<T>(s: RunState<T>, a: Seq<Op<T>>, b: Seq<Op<T>>, capacity: nat)
    ensures
        run_from(s, a + b, capacity) == run_from(run_from(s, a, capacity), b, capacity),
    decreases a.len(),
{
    if a.len() == 0 {
        assert(a + b =~= b);
    } else {
        assert((a + b).first() == a.first());
        assert((a + b).drop_first() =~= a.drop_first() + b);
        lemma_run_from_concat(step(s, capacity, a.first()), a.drop_first(), b, capacity);
    }
}

/// While the capacity allows it, every enqueue attempt is accepted and the
/// values line up at the back of the queue in push order.
proof fn lemma_push_all<T>(s: RunState<T>, vs: Seq<T>, capacity: nat)
    requires
        s.queue.len() + vs.len() <= capacity,
    ensures
        run_from(s, pushes(vs), capacity) == (RunState {
            queue: s.queue + vs,
            accepted: s.accepted + vs,
            delivered: s.delivered,
        }),
    decreases vs.len(),
{
    if vs.len() == 0 {
        assert(s.queue + vs =~= s.queue);
        assert(s.accepted + vs =~= s.accepted);
    } else {
        let stepped = step(s, capacity, Op::Push(vs.first()));
        assert(pushes(vs).first() == Op::Push(vs.first()));
        assert(pushes(vs).drop_first() =~= pushes(vs.drop_first()));
        lemma_push_all(stepped, vs.drop_first(), capacity);
        assert(s.queue.push(vs.first()) + vs.drop_first() =~= s.queue + vs);
        assert(s.accepted.push(vs.first()) + vs.drop_first() =~= s.accepted + vs);
    }
}

/// While the queue holds enough values, every dequeue attempt succeeds and
/// delivers from the front of the queue in order.
proof fn lemma_pop_all<T>(s: RunState<T>, n: nat, capacity: nat)
    requires
        n <= s.queue.len(),
    ensures
        run_from(s, pops(n), capacity) == (RunState {
            queue: s.queue.skip(n as int),
            accepted: s.accepted,
            delivered: s.delivered + s.queue.take(n as int),
        }),
    decreases n,
{
    if n == 0 {
        assert(s.queue.skip(0) =~= s.queue);
        assert(s.delivered + s.queue.take(0) =~= s.delivered);
    } else {
        let stepped = step(s, capacity, Op::Pop);
        assert(pops::<T>(n).first() == Op::<T>::Pop);
        assert(pops::<T>(n).drop_first() =~= pops::<T>((n - 1) as nat));
        lemma_pop_all(stepped, (n - 1) as nat, capacity);
        assert(s.queue.drop_first().skip(n - 1) =~= s.queue.skip(n as int));
        assert(s.delivered.push(s.queue.first()) + s.queue.drop_first().take(n - 1) =~= s.delivered
            + s.queue.take(n as int));
    }
}

/// First-in-first-out order: enqueuing `vs` (at most the capacity) into the
/// fresh buffer accepts every value and queues them in order, and `vs.len()`
/// dequeue attempts then deliver exactly `vs`, in that order, draining the
/// queue.
pub proof fn lemma_fifo<T>(vs: Seq<T>, capacity: nat)
    requires
        vs.len() <= capacity,
    ensures
        run(pushes(vs), capacity).queue == vs,
        run(pushes(vs), capacity).accepted == vs,
        run(pushes(vs) + pops(vs.len()), capacity).delivered == vs,
        run(pushes(vs) + pops(vs.len()), capacity).queue == Seq::<T>::empty(),
{
    lemma_push_all(init_state::<T>(), vs, capacity);
    let filled = run(pushes(vs), capacity);
    assert(Seq::<T>::empty() + vs =~= vs);
    lemma_run_from_concat(init_state::<T>(), pushes(vs), pops(vs.len()), capacity);
    lemma_pop_all(filled, vs.len(), capacity);
    assert(vs.skip(vs.len() as int) =~= Seq::<T>::empty());
    assert(Seq::<T>::empty() + vs.take(vs.len() as int) =~= vs);
}

/// Capacity bound: with capacity `C`, `C` consecutive pushes into the fresh
/// buffer are all accepted; the next push is rejected and changes nothing;
/// and after exactly one pop, exactly one more push is accepted.
pub proof fn lemma_capacity_bound<T>(vs: Seq<T>, x: T, y: T, capacity: nat)
    requires
        vs.len() == capacity,
        0 < capacity,
    ensures
        run(pushes(vs), capacity).queue == vs,
        step(run(pushes(vs), capacity), capacity, Op::Push(x)) == run(pushes(vs), capacity),
        ({
            let after_pop = step(run(pushes(vs), capacity), capacity, Op::Pop);
            &&& after_pop.queue == vs.drop_first()
            &&& step(after_pop, capacity, Op::Push(y)).queue == vs.drop_first().push(y)
        }),
{
    lemma_push_all(init_state::<T>(), vs, capacity);
    assert(Seq::<T>::empty() + vs =~= vs);
}

/// No loss, no duplication, no reordering: after any interleaving of enqueue
/// and dequeue attempts, the values accepted by the buffer are exactly the
/// values already delivered — each exactly once, in acceptance order —
/// followed by the values still queued; in particular the delivered history
/// is a prefix of the accepted history, and the queue never holds more than
/// `capacity` values.
pub proof fn lemma_no_loss_no_duplication<T>(ops: Seq<Op<T>>, capacity: nat)
    ensures
        run(ops, capacity).accepted == run(ops, capacity).delivered + run(ops, capacity).queue,
        run(ops, capacity).delivered == run(ops, capacity).accepted.take(
            run(ops, capacity).delivered.len() as int,
        ),
        run(ops, capacity).queue.len() <= capacity,
{
    assert(consistent(init_state::<T>(), capacity)) by {
        assert(Seq::<T>::empty() =~= Seq::<T>::empty() + Seq::<T>::empty());
    }
    lemma_run_from_consistent(init_state::<T>(), ops, capacity);
    let s = run(ops, capacity);
    assert(s.delivered =~= s.accepted.take(s.delivered.len() as int));
}

} // verus!
