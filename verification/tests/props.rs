use spsc_ring::ring_buffer::RingBuffer;
use spsc_ring::spsc::{make_channel, spsc};

#[test]
fn fifo_order_within_capacity() {
    let mut rb: RingBuffer<u64> = RingBuffer::new(8);
    for v in [10, 20, 30, 40, 50] {
        assert_eq!(rb.push(v), Some(()));
    }
    for v in [10, 20, 30, 40, 50] {
        assert_eq!(rb.pop(), Some(v));
    }
    assert_eq!(rb.pop(), None);
}

#[test]
fn capacity_bound_full_then_one_free_slot() {
    let mut rb: RingBuffer<u32> = RingBuffer::new(4);
    assert_eq!(rb.push(1), Some(()));
    assert_eq!(rb.push(2), Some(()));
    assert_eq!(rb.push(3), Some(()));
    assert_eq!(rb.push(4), Some(()));
    // Buffer now full: the fifth push reports failure and overwrites nothing.
    assert_eq!(rb.push(5), None);
    // One pop frees exactly one slot, so exactly one more push succeeds.
    assert_eq!(rb.pop(), Some(1));
    assert_eq!(rb.push(6), Some(()));
    assert_eq!(rb.push(7), None);
    assert_eq!(rb.pop(), Some(2));
    assert_eq!(rb.pop(), Some(3));
    assert_eq!(rb.pop(), Some(4));
    assert_eq!(rb.pop(), Some(6));
    assert_eq!(rb.pop(), None);
}

#[test]
fn channel_full_then_one_free_slot() {
    let (mut tx, mut rx) = make_channel::<u8>(4);
    assert_eq!(tx.send(1), Some(()));
    assert_eq!(tx.send(2), Some(()));
    assert_eq!(tx.send(3), Some(()));
    assert_eq!(tx.send(4), Some(()));
    assert_eq!(tx.send(5), None);
    assert_eq!(rx.try_recv(), Some(1));
    assert_eq!(tx.send(6), Some(()));
}

#[test]
fn empty_on_start() {
    let mut rb: RingBuffer<i32> = RingBuffer::new(7);
    assert_eq!(rb.pop(), None);

    let (_tx, mut rx) = spsc::<i32>();
    assert_eq!(rx.try_recv(), None);
}

#[test]
fn channel_scenario_capacity_32() {
    let (mut tx, mut rx) = make_channel::<u8>(32);
    assert_eq!(tx.send(1), Some(()));
    assert_eq!(tx.send(12), Some(()));
    assert_eq!(tx.send(31), Some(()));
    assert_eq!(tx.send(128), Some(()));
    assert_eq!(rx.try_recv(), Some(1));
    assert_eq!(rx.try_recv(), Some(12));
    assert_eq!(rx.try_recv(), Some(31));
    assert_eq!(rx.try_recv(), Some(128));
    assert_eq!(rx.try_recv(), None);
}

#[test]
fn wraparound_keeps_order() {
    let mut rb: RingBuffer<u32> = RingBuffer::new(3);
    assert_eq!(rb.push(1), Some(()));
    assert_eq!(rb.push(2), Some(()));
    assert_eq!(rb.push(3), Some(()));
    assert_eq!(rb.pop(), Some(1));
    // The slot freed by the pop is reused: the head and tail wrap past the
    // end of the slot array while the order is kept.
    assert_eq!(rb.push(4), Some(()));
    assert_eq!(rb.pop(), Some(2));
    assert_eq!(rb.push(5), Some(()));
    assert_eq!(rb.pop(), Some(3));
    assert_eq!(rb.pop(), Some(4));
    assert_eq!(rb.pop(), Some(5));
    assert_eq!(rb.pop(), None);
}

#[test]
fn interleaved_no_loss_no_duplication() {
    // One producer role and one consumer role take turns on a small buffer,
    // each polling past Full and Empty: every pushed value arrives exactly
    // once, in push order.
    let (mut tx, mut rx) = make_channel::<u32>(3);
    let total: u32 = 100;
    let mut next_send: u32 = 0;
    let mut received: Vec<u32> = Vec::new();

    while (received.len() as u32) < total {
        // Producer turn: push until the buffer reports Full.
        while next_send < total {
            match tx.send(next_send) {
                Some(()) => next_send += 1,
                None => break,
            }
        }
        // Consumer turn: pop until the buffer reports Empty.
        while let Some(v) = rx.try_recv() {
            received.push(v);
        }
    }

    let expected: Vec<u32> = (0..total).collect();
    assert_eq!(received, expected);
    assert_eq!(rx.try_recv(), None);
}

#[test]
fn high_volume_in_order() {
    // Ten million sequential integers through a capacity-1024 buffer, pushed
    // in bursts that force the indices to wrap thousands of times; the popped
    // sequence equals the pushed sequence.
    let mut rb: RingBuffer<u64> = RingBuffer::new(1024);
    let total: u64 = 10_000_000;
    let mut next_push: u64 = 0;
    let mut next_pop: u64 = 0;

    while next_pop < total {
        let mut burst: u32 = 0;
        while next_push < total && burst < 700 {
            match rb.push(next_push) {
                Some(()) => {
                    next_push += 1;
                    burst += 1;
                }
                None => break,
            }
        }
        while let Some(v) = rb.pop() {
            assert_eq!(v, next_pop);
            next_pop += 1;
        }
    }

    assert_eq!(next_push, total);
    assert_eq!(rb.pop(), None);
}
