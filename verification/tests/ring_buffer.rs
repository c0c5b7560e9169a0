use std::hint::black_box;
use std::time::Instant;

use spsc_ring::ring_buffer::RingBuffer;

#[test]
fn test_rb_0() {
    let mut rb: RingBuffer<u8> = RingBuffer::new(32);
    let _ = rb.push(1);
    let _ = rb.push(12);
    let _ = rb.push(31);
    let _ = rb.push(128);

    assert_eq!(rb.pop(), Some(1));
    assert_eq!(rb.pop(), Some(12));
    assert_eq!(rb.pop(), Some(31));
    assert_eq!(rb.pop(), Some(128));
    assert_eq!(rb.pop(), None);
}

#[test]
fn benchmark_ns_per_write() {
    let n = 1_000;
    let mut rb: RingBuffer<u8> = RingBuffer::new(1024);
    let mut tooks: Vec<f64> = Vec::with_capacity(n);

    for _ in 0..n {
        let start_t = Instant::now();
        black_box(rb.push(2));

        let took = start_t.elapsed().as_nanos() as f64;
        tooks.push(took);
    }

    let avg_took = tooks.iter().sum::<f64>() / tooks.len() as f64;

    println!("avg took: {}ns", &avg_took);
}
