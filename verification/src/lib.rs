//! A bounded single-producer/single-consumer queue.
//!
//! The heart of the crate is [`ring_buffer::RingBuffer`], a fixed-capacity
//! circular buffer whose full/empty decision is made from monotonically
//! increasing logical counters rather than from wrapped indices. On top of it,
//! [`spsc`] offers a channel: a [`spsc::Sender`]/[`spsc::Receiver`] pair bound
//! to one shared buffer. The [`laws`] module states and proves the queue
//! discipline (FIFO order, capacity bound, no loss and no duplication) over
//! the same specification functions that the buffer's contracts use.

pub mod laws;
pub mod ring_buffer;
pub mod spsc;
