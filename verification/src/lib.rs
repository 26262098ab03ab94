//! Ring buffers for one producer and several consumers, and a harness that
//! measures them.

pub mod bench;
pub mod ring_buffer;
