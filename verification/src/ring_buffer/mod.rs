//! Single-producer, multi-consumer ring buffers with fan-out: every consumer
//! sees every item, in order, and the producer never overwrites an item that
//! some consumer has yet to read.

pub mod backoff;
pub mod buffer_laws;
pub mod cursors;
pub mod eager_ring;
pub mod ends;
pub mod handle_laws;
pub mod laws;
pub mod lazy_ring;
pub mod model;
pub mod slots;
pub mod spmc_ring_buffer;
pub mod step_laws;
pub mod steps;
pub mod sync_spmc_ring_buffer;
pub mod vault;
