# spmc_ring

A ring buffer for one producer and several consumers. Every consumer sees every
item, in order and without gaps, at its own pace. The producer never overwrites
what some consumer has yet to read: if the slowest consumer is a full ring
behind, the item comes back.

- `src/ring_buffer/model.rs` says what a ring is: the stream of published items
  and the position of every consumer in it.
- `src/ring_buffer/lazy_ring.rs` and `eager_ring.rs` are the rings. The producer
  of a lazy ring caches the position of the slowest consumer and looks again
  only when the ring looks full; that of an eager ring looks every time.
- `src/ring_buffer/spmc_ring_buffer.rs` and `sync_spmc_ring_buffer.rs` share a
  ring between threads, behind a lock, through one producer and up to
  `NUM_CONSUMERS` consumer handles.
- `src/ring_buffer/steps.rs` says what one operation does to a shared ring.
- `src/ring_buffer/laws.rs` says what holds over any course of pushes, pops and
  registrations, and `buffer_laws.rs` what the operations of the two buffers have
  to do with such courses and with each other.
- `src/bench` is what a measurement of either buffer needs: scenarios, the steps
  of the threads, statistics, rows of results and their text.
- `app` runs scenarios on real threads and writes the results to files.

The capacity must be a power of two.
