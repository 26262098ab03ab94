//! Several consumers at once.

use spmc_ring::ring_buffer::spmc_ring_buffer::SpmcRingBuffer;

const SPMC_RING_SIZE: usize = 8;
const NUM_CONSUMERS: usize = 4;

#[test]
fn can_create_exactly_num_consumers_consumers() {
    let rb: SpmcRingBuffer<i32, SPMC_RING_SIZE, NUM_CONSUMERS> = SpmcRingBuffer::new();
    let mut consumers = Vec::new();
    for i in 0..NUM_CONSUMERS {
        consumers.push(rb.get_new_consumer().unwrap_or_else(|| {
            panic!("consumer {i} of {NUM_CONSUMERS} should have been created")
        }));
    }
    assert!(
        rb.get_new_consumer().is_none(),
        "should not be able to exceed NUM_CONSUMERS consumers"
    );
}

#[test]
fn slowest_consumer_gates_producer_even_if_others_are_drained() {
    // The producer is held up by the slowest consumer: one that has drained
    // everything must not let it overwrite what another has yet to read.
    let rb: SpmcRingBuffer<i32, SPMC_RING_SIZE, NUM_CONSUMERS> = SpmcRingBuffer::new();
    let producer = rb.get_new_producer().unwrap();
    let fast = rb.get_new_consumer().unwrap();
    let slow = rb.get_new_consumer().unwrap();
    let others: Vec<_> = (2..NUM_CONSUMERS)
        .map(|_| rb.get_new_consumer().unwrap())
        .collect();

    // Fill the ring completely (capacity 8).
    for i in 0..SPMC_RING_SIZE {
        assert!(producer.try_push(i as i32).is_ok());
    }

    // Fast consumer, and every "other" consumer, drain everything.
    for i in 0..SPMC_RING_SIZE {
        assert_eq!(fast.try_pop(), Some(i as i32));
    }
    for other in &others {
        for i in 0..SPMC_RING_SIZE {
            assert_eq!(other.try_pop(), Some(i as i32));
        }
    }

    // Slow consumer hasn't read anything - producer must still be
    // blocked, because it's gated by `slow`, not by the others.
    assert!(
        !producer.try_push(999).is_ok(),
        "producer must stay blocked by the slowest consumer, not unblock just because other consumers drained"
    );

    // Once slow catches up partially, exactly that much room opens up.
    assert_eq!(slow.try_pop(), Some(0));
    assert!(
        producer.try_push(999).is_ok(),
        "one slot should now be free after `slow` consumed one item"
    );
    assert!(
        !producer.try_push(1000).is_ok(),
        "still gated by `slow`'s remaining backlog"
    );
}
