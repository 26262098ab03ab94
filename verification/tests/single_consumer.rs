//! A single consumer.

use spmc_ring::ring_buffer::spmc_ring_buffer::SpmcRingBuffer;

const SPMC_RING_SIZE: usize = 8;
const NUM_CONSUMERS: usize = 1;

#[test]
fn new_buffer_is_empty() {
    let rb: SpmcRingBuffer<i32, SPMC_RING_SIZE, NUM_CONSUMERS> = SpmcRingBuffer::new();
    let consumer = rb.get_new_consumer().expect("should get consumer");
    assert_eq!(consumer.try_pop(), None);
}

#[test]
fn single_push_then_consume_returns_same_value() {
    let rb: SpmcRingBuffer<i32, SPMC_RING_SIZE, NUM_CONSUMERS> = SpmcRingBuffer::new();
    let producer = rb.get_new_producer().expect("should get producer");
    let consumer = rb.get_new_consumer().expect("should get consumer");

    assert!(producer.try_push(42).is_ok());
    assert_eq!(consumer.try_pop(), Some(42));
    assert_eq!(consumer.try_pop(), None);
}

#[test]
fn fifo_order_is_preserved() {
    let rb: SpmcRingBuffer<i32, SPMC_RING_SIZE, NUM_CONSUMERS> = SpmcRingBuffer::new();
    let producer = rb.get_new_producer().unwrap();
    let consumer = rb.get_new_consumer().unwrap();

    for i in 0..8 {
        assert!(producer.try_push(i).is_ok());
    }
    for i in 0..8 {
        assert_eq!(consumer.try_pop(), Some(i));
    }
    assert_eq!(consumer.try_pop(), None);
}

#[test]
fn push_fails_when_buffer_is_full() {
    let rb: SpmcRingBuffer<i32, SPMC_RING_SIZE, NUM_CONSUMERS> = SpmcRingBuffer::new();
    let producer = rb.get_new_producer().unwrap();
    let _consumer = rb.get_new_consumer().unwrap();

    for i in 0..8 {
        assert!(
            producer.try_push(i).is_ok(),
            "push {i} should succeed while buffer has room"
        );
    }
    // Ring capacity is SPMC_RING_SIZE (8) - the 9th push should fail
    assert!(!producer.try_push(999).is_ok(), "push should fail once buffer is full");
}

#[test]
fn push_succeeds_again_after_consumer_drains_one_slot() {
    let rb: SpmcRingBuffer<i32, SPMC_RING_SIZE, NUM_CONSUMERS> = SpmcRingBuffer::new();
    let producer = rb.get_new_producer().unwrap();
    let consumer = rb.get_new_consumer().unwrap();

    for i in 0..8 {
        assert!(producer.try_push(i).is_ok());
    }
    assert!(!producer.try_push(999).is_ok());

    assert_eq!(consumer.try_pop(), Some(0));
    assert!(
        producer.try_push(999).is_ok(),
        "space freed by consume should allow another push"
    );
}

#[test]
fn wraparound_indices_do_not_corrupt_data() {
    let rb: SpmcRingBuffer<i32, SPMC_RING_SIZE, NUM_CONSUMERS> = SpmcRingBuffer::new();
    let producer = rb.get_new_producer().unwrap();
    let consumer = rb.get_new_consumer().unwrap();

    // Many turns around the ring.
    for round in 0..100 {
        for i in 0..8 {
            let value = round * 8 + i;
            assert!(producer.try_push(value).is_ok());
        }
        for i in 0..8 {
            let value = round * 8 + i;
            assert_eq!(consumer.try_pop(), Some(value));
        }
    }
    assert_eq!(consumer.try_pop(), None);
}

#[test]
fn only_one_producer_can_ever_be_created() {
    let rb: SpmcRingBuffer<i32, SPMC_RING_SIZE, NUM_CONSUMERS> = SpmcRingBuffer::new();
    let _p1 = rb
        .get_new_producer()
        .expect("first producer should succeed");
    assert!(
        rb.get_new_producer().is_none(),
        "second producer must be rejected"
    );
}

#[test]
fn consumer_count_is_capped_at_num_consumers() {
    let rb: SpmcRingBuffer<i32, SPMC_RING_SIZE, NUM_CONSUMERS> = SpmcRingBuffer::new();
    let _c1 = rb
        .get_new_consumer()
        .expect("first consumer should succeed");
    assert!(
        rb.get_new_consumer().is_none(),
        "consumer count should be capped at NUM_CONSUMERS"
    );
}
