//! The rings themselves, step by step.

use spmc_ring::ring_buffer::backoff::Backoff;
use spmc_ring::ring_buffer::eager_ring::EagerRing;
use spmc_ring::ring_buffer::lazy_ring::LazyRing;
use spmc_ring::ring_buffer::slots::{slot_of, Slots};

#[test]
fn slots_are_remainders() {
    assert_eq!(slot_of(0, 8), 0);
    assert_eq!(slot_of(13, 8), 5);
    assert_eq!(slot_of(16, 8), 0);
    assert_eq!(slot_of(41, 1), 0);
    assert_eq!(slot_of(usize::MAX, 16), 15);
}

#[test]
fn slots_keep_the_last_capacity_items() {
    let mut slots = Slots::<u32, 4>::new();
    for i in 0..4u32 {
        assert_eq!(slots.publish(i * 10), None);
    }
    assert_eq!(slots.publish(40), Some(0));
    assert_eq!(slots.publish(50), Some(10));
    assert_eq!(slots.tail(), 6);
    for i in 2..6usize {
        assert_eq!(*slots.get(i) as usize, i * 10);
    }
}

#[test]
fn lazy_ring_looks_at_consumers_only_when_it_looks_full() {
    let mut ring = LazyRing::<u32, 2>::new(2);
    assert!(ring.claim_producer());
    assert!(!ring.claim_producer());
    assert_eq!(ring.claim_consumer(), Some(0));
    assert_eq!(ring.claim_consumer(), Some(1));
    assert_eq!(ring.claim_consumer(), None);
    assert_eq!(ring.consumers(), 2);

    assert_eq!(ring.try_push(1), Ok(None));
    assert_eq!(ring.try_pop(0), Some(1));
    assert_eq!(ring.try_pop(1), Some(1));
    assert_eq!((ring.cached_min(), ring.true_min()), (0, 1));
    assert_eq!(ring.try_push(2), Ok(None));
    assert_eq!((ring.cached_min(), ring.true_min()), (0, 1));
    // Now the ring looks full, so the producer looks again.
    assert_eq!(ring.try_push(3), Ok(Some(1)));
    assert_eq!((ring.cached_min(), ring.true_min()), (1, 1));
    // It is full.
    assert_eq!(ring.try_push(4), Err(4));
    assert_eq!((ring.cached_min(), ring.true_min()), (1, 1));
    assert_eq!(ring.front(0), Some(&2));
    ring.advance(0);
    assert_eq!(ring.front(0), Some(&3));
    assert_eq!(ring.front(1), Some(&2));
    assert_eq!(ring.try_push(4), Err(4));
    assert_eq!(ring.tail(), 3);
}

#[test]
fn reading_leaves_a_consumer_where_it_is() {
    let mut lazy = LazyRing::<u32, 2>::new(1);
    let mut eager = EagerRing::<u32, 2>::new(1);
    lazy.claim_consumer();
    eager.claim_consumer();
    assert_eq!((lazy.read(0), eager.read(0)), (None, None));
    assert!(lazy.try_push(9).is_ok() && eager.try_push(9).is_ok());
    assert_eq!((lazy.read(0), lazy.read(0), lazy.try_pop(0)), (Some(9), Some(9), Some(9)));
    assert_eq!((eager.read(0), eager.read(0), eager.try_pop(0)), (Some(9), Some(9), Some(9)));
}

#[test]
fn a_ring_without_consumers_is_never_full() {
    let mut lazy = LazyRing::<u32, 2>::new(1);
    let mut eager = EagerRing::<u32, 2>::new(1);
    for i in 0..10u32 {
        assert!(lazy.try_push(i).is_ok());
        assert!(eager.try_push(i).is_ok());
    }
    assert_eq!(lazy.true_min(), 10);
}

#[test]
fn consumers_of_the_first_turn_start_at_the_first_item() {
    let mut lazy = LazyRing::<u32, 4>::new(2);
    let mut eager = EagerRing::<u32, 4>::new(2);
    for i in 0..4u32 {
        assert!(lazy.try_push(i).is_ok());
        assert!(eager.try_push(i).is_ok());
    }
    assert_eq!(lazy.claim_consumer(), Some(0));
    assert_eq!(eager.claim_consumer(), Some(0));
    assert_eq!(lazy.try_pop(0), Some(0));
    assert_eq!(eager.try_pop(0), Some(0));
}

#[test]
fn late_consumers_start_at_an_item_that_is_still_kept() {
    let mut lazy = LazyRing::<u32, 4>::new(2);
    let mut eager = EagerRing::<u32, 4>::new(2);
    assert_eq!(lazy.claim_consumer(), Some(0));
    assert_eq!(eager.claim_consumer(), Some(0));
    for i in 0..6u32 {
        assert!(lazy.try_push(i).is_ok());
        assert!(eager.try_push(i).is_ok());
        assert_eq!(lazy.try_pop(0), Some(i));
        assert_eq!(eager.try_pop(0), Some(i));
    }
    // The lazy producer looked last when it had published four items.
    assert_eq!(lazy.cached_min(), 4);
    assert_eq!(lazy.claim_consumer(), Some(1));
    assert_eq!(lazy.try_pop(1), Some(4));
    // The eager ring keeps the last four items.
    assert_eq!(eager.claim_consumer(), Some(1));
    assert_eq!(eager.try_pop(1), Some(2));
}

#[test]
fn eager_ring_step_by_step() {
    let mut ring = EagerRing::<u32, 2>::new(2);
    assert!(ring.claim_producer());
    assert!(!ring.claim_producer());
    assert_eq!(ring.claim_consumer(), Some(0));
    assert_eq!(ring.claim_consumer(), Some(1));
    assert_eq!(ring.claim_consumer(), None);
    assert_eq!(ring.try_pop(0), None);
    assert_eq!(ring.try_push(1), Ok(None));
    assert_eq!(ring.try_push(2), Ok(None));
    assert_eq!(ring.try_push(3), Err(3));
    assert_eq!(ring.try_pop(0), Some(1));
    assert_eq!(ring.try_push(3), Err(3));
    assert_eq!(ring.try_pop(1), Some(1));
    assert_eq!(ring.try_push(3), Ok(Some(1)));
    assert_eq!(ring.front(0), Some(&2));
    ring.advance(0);
    assert_eq!(ring.front(0), Some(&3));
    assert_eq!(ring.tail(), 3);
    assert_eq!(ring.consumers(), 2);
}

#[test]
fn pops_of_different_consumers_commute() {
    let mut a = LazyRing::<u32, 4>::new(2);
    let mut b = LazyRing::<u32, 4>::new(2);
    for ring in [&mut a, &mut b] {
        ring.claim_consumer();
        ring.claim_consumer();
        assert!(ring.try_push(7).is_ok());
        assert!(ring.try_push(8).is_ok());
    }
    let first = (a.try_pop(0), a.try_pop(1));
    let second = (b.try_pop(1), b.try_pop(0));
    assert_eq!(first, (Some(7), Some(7)));
    assert_eq!(second, (Some(7), Some(7)));
    assert_eq!(a.front(0), b.front(0));
    assert_eq!(a.front(1), b.front(1));
}

#[test]
fn a_consumer_that_only_pops_catches_up() {
    let mut ring = EagerRing::<u32, 4>::new(1);
    ring.claim_consumer();
    for i in 0..3u32 {
        assert!(ring.try_push(i).is_ok());
    }
    let got: Vec<Option<u32>> = (0..5).map(|_| ring.try_pop(0)).collect();
    assert_eq!(got, vec![Some(0), Some(1), Some(2), None, None]);
}

#[test]
fn exactly_the_free_slots_are_filled() {
    let mut ring = LazyRing::<u32, 8>::new(2);
    ring.claim_consumer();
    ring.claim_consumer();
    for i in 0..8u32 {
        assert!(ring.try_push(i).is_ok());
    }
    for _ in 0..5 {
        ring.try_pop(0);
    }
    for _ in 0..3 {
        ring.try_pop(1);
    }
    let accepted = (8..20u32).filter(|i| ring.try_push(*i).is_ok()).count();
    assert_eq!(accepted, 3);
    assert_eq!(ring.tail(), 11);
}

#[test]
fn waits_can_be_repeated() {
    let mut backoff = Backoff::new();
    for _ in 0..100 {
        assert!(backoff.wait());
    }
}
