//! The buffer with an eager producer.

use spmc_ring::ring_buffer::backoff::Backoff;
use spmc_ring::ring_buffer::spmc_ring_buffer::SpmcRingBuffer;
use spmc_ring::ring_buffer::sync_spmc_ring_buffer::SyncRingBuffer;

#[test]
fn sync_buffer_hands_out_handles_once() {
    let rb = SyncRingBuffer::<u64, 8, 2>::new();
    assert!(rb.get_new_producer().is_some());
    assert!(rb.get_new_producer().is_none());
    assert!(rb.get_new_consumer().is_some());
    assert!(rb.get_new_consumer().is_some());
    assert!(rb.get_new_consumer().is_none());
}

#[test]
fn sync_buffer_fans_out_in_order() {
    let rb = SyncRingBuffer::<u64, 8, 2>::new();
    let p = rb.get_new_producer().unwrap();
    let c1 = rb.get_new_consumer().unwrap();
    let c2 = rb.get_new_consumer().unwrap();
    assert_eq!(c1.try_pop(), None);
    for i in 0..8u64 {
        assert_eq!(p.try_push(i), Ok(()));
    }
    assert_eq!(p.try_push(8), Err(8));
    for i in 0..8u64 {
        assert_eq!(c1.try_pop(), Some(i));
    }
    assert_eq!(p.try_push(8), Err(8));
    for i in 0..8u64 {
        assert_eq!(c2.try_pop(), Some(i));
    }
    assert_eq!(p.try_push(8), Ok(()));
    assert_eq!(c1.try_pop(), Some(8));
    assert_eq!(c2.try_pop(), Some(8));
    assert_eq!(c2.try_pop(), None);
}

#[test]
fn waiting_operations_succeed_at_once_if_they_can() {
    let sync = SyncRingBuffer::<u64, 2, 1>::new();
    let sp = sync.get_new_producer().unwrap();
    let sc = sync.get_new_consumer().unwrap();
    assert_eq!(sp.push(1), Ok(()));
    assert_eq!(sc.pop(), Some(1));

    let spmc = SpmcRingBuffer::<u64, 2, 1>::new();
    let lp = spmc.get_new_producer().unwrap();
    let lc = spmc.get_new_consumer().unwrap();
    assert_eq!(lp.push(1), Ok(()));
    assert_eq!(lc.pop(), Some(1));
}

#[test]
fn waiting_is_left_to_the_caller_if_wanted() {
    let sync = SyncRingBuffer::<u64, 2, 1>::new();
    let sp = sync.get_new_producer().unwrap();
    let sc = sync.get_new_consumer().unwrap();
    let mut backoff = Backoff::new();
    assert!(backoff.wait());
    assert_eq!(sp.push_waiting(4, &mut backoff), Ok(()));
    assert_eq!(sc.pop_waiting(&mut backoff), Some(4));

    let spmc = SpmcRingBuffer::<u64, 2, 1>::new();
    let lp = spmc.get_new_producer().unwrap();
    let lc = spmc.get_new_consumer().unwrap();
    assert_eq!(lp.push_waiting(4, &mut backoff), Ok(()));
    assert_eq!(lc.pop_waiting(&mut backoff), Some(4));
    assert_eq!(lc.try_pop(), None);
}

#[test]
fn single_attempts_do_not_wait() {
    let backoff = Backoff::new();
    let spmc = SpmcRingBuffer::<u64, 1, 1>::new();
    let lp = spmc.get_new_producer().unwrap();
    let lc = spmc.get_new_consumer().unwrap();
    assert_eq!(lc.pop_once(&backoff), None);
    assert_eq!((lp.push_once(1, &backoff), lp.push_once(2, &backoff)), (Ok(()), Err(2)));
    assert_eq!(lc.pop_once(&backoff), Some(1));

    let sync = SyncRingBuffer::<u64, 1, 1>::new();
    let sp = sync.get_new_producer().unwrap();
    let sc = sync.get_new_consumer().unwrap();
    assert_eq!(sc.pop_once(&backoff), None);
    assert_eq!((sp.push_once(1, &backoff), sp.push_once(2, &backoff)), (Ok(()), Err(2)));
    assert_eq!(sc.pop_once(&backoff), Some(1));
}

#[test]
fn late_consumers_read_nothing_twice() {
    let rb = SpmcRingBuffer::<u64, 2, 2>::new();
    let p = rb.get_new_producer().unwrap();
    let c1 = rb.get_new_consumer().unwrap();
    assert_eq!((p.try_push(1), p.try_push(2)), (Ok(()), Ok(())));
    assert_eq!((c1.try_pop(), c1.try_pop()), (Some(1), Some(2)));
    assert_eq!((p.try_push(3), p.try_push(4)), (Ok(()), Ok(())));
    let c2 = rb.get_new_consumer().unwrap();
    assert_eq!((c2.try_pop(), c2.try_pop(), c2.try_pop()), (Some(3), Some(4), None));
}

#[test]
fn consumers_are_numbered_in_order() {
    let rb = SpmcRingBuffer::<u64, 2, 3>::new();
    for i in 0..3usize {
        assert_eq!(rb.get_new_consumer().unwrap().id(), i);
    }
}

#[test]
fn handles_outlive_the_buffer() {
    let rb = SpmcRingBuffer::<String, 2, 1>::new();
    let p = rb.get_new_producer().unwrap();
    let c = rb.get_new_consumer().unwrap();
    drop(rb);
    assert!(p.try_push(String::from("x")).is_ok());
    assert_eq!(c.try_pop(), Some(String::from("x")));
}
