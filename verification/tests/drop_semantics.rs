//! Every item is dropped exactly once: those in the slots, those that are
//! replaced, and the clones that consumers get.

use spmc_ring::ring_buffer::spmc_ring_buffer::SpmcRingBuffer;
use spmc_ring::ring_buffer::sync_spmc_ring_buffer::SyncRingBuffer;
use std::sync::atomic::{AtomicBool, AtomicI64, Ordering};
use std::sync::Arc;

/// Counts how many of its kind are alive.
struct Counted {
    _v: u64,
    live: Arc<AtomicI64>,
}

impl Counted {
    fn new(v: u64, live: &Arc<AtomicI64>) -> Self {
        live.fetch_add(1, Ordering::SeqCst);
        Counted { _v: v, live: live.clone() }
    }
}

impl Clone for Counted {
    fn clone(&self) -> Self {
        self.live.fetch_add(1, Ordering::SeqCst);
        Counted { _v: self._v, live: self.live.clone() }
    }
}

impl Drop for Counted {
    fn drop(&mut self) {
        let prev = self.live.fetch_sub(1, Ordering::SeqCst);
        assert!(prev > 0, "DOUBLE DROP: live count went negative");
    }
}

/// Runs `body`, then checks that as many items are alive as before.
fn assert_balanced(live: &Arc<AtomicI64>, body: impl FnOnce()) {
    let start = live.load(Ordering::SeqCst);
    body();
    let end = live.load(Ordering::SeqCst);
    assert_eq!(
        start,
        end,
        "resource imbalance: {} tracked instances leaked (>0) or over-dropped (<0)",
        end - start
    );
}

#[test]
fn drop_semantics_all_sections_sequential() {
    let live = Arc::new(AtomicI64::new(0));
    no_leak_on_simple_fill_and_drain(&live);
    no_leak_across_wrap_around(&live);
    no_leak_when_buffer_dropped_while_non_empty(&live);
    no_leak_with_multiple_consumers(&live);
    assert_eq!(
        live.load(Ordering::SeqCst),
        0,
        "global tracked-instance leak across sections"
    );
}

fn no_leak_on_simple_fill_and_drain(live: &Arc<AtomicI64>) {
    assert_balanced(live, || {
        let rb = SpmcRingBuffer::<Counted, 4, 4>::new();
        let p = rb.get_new_producer().unwrap();
        let c = rb.get_new_consumer().unwrap();

        for i in 0..4u64 {
            assert!(p.try_push(Counted::new(i, live)).is_ok());
        }
        for _ in 0..4 {
            let popped = c.try_pop().expect("value present");
            drop(popped);
        }
        // The slots hold their items until the last handle is gone.
        assert_eq!(live.load(Ordering::SeqCst), 4);
        drop(p);
        drop(c);
        drop(rb);
    });
}

fn no_leak_across_wrap_around(live: &Arc<AtomicI64>) {
    assert_balanced(live, || {
        let rb = SpmcRingBuffer::<Counted, 4, 4>::new();
        let p = rb.get_new_producer().unwrap();
        let c = rb.get_new_consumer().unwrap();

        for i in 0..100u64 {
            assert!(p.try_push(Counted::new(i, live)).is_ok());
            let got = c.try_pop().expect("value present");
            drop(got);
        }
    });
}

fn no_leak_when_buffer_dropped_while_non_empty(live: &Arc<AtomicI64>) {
    assert_balanced(live, || {
        let rb = SpmcRingBuffer::<Counted, 8, 4>::new();
        let p = rb.get_new_producer().unwrap();
        let _c = rb.get_new_consumer().unwrap();
        for i in 0..8u64 {
            assert!(p.try_push(Counted::new(i, live)).is_ok());
        }
    });
}

fn no_leak_with_multiple_consumers(live: &Arc<AtomicI64>) {
    assert_balanced(live, || {
        let rb = SpmcRingBuffer::<Counted, 8, 4>::new();
        let p = rb.get_new_producer().unwrap();
        let c1 = rb.get_new_consumer().unwrap();
        let c2 = rb.get_new_consumer().unwrap();

        for i in 0..8u64 {
            assert!(p.try_push(Counted::new(i, live)).is_ok());
        }
        while let Some(v) = c1.try_pop() {
            drop(v);
        }
        while let Some(v) = c2.try_pop() {
            drop(v);
        }
    });
}

#[test]
fn sync_buffer_drops_every_item_once() {
    let live = Arc::new(AtomicI64::new(0));
    assert_balanced(&live, || {
        let rb = SyncRingBuffer::<Counted, 2, 2>::new();
        let p = rb.get_new_producer().unwrap();
        let c = rb.get_new_consumer().unwrap();
        for i in 0..10u64 {
            assert!(p.try_push(Counted::new(i, &live)).is_ok());
            assert!(c.try_pop().is_some());
        }
        assert!(p.try_push(Counted::new(10, &live)).is_ok());
        assert!(p.try_push(Counted::new(11, &live)).is_ok());
        assert!(p.try_push(Counted::new(12, &live)).is_err());
    });
}

/// Does something when it is dropped.
#[derive(Clone)]
struct OnDrop {
    action: Arc<dyn Fn() + Send + Sync>,
}

impl Drop for OnDrop {
    fn drop(&mut self) {
        (self.action)();
    }
}

#[test]
fn replaced_items_are_dropped_after_unlocking() {
    let armed = Arc::new(AtomicBool::new(false));

    let rb = SpmcRingBuffer::<OnDrop, 1, 1>::new();
    let p = Arc::new(rb.get_new_producer().unwrap());
    let c = rb.get_new_consumer().unwrap();
    let (probe, fuse) = (p.clone(), armed.clone());
    let item = OnDrop {
        action: Arc::new(move || {
            if fuse.swap(false, Ordering::SeqCst) {
                assert_eq!(probe.true_min_consumer_index(), 1);
            }
        }),
    };
    assert!(p.try_push(item.clone()).is_ok());
    assert!(c.try_pop().is_some());
    armed.store(true, Ordering::SeqCst);
    assert!(p.try_push(item).is_ok());
    assert!(!armed.load(Ordering::SeqCst), "the replaced item was dropped");

    let rb = SyncRingBuffer::<OnDrop, 1, 1>::new();
    let p = rb.get_new_producer().unwrap();
    let c = Arc::new(rb.get_new_consumer().unwrap());
    let (probe, fuse) = (c.clone(), armed.clone());
    let item = OnDrop {
        action: Arc::new(move || {
            if fuse.swap(false, Ordering::SeqCst) {
                assert!(probe.try_pop().is_some());
            }
        }),
    };
    assert!(p.try_push(item.clone()).is_ok());
    assert!(c.try_pop().is_some());
    armed.store(true, Ordering::SeqCst);
    assert!(p.try_push(item).is_ok());
    assert!(!armed.load(Ordering::SeqCst), "the replaced item was dropped");
}
