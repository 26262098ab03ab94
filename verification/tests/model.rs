//! The buffers against a plain model: one queue for each consumer.

use spmc_ring::ring_buffer::spmc_ring_buffer::SpmcRingBuffer;
use spmc_ring::ring_buffer::sync_spmc_ring_buffer::SyncRingBuffer;
use std::collections::VecDeque;
use std::sync::Arc;

#[derive(Clone, Debug)]
enum Op {
    Push,
    Pop(usize),
}

struct Model {
    cap: usize,
    write: u64,
    pending: Vec<VecDeque<u64>>,
    read: Vec<u64>,
}

impl Model {
    fn new(cap: usize, consumers: usize) -> Self {
        Model {
            cap,
            write: 0,
            pending: vec![VecDeque::new(); consumers],
            read: vec![0; consumers],
        }
    }

    fn slowest_read(&self) -> u64 {
        self.read.iter().copied().min().unwrap_or(self.write)
    }

    fn live_items(&self) -> u64 {
        self.write - self.slowest_read()
    }

    fn try_push(&mut self) -> Option<u64> {
        if (self.live_items() as usize) < self.cap {
            let v = self.write;
            self.write += 1;
            for q in &mut self.pending {
                q.push_back(v);
            }
            Some(v)
        } else {
            None
        }
    }

    fn pop(&mut self, c: usize) -> Option<u64> {
        if let Some(v) = self.pending[c].pop_front() {
            self.read[c] += 1;
            Some(v)
        } else {
            None
        }
    }
}

fn agree_on_push(model_ok: Option<u64>, real: Result<(), u64>, next_value: &mut u64) {
    match (model_ok, real) {
        (Some(expected_v), Ok(())) => {
            assert_eq!(expected_v, *next_value, "value numbering diverged");
            *next_value += 1;
        }
        (None, Err(v)) => {
            assert_eq!(v, *next_value, "full try_push must return the same item");
        }
        (Some(_), Err(_)) => panic!("a push was refused though there is room"),
        (None, Ok(())) => panic!("a push was accepted though there is no room"),
    }
}

fn run_one<const CAP: usize, const N: usize>(ops: &[Op]) {
    let rb = Arc::new(SpmcRingBuffer::<u64, CAP, N>::new());
    let producer = rb.get_new_producer().unwrap();
    let consumers: Vec<_> = (0..N).map(|_| rb.get_new_consumer().unwrap()).collect();
    let mut model = Model::new(CAP, N);

    let mut next_value = 0u64;

    for op in ops {
        match *op {
            Op::Push => {
                let model_ok = model.try_push();
                let real = producer.try_push(next_value);
                agree_on_push(model_ok, real, &mut next_value);
            }
            Op::Pop(c) => {
                let expected = model.pop(c);
                let got = consumers[c].try_pop();
                assert_eq!(got, expected, "consumer {c} pop mismatch: model={expected:?} impl={got:?}");
            }
        }
        assert!(
            producer.cached_min_consumer_index() <= producer.true_min_consumer_index(),
            "SAFETY: producer cache {} ahead of true {}",
            producer.cached_min_consumer_index(),
            producer.true_min_consumer_index(),
        );
        assert_eq!(producer.true_min_consumer_index() as u64, model.slowest_read());
    }
}

fn run_sync<const CAP: usize, const N: usize>(ops: &[Op]) {
    let rb = SyncRingBuffer::<u64, CAP, N>::new();
    let producer = rb.get_new_producer().unwrap();
    let consumers: Vec<_> = (0..N).map(|_| rb.get_new_consumer().unwrap()).collect();
    let mut model = Model::new(CAP, N);
    let mut next_value = 0u64;
    for op in ops {
        match *op {
            Op::Push => {
                let model_ok = model.try_push();
                let real = producer.try_push(next_value);
                agree_on_push(model_ok, real, &mut next_value);
            }
            Op::Pop(c) => {
                assert_eq!(consumers[c].try_pop(), model.pop(c));
            }
        }
    }
}

/// A reproducible course of operations for `n` consumers.
fn course(mut seed: u64, len: usize, n: usize) -> Vec<Op> {
    let mut ops = Vec::new();
    for _ in 0..len {
        seed ^= seed << 13;
        seed ^= seed >> 7;
        seed ^= seed << 17;
        let pick = (seed >> 33) as usize;
        if pick % 7 < 3 {
            ops.push(Op::Push);
        } else {
            ops.push(Op::Pop((pick / 7) % n));
        }
    }
    ops
}

#[test]
fn regression_fill_then_partial_drain() {
    let ops = vec![
        Op::Push, Op::Push, Op::Push, Op::Push,
        Op::Push,
        Op::Pop(0), Op::Pop(1),
        Op::Push,
    ];
    run_one::<4, 2>(&ops);
}

#[test]
fn regression_interleaved_wrap() {
    let mut ops = Vec::new();
    for _ in 0..50 {
        ops.push(Op::Push);
        ops.push(Op::Pop(0));
        ops.push(Op::Pop(1));
    }
    run_one::<2, 2>(&ops);
}

#[test]
fn model_matches_cap8_n4() {
    for seed in 1..60u64 {
        let ops = course(seed * 0x9E37_79B9_7F4A_7C15, 300, 4);
        run_one::<8, 4>(&ops);
        run_sync::<8, 4>(&ops);
    }
}

#[test]
fn model_matches_cap2_n4() {
    for seed in 1..60u64 {
        let ops = course(seed * 0x9E37_79B9_7F4A_7C15, 300, 4);
        run_one::<2, 4>(&ops);
        run_sync::<2, 4>(&ops);
    }
}

#[test]
fn model_matches_cap4_n1() {
    for seed in 1..60u64 {
        let ops = course(seed * 0x9E37_79B9_7F4A_7C15, 300, 1);
        run_one::<4, 1>(&ops);
        run_sync::<4, 1>(&ops);
    }
}

#[test]
fn model_matches_cap1_n2() {
    for seed in 1..60u64 {
        let ops = course(seed * 0x9E37_79B9_7F4A_7C15, 300, 2);
        run_one::<1, 2>(&ops);
        run_sync::<1, 2>(&ops);
    }
}
