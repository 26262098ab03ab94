//! Scenarios, backends, the steps of the threads, and the rows of the results.

use spmc_ring::bench::backend::{Backend, RbConsumer, RbProducer, RingBuffer};
use spmc_ring::bench::bencher::{BatchMean, PopStats, PushStats, Quotient};
use spmc_ring::bench::runner::{
    est_batches, fits, median_ranks, ratio_to_targets, summary_rows, trial_rows, ConsumerTotals,
    RoleSummary,
};
use spmc_ring::bench::scenario::{BenchConfig, Payload, Ratio, Role};
use spmc_ring::bench::worker::{attempt_period, Step, Worker, PHASE_MEASURE, PHASE_WARMUP};
use spmc_ring::ring_buffer::spmc_ring_buffer::SpmcRingBuffer;
use spmc_ring::ring_buffer::sync_spmc_ring_buffer::SyncRingBuffer;
use std::time::Duration;

fn config(ratio: Ratio) -> BenchConfig {
    BenchConfig {
        name: String::from("smoke"),
        backend: String::from("spmc"),
        num_consumers: 2,
        capacity: 4,
        ratio,
        trials: 3,
        duration: Duration::from_millis(10),
        warmup: Duration::from_millis(1),
        idle_gap: Duration::from_millis(2),
    }
}

#[test]
fn ratios_have_labels() {
    assert_eq!(Ratio::Max.label(), "max");
    assert_eq!(Ratio::Balanced.label(), "balanced");
    assert_eq!(Ratio::Prod(5).label(), "prod_5x");
    assert_eq!(Ratio::Cons(10).label(), "cons_10x");
    assert_eq!(Ratio::Prod(u32::MAX).label(), "prod_4294967295x");
}

#[test]
fn roles_have_names() {
    assert_eq!(Role::Producer.name(), "producer");
    assert_eq!(Role::Consumer.name(), "consumer");
}

#[test]
fn ratios_set_the_rates() {
    assert_eq!(ratio_to_targets(Ratio::Max, 4), (None, None));
    assert_eq!(ratio_to_targets(Ratio::Balanced, 4), (Some(8_000_000), Some(2_000_000)));
    assert_eq!(ratio_to_targets(Ratio::Prod(5), 2), (Some(20_000_000), Some(2_000_000)));
    assert_eq!(ratio_to_targets(Ratio::Cons(10), 3), (Some(6_000_000), Some(20_000_000)));
}

#[test]
fn rates_set_the_period() {
    assert_eq!(attempt_period(0), None);
    assert_eq!(attempt_period(1), Some(1_000_000_000));
    assert_eq!(attempt_period(2_000_000), Some(500));
    assert_eq!(attempt_period(6_000_000), Some(167));
    // Halfway between two nanoseconds, the even one.
    assert_eq!(attempt_period(16_000_000), Some(62));
    assert_eq!(attempt_period(80_000_000), Some(12));
    assert_eq!(attempt_period(2_000_000_000), Some(0));
    assert_eq!(attempt_period(1_999_999_999), Some(1));
    assert_eq!(attempt_period(u128::MAX), Some(0));
}

#[test]
fn scenarios_fit_their_buffers() {
    let cfg = config(Ratio::Max);
    assert!(fits(&cfg, 4, 2));
    assert!(!fits(&cfg, 8, 2));
    assert!(!fits(&cfg, 4, 3));
}

#[test]
fn room_for_batches_grows_with_the_duration() {
    assert_eq!(est_batches(0), 1024);
    assert_eq!(est_batches(1_000_000_000), 39_062 + 1024);
}

#[test]
fn configs_count_their_threads_and_clone() {
    let cfg = config(Ratio::Max);
    assert_eq!(cfg.workers(), 3);
    let copy = cfg.clone();
    assert_eq!((copy.name, copy.backend, copy.trials), (cfg.name, cfg.backend, 3));
    assert_eq!(copy.idle_gap, Duration::from_millis(2));
}

#[test]
fn backends_are_read_in_any_case() {
    assert_eq!("spmc".parse(), Ok(Backend::Spmc));
    assert_eq!("SPMC".parse(), Ok(Backend::Spmc));
    assert_eq!(Backend::parse("SyNc"), Ok(Backend::Sync));
    assert_eq!(
        Backend::parse("Mutex"),
        Err(String::from("unknown backend `mutex` (expected `spmc`, `sync`, or `both`)"))
    );
    assert_eq!(Backend::all().to_vec(), vec![Backend::Spmc, Backend::Sync]);
    for b in Backend::all() {
        assert_eq!(Backend::parse(b.name()), Ok(*b));
    }
}

#[test]
fn payloads_know_their_numbers() {
    assert_eq!(<u64 as Payload>::BYTES, 8);
    assert_eq!(<[u64; 8] as Payload>::BYTES, 64);
    assert!(u64::from_seq(7).verify(7));
    assert!(!u64::from_seq(7).verify(8));
    let words = <[u64; 8]>::from_seq(u64::MAX);
    assert_eq!(words, [u64::MAX, 0, 1, 2, 3, 4, 5, 6]);
    assert!(words.verify(u64::MAX));
    let mut torn = <[u64; 8]>::from_seq(3);
    torn[7] = 3;
    assert!(!torn.verify(3));
}

fn drive<RB: RingBuffer<u64, 4, 2>>() {
    let rb = RB::new();
    let mut p = rb.get_new_producer().unwrap();
    let a = rb.get_new_consumer().unwrap();
    let b = rb.get_new_consumer().unwrap();
    assert!(rb.get_new_producer().is_none());
    assert!(rb.get_new_consumer().is_none());
    for i in 0..4u64 {
        assert_eq!(p.push(i), Ok(()));
    }
    assert_eq!(p.try_push(4), Err(4));
    assert_eq!(a.pop(), Some(0));
    assert_eq!(b.try_pop(), Some(0));
    assert_eq!(p.try_push(4), Ok(()));
}

#[test]
fn both_backends_can_be_driven() {
    drive::<SpmcRingBuffer<u64, 4, 2>>();
    drive::<SyncRingBuffer<u64, 4, 2>>();
}

#[test]
fn workers_count_through_both_phases() {
    let rb = SpmcRingBuffer::<u64, 2, 1>::new();
    let mut p = rb.get_new_producer().unwrap();
    let c = rb.get_new_consumer().unwrap();
    let mut producer = Worker::new(None);
    let mut consumer = Worker::new(Some(10));
    assert!(producer.warmup_push::<u64, _>(&mut p));
    assert_eq!(consumer.warmup_pop::<u64, _>(&c), Some(true));
    assert_eq!(consumer.warmup_pop::<u64, _>(&c), Some(false));
    assert_eq!((producer.seq, consumer.seq), (1, 1));

    let mut pushes = PushStats::new(2, 8, 8, 0);
    let mut pops = PopStats::new(2, 8, 8, 0);
    producer.begin_measuring(&mut pushes, 100);
    consumer.begin_measuring(&mut pops, 100);
    assert_eq!((producer.seq, producer.next_deadline), (1, 100));
    assert_eq!((consumer.seq, consumer.next_deadline), (1, 110));
    assert_eq!(producer.next_attempt(), None);
    assert_eq!(consumer.next_attempt(), Some(120));
    assert_eq!(consumer.next_attempt(), Some(130));

    assert!(producer.measured_push::<u64, _, _>(&mut p, &mut pushes, || 110));
    assert!(producer.measured_push::<u64, _, _>(&mut p, &mut pushes, || 120));
    assert!(!producer.measured_push::<u64, _, _>(&mut p, &mut pushes, || 130));
    assert!(!producer.measured_push::<u64, _, _>(&mut p, &mut pushes, || 135));
    assert!(!producer.warmup_push::<u64, _>(&mut p));
    assert_eq!(producer.seq, 3);
    assert_eq!(producer.prev_fail, Some(135));
    assert_eq!((pushes.ok_ops, pushes.fail_ops), (2, 2));
    assert_eq!(pushes.lat_batches, vec![BatchMean { ns: 20, ops: 2 }]);
    assert_eq!(pushes.fail_lat_samples, vec![5]);

    assert_eq!(consumer.measured_pop::<u64, _, _>(&c, &mut pops, || 140), Some(true));
    assert_eq!(consumer.seq, 2);
    // An item out of order is noticed, and nothing is recorded.
    consumer.seq = 9;
    assert_eq!(consumer.measured_pop::<u64, _, _>(&c, &mut pops, || 150), None);
    assert_eq!((consumer.seq, pops.ok_ops, pops.fail_ops), (9, 1, 0));
    assert_eq!(consumer.measured_pop::<u64, _, _>(&c, &mut pops, || 160), Some(false));
    assert_eq!((pops.ok_ops, pops.fail_ops), (1, 1));
    assert_eq!(consumer.prev_fail, Some(160));
    // After a success there is no failure to measure from.
    assert!(producer.measured_push::<u64, _, _>(&mut p, &mut pushes, || 170));
    assert_eq!(producer.prev_fail, None);

    let mut last = Worker::new(None);
    last.seq = u64::MAX;
    assert!(last.warmup_push::<u64, _>(&mut p));
    assert_eq!(last.seq, 0);
}

#[test]
fn workers_follow_the_coordinator() {
    let mut worker = Worker::new(None);
    assert_eq!(worker.next_step(PHASE_WARMUP, false), Step::WarmUp);
    assert_eq!(worker.next_step(PHASE_WARMUP, true), Step::WarmUp);
    assert_eq!(worker.next_step(PHASE_MEASURE, false), Step::Begin);
    assert_eq!(worker.next_step(PHASE_MEASURE, true), Step::Begin);
    worker.begin_measuring(&mut PushStats::new(1, 0, 0, 0), 5);
    assert_eq!(worker.next_step(PHASE_MEASURE, false), Step::Attempt);
    assert_eq!(worker.next_step(PHASE_MEASURE, true), Step::Finish);
}

fn stats(ok: u64, ns: u64, fails: u64) -> PushStats {
    let mut s = PushStats::new(512, 8, 8, 0);
    for _ in 0..ok {
        s.record_ok(|| panic!("no batch is complete"));
    }
    let mut prev = None;
    for i in 0..fails {
        s.record_fail(prev, ns + i);
        prev = Some(ns + i);
    }
    s.seal(1_000);
    s
}

#[test]
fn trials_become_rows() {
    let cfg = config(Ratio::Prod(2));
    let mut push = stats(10, 50, 3);
    let mut pops = vec![stats(8, 40, 1), stats(0, 0, 0)];
    let rows = trial_rows(&cfg, 1, 8, &mut push, &mut pops);
    assert_eq!(rows.len(), 3);
    // What was measured is still there.
    assert_eq!((push.ok_ops, push.fail_ops, push.fail_lat_samples.len()), (10, 3, 2));
    assert_eq!((pops[0].ok_ops, pops[0].fail_ops, pops[1].ok_ops), (8, 1, 0));
    assert_eq!(push.fail_rate(), Quotient { num: 3, den: 13 });

    let p = &rows[0];
    assert_eq!((p.scenario.as_str(), p.backend.as_str()), ("smoke", "spmc"));
    assert_eq!((p.trial, p.role, p.thread_id), (1, Role::Producer, 0));
    assert_eq!((p.capacity, p.num_consumers, p.payload_bytes), (4, 2, 8));
    assert_eq!(p.ratio, "prod_2x");
    assert_eq!((p.ok_ops, p.fail_ops), (10, 3));
    assert_eq!(p.window_ns, Some(Quotient { num: 1_000, den: 1 }));
    assert_eq!(p.throughput_ops_s, Some(Quotient { num: 10_000_000_000, den: 1_000 }));
    assert_eq!(p.fail_rate_pct, Some(Quotient { num: 300, den: 13 }));
    assert_eq!(p.lat_p50_ns, Some(Quotient { num: 50, den: 10 }));
    assert_eq!(p.lat_p99_ns, p.lat_p50_ns);
    assert_eq!(p.lat_max_ns, p.lat_p50_ns);
    assert_eq!(p.fail_lat_p50_ns, Some(Quotient { num: 1, den: 1 }));
    assert_eq!(p.fail_lat_p99_ns, Some(Quotient { num: 1, den: 1 }));

    assert_eq!((rows[1].role, rows[1].thread_id, rows[1].ok_ops), (Role::Consumer, 0, 8));
    assert_eq!((rows[2].role, rows[2].thread_id, rows[2].ok_ops), (Role::Consumer, 1, 0));
    assert_eq!(rows[1].fail_lat_p50_ns, None);
    assert_eq!(rows[2].lat_p50_ns, None);
    assert_eq!(rows[2].fail_rate_pct, Some(Quotient { num: 0, den: 1 }));

    let totals = ConsumerTotals::of(&rows);
    assert_eq!((totals.ok_ops, totals.fail_ops), (8, 1));
    assert_eq!(totals.fail_rate(), Quotient { num: 1, den: 9 });
    assert_eq!(totals.tputs.len(), 2);
    assert_eq!(totals.lat_p50, vec![Quotient { num: 40, den: 8 }]);
    assert_eq!(totals.lat_p99, vec![Quotient { num: 40, den: 8 }]);
    assert!(totals.fail_lat_p50.is_empty() && totals.fail_lat_p99.is_empty());

    let nobody = ConsumerTotals::of(&Vec::new());
    assert_eq!(nobody.fail_rate(), Quotient { num: 0, den: 1 });
}

#[test]
fn medians_lie_in_the_middle() {
    assert_eq!(median_ranks(0), None);
    assert_eq!(median_ranks(1), Some((0, 0)));
    assert_eq!(median_ranks(4), Some((1, 2)));
    assert_eq!(median_ranks(5), Some((2, 2)));
}

fn role_summary(base: u32) -> RoleSummary<u32> {
    RoleSummary {
        tput_mean: base,
        tput_median: base + 1,
        tput_min: base + 2,
        tput_max: base + 3,
        fail_rate_mean: base + 4,
        lat_p50_mean: base + 5,
        lat_p50_median: base + 6,
        lat_p99_mean: base + 7,
        lat_p99_median: base + 8,
        fail_lat_p50_mean: base + 9,
        fail_lat_p50_median: base + 10,
        fail_lat_p99_mean: base + 11,
        fail_lat_p99_median: base + 12,
    }
}

#[test]
fn both_roles_are_summarized() {
    let rows = summary_rows(&config(Ratio::Max), 64, role_summary(100), role_summary(200));
    assert_eq!(rows.len(), 2);
    assert_eq!((rows[0].role, rows[1].role), (Role::Producer, Role::Consumer));
    assert_eq!((rows[0].trials, rows[0].payload_bytes), (3, 64));
    assert_eq!((rows[0].tput_mean, rows[0].tput_max), (100, 103));
    assert_eq!((rows[1].fail_rate_mean, rows[1].fail_lat_p99_median), (204, 212));
    assert_eq!(rows[1].ratio, "max");
}
