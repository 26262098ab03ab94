//! What threads measure.

use spmc_ring::bench::bencher::{
    nearest_rank_index, percentile, percentile_u64, BatchMean, PopStats, PushStats, Quotient,
    BATCH_SIZE,
};
use spmc_ring::ring_buffer::spmc_ring_buffer::SpmcRingBuffer;
use std::time::{Duration, Instant};

fn ratio(q: Quotient) -> f64 {
    q.num as f64 / q.den as f64
}

fn mean(b: Option<BatchMean>) -> f64 {
    ratio(b.unwrap().quotient())
}

#[test]
fn push_stats_records_fast_and_slow_path() {
    let rb = SpmcRingBuffer::<u64, 4, 1>::new();
    let _idle = rb.get_new_consumer().unwrap();
    let producer = rb.get_new_producer().unwrap();

    let epoch = Instant::now();
    let clock = || epoch.elapsed().as_nanos() as u64;
    let window = Duration::from_millis(30);
    let deadline = Instant::now() + window;

    let mut stats = PushStats::new(BATCH_SIZE, 4_096, 4_096, clock());
    stats.reset(clock());

    let mut item = 0u64;
    let mut prev_fail: Option<u64> = None;
    loop {
        if Instant::now() >= deadline {
            stats.seal(clock());
            break;
        }
        match producer.try_push(item) {
            Ok(()) => {
                stats.record_ok(clock);
                prev_fail = None;
                item = item.wrapping_add(1);
            }
            Err(v) => {
                let now = clock();
                stats.record_fail(prev_fail, now);
                prev_fail = Some(now);
                item = v;
            }
        }
    }

    assert!(stats.ok_ops > 0, "expected some successful pushes");
    assert!(stats.fail_ops > 0, "expected slow-path fails (buffer fills)");
    assert!(
        !stats.fail_lat_samples.is_empty(),
        "fail-latency samples should be recorded on the slow path"
    );
    let tput = ratio(stats.throughput());
    assert!(tput > 0.0, "throughput must be positive, got {tput}");
    assert!(tput < 1e12, "throughput implausibly high: {tput}");
    assert!(!stats.lat_batches.is_empty(), "fast-path batches should exist");
    assert!(mean(stats.lat_p50()) > 0.0, "p50 batch latency positive");
    assert!(mean(stats.lat_p99()) >= mean(stats.lat_p50()), "p99 >= p50 (latency)");
    assert!(stats.fail_lat_p50().unwrap() > 0, "p50 fail latency positive");
    assert!(stats.fail_lat_p99() >= stats.fail_lat_p50(), "p99 >= p50 (fail)");
    let fr = ratio(stats.fail_rate());
    assert!((0.0..=1.0).contains(&fr), "fail_rate in [0,1], got {fr}");
    let win_ms = stats.window_ns() as f64 / 1e6;
    assert!(win_ms >= 25.0 && win_ms <= 100.0, "window ~30ms, got {win_ms}ms");
}

#[test]
fn percentile_nearest_rank_known() {
    let mut v: Vec<u64> = vec![10, 20, 30, 40, 50, 60, 70, 80, 90, 100];
    assert_eq!(percentile_u64(&mut v, 50), Some(50));
    assert_eq!(percentile_u64(&mut v, 100), Some(100));
    assert_eq!(percentile_u64(&mut v, 0), Some(10));
    assert_eq!(percentile_u64(&mut Vec::new(), 50), None);
}

#[test]
fn percentiles_sort_and_round_up() {
    let mut v: Vec<u64> = vec![30, 10, 20];
    assert_eq!(percentile_u64(&mut v, 34), Some(20));
    assert_eq!(v, vec![10, 20, 30]);
    assert_eq!(percentile_u64(&mut v, 33), Some(10));
    assert_eq!(percentile_u64(&mut v, 99), Some(30));
    assert_eq!(percentile_u64(&mut v, 1_000), Some(30));
    assert_eq!(nearest_rank_index(0, 50), None);
    assert_eq!(nearest_rank_index(1, 0), Some(0));
    assert_eq!(nearest_rank_index(100, 29), Some(28));
    assert_eq!(nearest_rank_index(200, 99), Some(197));
}

#[test]
fn batch_means_are_ordered_as_fractions() {
    // 10/3, 10/4, 9/2
    let a = BatchMean { ns: 10, ops: 3 };
    let b = BatchMean { ns: 10, ops: 4 };
    let c = BatchMean { ns: 9, ops: 2 };
    let mut v = vec![a, b, c];
    assert_eq!(percentile(&mut v, 100), Some(c));
    assert_eq!(v, vec![b, a, c]);
    assert_eq!(c.quotient(), Quotient { num: 9, den: 2 });
    assert_eq!(BatchMean { ns: 9, ops: 0 }.quotient(), Quotient { num: 9, den: 1 });
}

#[test]
fn batches_are_closed_when_full_on_failure_and_at_the_end() {
    let mut stats = PopStats::new(3, 4, 4, 100);
    // A batch of three takes one reading of the clock.
    stats.record_ok(|| panic!("no batch is complete"));
    stats.record_ok(|| panic!("no batch is complete"));
    stats.record_ok(|| 160);
    assert_eq!(stats.lat_batches, vec![BatchMean { ns: 60, ops: 3 }]);
    // A failure closes a batch early.
    stats.record_ok(|| panic!("no batch is complete"));
    stats.record_fail(None, 180);
    assert_eq!(stats.lat_batches[1], BatchMean { ns: 20, ops: 1 });
    assert_eq!(stats.fail_lat_samples, Vec::<u64>::new());
    stats.record_fail(Some(180), 187);
    assert_eq!(stats.fail_lat_samples, vec![7]);
    // So does the end.
    stats.record_ok(|| panic!("no batch is complete"));
    stats.record_ok(|| panic!("no batch is complete"));
    stats.seal(200);
    assert_eq!(stats.lat_batches[2], BatchMean { ns: 20, ops: 2 });
    assert_eq!(stats.lat_batches.iter().map(|b| b.ops).sum::<u64>(), stats.ok_ops);

    assert_eq!((stats.ok_ops, stats.fail_ops), (6, 2));
    assert_eq!(stats.window_ns(), 100);
    assert_eq!(stats.throughput(), Quotient { num: 6_000_000_000, den: 100 });
    assert_eq!(stats.fail_rate(), Quotient { num: 2, den: 8 });
    assert_eq!(stats.lat_max(), Some(BatchMean { ns: 60, ops: 3 }));
    assert_eq!(stats.lat_p50(), Some(BatchMean { ns: 60, ops: 3 }));
    assert_eq!(stats.fail_lat_p50(), Some(7));
    assert_eq!(stats.fail_lat_p99(), Some(7));

    stats.reset(300);
    assert_eq!((stats.ok_ops, stats.fail_ops), (0, 0));
    assert_eq!(stats.window_ns(), 0);
    assert_eq!(stats.throughput(), Quotient { num: 0, den: 1 });
    assert_eq!(stats.fail_rate(), Quotient { num: 0, den: 1 });
    assert_eq!(stats.lat_max(), None);
    assert_eq!(stats.lat_p50(), None);
    assert_eq!(stats.lat_p99(), None);
    assert_eq!(stats.fail_lat_p50(), None);
}

#[test]
fn a_clock_that_runs_backwards_gives_no_time() {
    let mut stats = PushStats::new(1, 0, 0, 100);
    stats.record_ok(|| 90);
    assert_eq!(stats.lat_batches, vec![BatchMean { ns: 0, ops: 1 }]);
    stats.seal(50);
    assert_eq!(stats.window_ns(), 0);
}

#[test]
fn failure_times_are_kept_as_long_as_there_is_room() {
    let mut s = PushStats::new(512, 4, 2, 0);
    s.record_fail(None, 10);
    s.record_fail(Some(10), 13);
    s.record_fail(Some(13), 17);
    assert_eq!(s.fail_lat_samples, vec![3, 4]);
    let room = s.fail_lat_samples.capacity();
    s.record_fail(Some(17), 22);
    assert_eq!(s.fail_lat_samples, vec![3, 4]);
    assert_eq!(s.fail_lat_samples.capacity(), room);
    assert_eq!(s.fail_ops, 4);
    // The bound outlives a reset.
    s.reset(30);
    for i in 0..5u64 {
        s.record_fail(Some(30 + i), 31 + i);
    }
    assert_eq!((s.fail_ops, s.fail_lat_samples.len()), (5, 2));
}
