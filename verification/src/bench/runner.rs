//! From what the threads measured to the rows of the results.

use crate::bench::bencher::{
    count_below, count_up_to, elapsed, is_largest, is_percentile, law_largest_mean_tops_every_batch,
    law_largest_mean_tops_percentiles, law_percentile_parts_the_samples, lemma_percentiles_in_order,
    BatchMean, PopStats, PushStats, Quotient, StatsState,
};
use crate::bench::scenario::{ratio_label, BenchConfig, Ratio, RawRow, Role, SummaryRow};
use crate::bench::sort::Sample;
use vstd::prelude::*;

verus! {

/// How many attempts per second one consumer makes in a balanced scenario.
pub const BASE_RATE: u128 = 2_000_000;

/// How many attempts per second the producer and each of `n` consumers make,
/// `None` for as many as they can.
pub open spec fn target_rates(ratio: Ratio, n: nat) -> (Option<nat>, Option<nat>) {
    match ratio {
        Ratio::Max => (None, None),
        Ratio::Balanced => (Some(2_000_000 * n), Some(2_000_000)),
        Ratio::Prod(k) => (Some(2_000_000 * n * k as nat), Some(2_000_000)),
        Ratio::Cons(k) => (Some(2_000_000 * n), Some(2_000_000 * k as nat)),
    }
}

/// A rate, or none, as mathematical numbers.
pub open spec fn rate_view(rate: Option<u128>) -> Option<nat> {
    match rate {
        Some(r) => Some(r as nat),
        None => None,
    }
}

/// How many attempts per second the producer and each of `n` consumers make,
/// `None` for as many as they can.
pub fn ratio_to_targets(ratio: Ratio, n: usize) -> (r: (Option<u128>, Option<u128>))
    ensures
        (rate_view(r.0), rate_view(r.1)) == target_rates(ratio, n as nat),
{
    let wide: u128 = n as u128;
    let all: u128 = BASE_RATE * wide;
    match ratio {
        Ratio::Max => (None, None),
        Ratio::Balanced => (Some(all), Some(BASE_RATE)),
        Ratio::Prod(k) => {
            assert(0 <= all * k <= 2_000_000 * 0x1_0000_0000_0000_0000 * 0x1_0000_0000)
                by (nonlinear_arith)
                requires
                    0 <= all <= 2_000_000 * 0x1_0000_0000_0000_0000,
                    0 <= k <= 0x1_0000_0000,
            ;
            (Some(all * k as u128), Some(BASE_RATE))
        },
        Ratio::Cons(k) => (Some(all), Some(BASE_RATE * k as u128)),
    }
}

/// Whether a scenario is meant for a buffer of `cap` items and `n` consumers.
pub fn fits(cfg: &BenchConfig, cap: usize, n: usize) -> (r: bool)
    ensures
        r == (cfg.capacity == cap && cfg.num_consumers == n),
{
    cfg.capacity == cap && cfg.num_consumers == n
}

/// How many batches to make room for: as many as twenty million attempts per
/// second would fill during the measurement, and a thousand more.
pub fn est_batches(duration_ns: u64) -> (r: usize)
    requires
        duration_ns / 25_600 + 1024 <= usize::MAX,
    ensures
        r == duration_ns * 20_000_000 / 512_000_000_000int + 1024,
{
    let batches: u64 = duration_ns / 25_600;
    assert(duration_ns * 20_000_000 / 512_000_000_000int == duration_ns / 25_600);
    (batches + 1024) as usize
}

/// A measured quantity: a fraction, or nothing if there was nothing to measure.
pub type Measured = Option<Quotient>;

/// The mean of a batch as a measured quantity.
pub open spec fn mean_measured(mean: Option<BatchMean>) -> Measured {
    match mean {
        Some(b) => Some(Quotient { num: b.ns as u128, den: b.den() as u128 }),
        None => None,
    }
}

/// A time as a measured quantity.
pub open spec fn time_measured(time: Option<u64>) -> Measured {
    match time {
        Some(ns) => Some(Quotient { num: ns as u128, den: 1 }),
        None => None,
    }
}

fn measure_mean(mean: Option<BatchMean>) -> (r: Measured)
    ensures
        r == mean_measured(mean),
{
    match mean {
        Some(b) => Some(b.quotient()),
        None => None,
    }
}

fn measure_time(time: Option<u64>) -> (r: Measured)
    ensures
        r == time_measured(time),
{
    match time {
        Some(ns) => Some(Quotient { num: ns as u128, den: 1 }),
        None => None,
    }
}

/// `r` is the `pct`-th percentile of the samples in `given`.
pub open spec fn percentile_of<S: Sample>(given: Seq<S>, pct: nat, r: Option<S>) -> bool {
    exists|sorted: Seq<S>| #[trigger] is_percentile(given, sorted, pct, r)
}

/// The largest of the batch means, if there are any.
pub open spec fn largest_of(batches: Seq<BatchMean>, r: Option<BatchMean>) -> bool {
    match r {
        Some(x) => is_largest(batches, x),
        None => batches.len() == 0,
    }
}

/// The order of the samples is of no matter to their percentiles.
proof fn lemma_percentile_of_permuted<S: Sample>(
    given: Seq<S>,
    permuted: Seq<S>,
    sorted: Seq<S>,
    pct: nat,
    r: Option<S>,
)
    requires
        given.to_multiset() == permuted.to_multiset(),
        given.len() == permuted.len(),
        is_percentile(permuted, sorted, pct, r),
    ensures
        percentile_of(given, pct, r),
{
    assert(is_percentile(given, sorted, pct, r));
}

/// The order of the batches is of no matter to the largest.
proof fn lemma_largest_of_permuted(
    given: Seq<BatchMean>,
    permuted: Seq<BatchMean>,
    r: Option<BatchMean>,
)
    requires
        given.to_multiset() == permuted.to_multiset(),
        given.len() == permuted.len(),
        largest_of(permuted, r),
    ensures
        largest_of(given, r),
{
    broadcast use vstd::seq_lib::group_to_multiset_ensures;

    if let Some(x) = r {
        assert(permuted.to_multiset().count(x) > 0);
        assert(given.contains(x));
        assert forall|i: int| 0 <= i < given.len() implies (#[trigger] given[i]).le(x) by {
            assert(given.contains(given[i]));
            assert(given.to_multiset().count(given[i]) > 0);
            assert(permuted.contains(given[i]));
            let k = choose|k: int| 0 <= k < permuted.len() && permuted[k] == given[i];
            assert(permuted[k].le(x));
        }
    }
}

/// Who and what a row is about.
pub open spec fn row_is_about<F>(
    row: RawRow<F>,
    cfg: BenchConfig,
    trial: usize,
    role: Role,
    thread_id: usize,
    payload_bytes: usize,
) -> bool {
    &&& row.scenario@ == cfg.name@
    &&& row.backend@ == cfg.backend@
    &&& row.trial == trial
    &&& row.role == role
    &&& row.thread_id == thread_id
    &&& row.capacity == cfg.capacity
    &&& row.num_consumers == cfg.num_consumers
    &&& row.ratio@ == ratio_label(cfg.ratio)
    &&& row.payload_bytes == payload_bytes
}

/// What a row is about is what the scenario says, and the trial, the role and the
/// thread that it was made for.
pub proof fn law_rows_name_what_they_are_about<F>(
    row: RawRow<F>,
    cfg: BenchConfig,
    trial: usize,
    role: Role,
    thread_id: usize,
    payload_bytes: usize,
)
    requires
        row_is_about(row, cfg, trial, role, thread_id, payload_bytes),
    ensures
        row.scenario@ == cfg.name@,
        row.backend@ == cfg.backend@,
        row.trial == trial,
        row.role == role,
        row.thread_id == thread_id,
        row.capacity == cfg.capacity,
        row.num_consumers == cfg.num_consumers,
        row.ratio@ == ratio_label(cfg.ratio),
        row.payload_bytes == payload_bytes,
{
}

/// The quantities of a row are those of what the thread measured.
pub open spec fn row_measures(row: RawRow<Measured>, s: StatsState) -> bool {
    let ns = elapsed(s.window_start, s.window_end);
    &&& row.ok_ops == s.ok_ops
    &&& row.fail_ops == s.fail_ops
    &&& row.window_ns == time_measured(Some(ns))
    &&& row.throughput_ops_s == Some(
        if ns == 0 {
            Quotient { num: 0, den: 1 }
        } else {
            Quotient { num: (s.ok_ops * 1_000_000_000) as u128, den: ns as u128 }
        },
    )
    &&& row.fail_rate_pct == Some(
        if s.ok_ops + s.fail_ops == 0 {
            Quotient { num: 0, den: 1 }
        } else {
            Quotient { num: (s.fail_ops * 100) as u128, den: (s.ok_ops + s.fail_ops) as u128 }
        },
    )
    &&& exists|x: Option<BatchMean>| #[trigger]
        percentile_of(s.batches, 50, x) && row.lat_p50_ns == mean_measured(x)
    &&& exists|x: Option<BatchMean>| #[trigger]
        percentile_of(s.batches, 99, x) && row.lat_p99_ns == mean_measured(x)
    &&& exists|x: Option<BatchMean>| #[trigger]
        largest_of(s.batches, x) && row.lat_max_ns == mean_measured(x)
    &&& exists|x: Option<u64>| #[trigger]
        percentile_of(s.fail_samples, 50, x) && row.fail_lat_p50_ns == time_measured(x)
    &&& exists|x: Option<u64>| #[trigger]
        percentile_of(s.fail_samples, 99, x) && row.fail_lat_p99_ns == time_measured(x)
}

/// The counts and rates of a row follow from what the thread counted and from the
/// two readings of the clock: the window reaches from one to the other, the
/// throughput times the window gives the successes, and the failure rate times all
/// attempts gives the failures, in percent.
pub proof fn law_rows_count_what_was_measured(row: RawRow<Measured>, s: StatsState)
    requires
        row_measures(row, s),
        s.ok_ops <= u64::MAX,
        s.fail_ops <= u64::MAX,
    ensures
        row.ok_ops == s.ok_ops,
        row.fail_ops == s.fail_ops,
        row.window_ns matches Some(w) && w.den == 1 && (s.window_start <= s.window_end
            ==> s.window_start + w.num == s.window_end),
        row.throughput_ops_s matches Some(q) && q.den > 0 && (s.window_start < s.window_end
            ==> q.num * (s.window_end - s.window_start) == s.ok_ops * 1_000_000_000 * q.den),
        row.fail_rate_pct matches Some(q) && q.den > 0 && q.num * (s.ok_ops + s.fail_ops)
            == 100 * s.fail_ops * q.den,
{
    if s.window_start < s.window_end {
        let q = row.throughput_ops_s->0;
        assert(q.den == s.window_end - s.window_start);
        assert(q.num == s.ok_ops * 1_000_000_000);
    }
    let q = row.fail_rate_pct->0;
    let (f, n, m, d) = (s.fail_ops as int, s.ok_ops + s.fail_ops, q.num as int, q.den as int);
    assert(m * n == 100 * f * d) by (nonlinear_arith)
        requires
            (m == 100 * f && d == n) || (f == 0 && m == 0),
    ;
}

/// `q` is the mean of one of the batches, at least `pct` percent of which have a
/// mean that is not larger, and fewer than `pct` percent a smaller one, if any.
pub open spec fn parts_the_means(batches: Seq<BatchMean>, pct: nat, q: Quotient) -> bool {
    exists|x: BatchMean|
        {
            &&& #[trigger] batches.contains(x)
            &&& q.num == x.ns
            &&& q.den == x.ops
            &&& 100 * count_up_to(batches, x) >= pct * batches.len()
            &&& count_below(batches, x) > 0 ==> 100 * count_below(batches, x) < pct * batches.len()
        }
}

/// `q` is one of the times, at least `pct` percent of which are not longer, and
/// fewer than `pct` percent shorter, if any.
pub open spec fn parts_the_times(times: Seq<u64>, pct: nat, q: Quotient) -> bool {
    exists|x: u64|
        {
            &&& #[trigger] times.contains(x)
            &&& q.num == x
            &&& q.den == 1
            &&& 100 * count_up_to(times, x) >= pct * times.len()
            &&& count_below(times, x) > 0 ==> 100 * count_below(times, x) < pct * times.len()
        }
}

/// The latencies of a row part the batches, and the times between failures, where
/// their names say.
pub proof fn law_rows_part_the_samples(row: RawRow<Measured>, s: StatsState)
    requires
        row_measures(row, s),
        s.inv(),
    ensures
        s.batches.len() == 0 <==> row.lat_p50_ns is None,
        s.batches.len() == 0 <==> row.lat_p99_ns is None,
        s.batches.len() == 0 <==> row.lat_max_ns is None,
        s.fail_samples.len() == 0 <==> row.fail_lat_p50_ns is None,
        s.fail_samples.len() == 0 <==> row.fail_lat_p99_ns is None,
        row.lat_p50_ns matches Some(q) ==> parts_the_means(s.batches, 50, q),
        row.lat_p99_ns matches Some(q) ==> parts_the_means(s.batches, 99, q),
        row.fail_lat_p50_ns matches Some(q) ==> parts_the_times(s.fail_samples, 50, q),
        row.fail_lat_p99_ns matches Some(q) ==> parts_the_times(s.fail_samples, 99, q),
        row.lat_max_ns matches Some(q) ==> forall|i: int|
            0 <= i < s.batches.len() ==> (#[trigger] s.batches[i]).ns * q.den <= q.num
                * s.batches[i].ops,
{
    if s.batches.len() > 0 {
        lemma_mean_parts(s, 50, row.lat_p50_ns);
        lemma_mean_parts(s, 99, row.lat_p99_ns);
        let m = choose|x: Option<BatchMean>| #[trigger]
            largest_of(s.batches, x) && row.lat_max_ns == mean_measured(x);
        law_largest_mean_tops_every_batch(s.batches, m->0);
    }
    if s.fail_samples.len() > 0 {
        lemma_time_parts(s.fail_samples, 50, row.fail_lat_p50_ns);
        lemma_time_parts(s.fail_samples, 99, row.fail_lat_p99_ns);
    }
}

proof fn lemma_mean_parts(s: StatsState, pct: nat, q: Measured)
    requires
        s.inv(),
        s.batches.len() > 0,
        pct <= 100,
        exists|x: Option<BatchMean>| #[trigger]
            percentile_of(s.batches, pct, x) && q == mean_measured(x),
    ensures
        q matches Some(m) && parts_the_means(s.batches, pct, m),
{
    let x = choose|x: Option<BatchMean>| #[trigger]
        percentile_of(s.batches, pct, x) && q == mean_measured(x);
    let sorted = choose|sorted: Seq<BatchMean>| #[trigger]
        is_percentile(s.batches, sorted, pct, x);
    law_percentile_parts_the_samples(s.batches, sorted, pct, x->0);
    assert(s.batches.contains(x->0));
}

proof fn lemma_time_parts(times: Seq<u64>, pct: nat, q: Measured)
    requires
        times.len() > 0,
        pct <= 100,
        exists|x: Option<u64>| #[trigger] percentile_of(times, pct, x) && q == time_measured(x),
    ensures
        q matches Some(m) && parts_the_times(times, pct, m),
{
    let x = choose|x: Option<u64>| #[trigger]
        percentile_of(times, pct, x) && q == time_measured(x);
    let sorted = choose|sorted: Seq<u64>| #[trigger] is_percentile(times, sorted, pct, x);
    law_percentile_parts_the_samples(times, sorted, pct, x->0);
    assert(times.contains(x->0));
}

/// The latencies of a row are in order: the median is at most the 99th percentile,
/// and that at most the largest.
pub proof fn law_latencies_of_a_row_are_in_order(row: RawRow<Measured>, s: StatsState)
    requires
        row_measures(row, s),
        s.inv(),
    ensures
        (row.lat_p50_ns, row.lat_p99_ns) matches (Some(a), Some(b)) ==> a.num * b.den <= b.num
            * a.den,
        (row.lat_p99_ns, row.lat_max_ns) matches (Some(a), Some(b)) ==> a.num * b.den <= b.num
            * a.den,
        (row.fail_lat_p50_ns, row.fail_lat_p99_ns) matches (Some(a), Some(b)) ==> a.num <= b.num,
{
    if s.batches.len() > 0 {
        let x = choose|x: Option<BatchMean>| #[trigger]
            percentile_of(s.batches, 50, x) && row.lat_p50_ns == mean_measured(x);
        let y = choose|x: Option<BatchMean>| #[trigger]
            percentile_of(s.batches, 99, x) && row.lat_p99_ns == mean_measured(x);
        let m = choose|x: Option<BatchMean>| #[trigger]
            largest_of(s.batches, x) && row.lat_max_ns == mean_measured(x);
        let sx = choose|sorted: Seq<BatchMean>| #[trigger] is_percentile(s.batches, sorted, 50, x);
        let sy = choose|sorted: Seq<BatchMean>| #[trigger] is_percentile(s.batches, sorted, 99, y);
        lemma_percentiles_in_order(s.batches, sx, sy, 50, 99, x->0, y->0);
        law_percentile_parts_the_samples(s.batches, sx, 50, x->0);
        law_percentile_parts_the_samples(s.batches, sy, 99, y->0);
        law_largest_mean_tops_percentiles(s.batches, sy, 99, y->0, m->0);
        law_largest_mean_tops_every_batch(s.batches, m->0);
    }
    if s.fail_samples.len() > 0 {
        let x = choose|x: Option<u64>| #[trigger]
            percentile_of(s.fail_samples, 50, x) && row.fail_lat_p50_ns == time_measured(x);
        let y = choose|x: Option<u64>| #[trigger]
            percentile_of(s.fail_samples, 99, x) && row.fail_lat_p99_ns == time_measured(x);
        let sx = choose|sorted: Seq<u64>| #[trigger] is_percentile(s.fail_samples, sorted, 50, x);
        let sy = choose|sorted: Seq<u64>| #[trigger] is_percentile(s.fail_samples, sorted, 99, y);
        lemma_percentiles_in_order(s.fail_samples, sx, sy, 50, 99, x->0, y->0);
    }
}

/// `after` is what `before` measured, with its samples in another order.
pub open spec fn only_reordered(before: StatsState, after: StatsState) -> bool {
    &&& after == (StatsState {
        batches: after.batches,
        fail_samples: after.fail_samples,
        ..before
    })
    &&& after.batches.to_multiset() == before.batches.to_multiset()
    &&& after.fail_samples.to_multiset() == before.fail_samples.to_multiset()
}

/// Reordering loses no sample and changes no count and no reading of the clock.
pub proof fn law_reordering_keeps_what_was_measured(
    before: StatsState,
    after: StatsState,
    b: BatchMean,
    t: u64,
)
    requires
        only_reordered(before, after),
    ensures
        after.ok_ops == before.ok_ops && after.fail_ops == before.fail_ops,
        after.window_start == before.window_start && after.window_end == before.window_end,
        after.batch_start == before.batch_start && after.batch_count == before.batch_count,
        after.batch_size == before.batch_size && after.cap_samples == before.cap_samples,
        after.batches.len() == before.batches.len(),
        after.fail_samples.len() == before.fail_samples.len(),
        after.batches.contains(b) <==> before.batches.contains(b),
        after.fail_samples.contains(t) <==> before.fail_samples.contains(t),
{
    broadcast use vstd::seq_lib::group_to_multiset_ensures;

    assert(after.batches.to_multiset().count(b) == before.batches.to_multiset().count(b));
    assert(after.fail_samples.to_multiset().count(t) == before.fail_samples.to_multiset().count(t));
    assert(after.batches.len() == after.batches.to_multiset().len());
    assert(before.batches.len() == before.batches.to_multiset().len());
    assert(after.fail_samples.len() == after.fail_samples.to_multiset().len());
    assert(before.fail_samples.len() == before.fail_samples.to_multiset().len());
}

/// The row of one thread. Its samples are sorted on the way.
pub fn thread_row(
    cfg: &BenchConfig,
    trial: usize,
    role: Role,
    thread_id: usize,
    payload_bytes: usize,
    stats: &mut PushStats,
) -> (row: RawRow<Measured>)
    requires
        old(stats)@.inv(),
    ensures
        row_is_about(row, *cfg, trial, role, thread_id, payload_bytes),
        row_measures(row, old(stats)@),
        final(stats)@.inv(),
        only_reordered(old(stats)@, final(stats)@),
{
    let ghost s = stats@;
    let throughput: Quotient = stats.throughput();
    let rate: Quotient = stats.fail_rate();
    let window: u64 = stats.window_ns();
    let p50: Option<BatchMean> = stats.lat_p50();
    let ghost once = stats@.batches;
    let p99: Option<BatchMean> = stats.lat_p99();
    let ghost twice = stats@.batches;
    let max: Option<BatchMean> = stats.lat_max();
    let fail_p50: Option<u64> = stats.fail_lat_p50();
    let ghost fails_once = stats@.fail_samples;
    let fail_p99: Option<u64> = stats.fail_lat_p99();
    proof {
        assert(percentile_of(s.batches, 50, p50)) by {
            assert(is_percentile(s.batches, once, 50, p50));
        }
        lemma_percentile_of_permuted(s.batches, once, twice, 99, p99);
        lemma_largest_of_permuted(s.batches, twice, max);
        assert(percentile_of(s.fail_samples, 50, fail_p50)) by {
            assert(is_percentile(s.fail_samples, fails_once, 50, fail_p50));
        }
        lemma_percentile_of_permuted(
            s.fail_samples,
            fails_once,
            stats@.fail_samples,
            99,
            fail_p99,
        );
    }
    RawRow {
        scenario: cfg.name.clone(),
        backend: cfg.backend.clone(),
        trial,
        role,
        thread_id,
        capacity: cfg.capacity,
        num_consumers: cfg.num_consumers,
        ratio: cfg.ratio.label(),
        ok_ops: stats.ok_ops,
        fail_ops: stats.fail_ops,
        window_ns: measure_time(Some(window)),
        throughput_ops_s: Some(throughput),
        fail_rate_pct: Some(Quotient { num: rate.num * 100, den: rate.den }),
        lat_p50_ns: measure_mean(p50),
        lat_p99_ns: measure_mean(p99),
        lat_max_ns: measure_mean(max),
        fail_lat_p50_ns: measure_time(fail_p50),
        fail_lat_p99_ns: measure_time(fail_p99),
        payload_bytes,
    }
}

/// The rows of one trial: the producer's, then those of the consumers in order.
pub fn trial_rows(
    cfg: &BenchConfig,
    trial: usize,
    payload_bytes: usize,
    push: &mut PushStats,
    pops: &mut Vec<PopStats>,
) -> (rows: Vec<RawRow<Measured>>)
    requires
        old(push)@.inv(),
        forall|i: int| 0 <= i < old(pops)@.len() ==> (#[trigger] old(pops)@[i])@.inv(),
    ensures
        rows@.len() == 1 + old(pops)@.len(),
        row_is_about(rows@[0], *cfg, trial, Role::Producer, 0, payload_bytes),
        row_measures(rows@[0], old(push)@),
        forall|k: int|
            #![trigger rows@[k]]
            1 <= k < rows@.len() ==> row_is_about(
                rows@[k],
                *cfg,
                trial,
                Role::Consumer,
                (k - 1) as usize,
                payload_bytes,
            ) && row_measures(rows@[k], old(pops)@[k - 1]@),
        final(push)@.inv(),
        only_reordered(old(push)@, final(push)@),
        final(pops)@.len() == old(pops)@.len(),
        forall|i: int|
            0 <= i < old(pops)@.len() ==> (#[trigger] final(pops)@[i])@.inv() && only_reordered(
                old(pops)@[i]@,
                final(pops)@[i]@,
            ),
{
    let mut rows: Vec<RawRow<Measured>> = Vec::new();
    rows.push(thread_row(cfg, trial, Role::Producer, 0, payload_bytes, push));
    let mut i: usize = 0;
    while i < pops.len()
        invariant
            i <= pops@.len(),
            pops@.len() == old(pops)@.len(),
            rows@.len() == 1 + i,
            forall|j: int| i <= j < pops@.len() ==> #[trigger] pops@[j] == old(pops)@[j],
            forall|j: int| 0 <= j < old(pops)@.len() ==> (#[trigger] old(pops)@[j])@.inv(),
            forall|j: int|
                0 <= j < i ==> (#[trigger] pops@[j])@.inv() && only_reordered(
                    old(pops)@[j]@,
                    pops@[j]@,
                ),
            row_is_about(rows@[0], *cfg, trial, Role::Producer, 0, payload_bytes),
            row_measures(rows@[0], old(push)@),
            forall|k: int|
                #![trigger rows@[k]]
                1 <= k < rows@.len() ==> row_is_about(
                    rows@[k],
                    *cfg,
                    trial,
                    Role::Consumer,
                    (k - 1) as usize,
                    payload_bytes,
                ) && row_measures(rows@[k], old(pops)@[k - 1]@),
        decreases pops@.len() - i,
    {
        assert(pops@[i as int] == old(pops)@[i as int]);
        let row = thread_row(cfg, trial, Role::Consumer, i, payload_bytes, &mut pops[i]);
        rows.push(row);
        i += 1;
    }
    rows
}

/// What all consumers of one trial measured.
#[derive(Clone, Debug)]
pub struct ConsumerTotals {
    /// The throughput of each consumer.
    pub tputs: Vec<Quotient>,
    /// The successes of all consumers.
    pub ok_ops: u128,
    /// The failures of all consumers.
    pub fail_ops: u128,
    /// The medians of those consumers that have batches.
    pub lat_p50: Vec<Quotient>,
    /// The 99th percentiles of those consumers that have batches.
    pub lat_p99: Vec<Quotient>,
    /// The median failure times of those consumers that have any.
    pub fail_lat_p50: Vec<Quotient>,
    /// The 99th percentiles of those consumers that have failure times.
    pub fail_lat_p99: Vec<Quotient>,
}

/// The quantity `pick` of every consumer's row that has it, in order.
pub open spec fn of_consumers(
    rows: Seq<RawRow<Measured>>,
    pick: spec_fn(RawRow<Measured>) -> Measured,
) -> Seq<Quotient>
    decreases rows.len(),
{
    if rows.len() == 0 {
        Seq::empty()
    } else {
        let front = of_consumers(rows.drop_last(), pick);
        match (rows.last().role, pick(rows.last())) {
            (Role::Consumer, Some(q)) => front.push(q),
            _ => front,
        }
    }
}

/// The sum of `pick` over the rows of consumers.
pub open spec fn sum_of_consumers(
    rows: Seq<RawRow<Measured>>,
    pick: spec_fn(RawRow<Measured>) -> nat,
) -> nat
    decreases rows.len(),
{
    if rows.len() == 0 {
        0
    } else {
        sum_of_consumers(rows.drop_last(), pick) + if rows.last().role == Role::Consumer {
            pick(rows.last())
        } else {
            0
        }
    }
}

/// `totals` is what the consumers' rows among `rows` add up to.
pub open spec fn totals_of(totals: ConsumerTotals, rows: Seq<RawRow<Measured>>) -> bool {
    &&& totals.tputs@ == of_consumers(rows, |r: RawRow<Measured>| r.throughput_ops_s)
    &&& totals.ok_ops == sum_of_consumers(rows, |r: RawRow<Measured>| r.ok_ops as nat)
    &&& totals.fail_ops == sum_of_consumers(rows, |r: RawRow<Measured>| r.fail_ops as nat)
    &&& totals.lat_p50@ == of_consumers(rows, |r: RawRow<Measured>| r.lat_p50_ns)
    &&& totals.lat_p99@ == of_consumers(rows, |r: RawRow<Measured>| r.lat_p99_ns)
    &&& totals.fail_lat_p50@ == of_consumers(rows, |r: RawRow<Measured>| r.fail_lat_p50_ns)
    &&& totals.fail_lat_p99@ == of_consumers(rows, |r: RawRow<Measured>| r.fail_lat_p99_ns)
}

/// `longer` is `list` with the quantity behind it, if there is one.
pub open spec fn takes_up(list: Seq<Quotient>, q: Measured, longer: Seq<Quotient>) -> bool {
    match q {
        Some(x) => {
            &&& longer.len() == list.len() + 1
            &&& longer.drop_last() == list
            &&& longer.last() == x
        },
        None => longer == list,
    }
}

/// Totals begin with nothing. The row of a consumer adds what the consumer
/// counted, and each of its quantities to the list of the same name; the row of a
/// producer adds nothing.
pub proof fn law_totals_add_up(
    none: ConsumerTotals,
    before: ConsumerTotals,
    after: ConsumerTotals,
    rows: Seq<RawRow<Measured>>,
    row: RawRow<Measured>,
)
    requires
        totals_of(none, Seq::empty()),
        totals_of(before, rows),
        totals_of(after, rows.push(row)),
    ensures
        none.ok_ops == 0 && none.fail_ops == 0,
        none.tputs@.len() == 0,
        none.lat_p50@.len() == 0 && none.lat_p99@.len() == 0,
        none.fail_lat_p50@.len() == 0 && none.fail_lat_p99@.len() == 0,
        row.role == Role::Consumer ==> {
            &&& after.ok_ops == before.ok_ops + row.ok_ops
            &&& after.fail_ops == before.fail_ops + row.fail_ops
            &&& takes_up(before.tputs@, row.throughput_ops_s, after.tputs@)
            &&& takes_up(before.lat_p50@, row.lat_p50_ns, after.lat_p50@)
            &&& takes_up(before.lat_p99@, row.lat_p99_ns, after.lat_p99@)
            &&& takes_up(before.fail_lat_p50@, row.fail_lat_p50_ns, after.fail_lat_p50@)
            &&& takes_up(before.fail_lat_p99@, row.fail_lat_p99_ns, after.fail_lat_p99@)
        },
        row.role == Role::Producer ==> {
            &&& after.ok_ops == before.ok_ops && after.fail_ops == before.fail_ops
            &&& after.tputs@ == before.tputs@
            &&& after.lat_p50@ == before.lat_p50@ && after.lat_p99@ == before.lat_p99@
            &&& after.fail_lat_p50@ == before.fail_lat_p50@
            &&& after.fail_lat_p99@ == before.fail_lat_p99@
        },
{
    assert(rows.push(row).drop_last() =~= rows);
    if row.role == Role::Consumer {
        assert(after.tputs@.drop_last() =~= before.tputs@ || row.throughput_ops_s is None);
        assert(after.lat_p50@.drop_last() =~= before.lat_p50@ || row.lat_p50_ns is None);
        assert(after.lat_p99@.drop_last() =~= before.lat_p99@ || row.lat_p99_ns is None);
        assert(after.fail_lat_p50@.drop_last() =~= before.fail_lat_p50@ || row.fail_lat_p50_ns
            is None);
        assert(after.fail_lat_p99@.drop_last() =~= before.fail_lat_p99@ || row.fail_lat_p99_ns
            is None);
    }
}

/// Appends a quantity, if there is one.
fn push_measured(list: &mut Vec<Quotient>, q: Measured)
    ensures
        final(list)@ == match q {
            Some(x) => old(list)@.push(x),
            None => old(list)@,
        },
{
    if let Some(x) = q {
        list.push(x);
    }
}

impl ConsumerTotals {
    /// What the consumers' rows add up to.
    pub fn of(rows: &Vec<RawRow<Measured>>) -> (r: Self)
        ensures
            totals_of(r, rows@),
            r.ok_ops <= rows@.len() * u64::MAX,
            r.fail_ops <= rows@.len() * u64::MAX,
    {
        let mut t = ConsumerTotals {
            tputs: Vec::new(),
            ok_ops: 0,
            fail_ops: 0,
            lat_p50: Vec::new(),
            lat_p99: Vec::new(),
            fail_lat_p50: Vec::new(),
            fail_lat_p99: Vec::new(),
        };
        let mut i: usize = 0;
        while i < rows.len()
            invariant
                i <= rows@.len(),
                totals_of(t, rows@.take(i as int)),
                t.ok_ops <= i * u64::MAX,
                t.fail_ops <= i * u64::MAX,
            decreases rows@.len() - i,
        {
            let row: &RawRow<Measured> = &rows[i];
            proof {
                assert(rows@.take(i + 1).drop_last() =~= rows@.take(i as int));
                assert(rows@.take(i + 1).last() == rows@[i as int]);
                assert(i * u64::MAX + u64::MAX <= u128::MAX) by (nonlinear_arith)
                    requires
                        i < u64::MAX,
                ;
                assert((i + 1) * u64::MAX == i * u64::MAX + u64::MAX) by (nonlinear_arith);
            }
            if matches!(row.role, Role::Consumer) {
                push_measured(&mut t.tputs, row.throughput_ops_s);
                t.ok_ops = t.ok_ops + row.ok_ops as u128;
                t.fail_ops = t.fail_ops + row.fail_ops as u128;
                push_measured(&mut t.lat_p50, row.lat_p50_ns);
                push_measured(&mut t.lat_p99, row.lat_p99_ns);
                push_measured(&mut t.fail_lat_p50, row.fail_lat_p50_ns);
                push_measured(&mut t.fail_lat_p99, row.fail_lat_p99_ns);
            }
            i += 1;
        }
        assert(rows@.take(rows@.len() as int) =~= rows@);
        t
    }

    /// Which part of all attempts failed, or zero if there were none.
    pub fn fail_rate(&self) -> (r: Quotient)
        requires
            self.ok_ops + self.fail_ops <= u128::MAX,
        ensures
            if self.ok_ops + self.fail_ops > 0 {
                r.num == self.fail_ops && r.den == self.ok_ops + self.fail_ops
            } else {
                r.num == 0 && r.den == 1
            },
            r.num <= r.den,
            r.den > 0,
    {
        let total: u128 = self.ok_ops + self.fail_ops;
        if total > 0 {
            Quotient { num: self.fail_ops, den: total }
        } else {
            Quotient { num: 0, den: 1 }
        }
    }
}

/// The ranks whose values the median of `n` sorted values lies halfway between:
/// twice the middle one if `n` is odd, the two middle ones if it is even.
pub fn median_ranks(n: usize) -> (r: Option<(usize, usize)>)
    ensures
        match r {
            Some((low, high)) => {
                &&& low <= high < n
                &&& low + high == n - 1
                &&& high - low <= 1
            },
            None => n == 0,
        },
{
    if n == 0 {
        None
    } else if n % 2 == 1 {
        Some((n / 2, n / 2))
    } else {
        Some((n / 2 - 1, n / 2))
    }
}

/// What was measured of one role, over all trials. `F` is the type of the
/// quantities.
#[derive(Copy, Clone, Debug)]
pub struct RoleSummary<F> {
    pub tput_mean: F,
    pub tput_median: F,
    pub tput_min: F,
    pub tput_max: F,
    pub fail_rate_mean: F,
    pub lat_p50_mean: F,
    pub lat_p50_median: F,
    pub lat_p99_mean: F,
    pub lat_p99_median: F,
    pub fail_lat_p50_mean: F,
    pub fail_lat_p50_median: F,
    pub fail_lat_p99_mean: F,
    pub fail_lat_p99_median: F,
}

/// `row` says of `role` what `m` says, under the headings of `cfg`.
pub open spec fn summarizes<F>(
    row: SummaryRow<F>,
    cfg: BenchConfig,
    role: Role,
    payload_bytes: usize,
    m: RoleSummary<F>,
) -> bool {
    &&& row.scenario@ == cfg.name@
    &&& row.backend@ == cfg.backend@
    &&& row.role == role
    &&& row.capacity == cfg.capacity
    &&& row.num_consumers == cfg.num_consumers
    &&& row.ratio@ == ratio_label(cfg.ratio)
    &&& row.payload_bytes == payload_bytes
    &&& row.trials == cfg.trials
    &&& m == RoleSummary {
        tput_mean: row.tput_mean,
        tput_median: row.tput_median,
        tput_min: row.tput_min,
        tput_max: row.tput_max,
        fail_rate_mean: row.fail_rate_mean,
        lat_p50_mean: row.lat_p50_mean,
        lat_p50_median: row.lat_p50_median,
        lat_p99_mean: row.lat_p99_mean,
        lat_p99_median: row.lat_p99_median,
        fail_lat_p50_mean: row.fail_lat_p50_mean,
        fail_lat_p50_median: row.fail_lat_p50_median,
        fail_lat_p99_mean: row.fail_lat_p99_mean,
        fail_lat_p99_median: row.fail_lat_p99_median,
    }
}

/// Each quantity of a summary row is the one of that name, and what the row is
/// about is what the scenario says.
pub proof fn law_summaries_name_their_quantities<F>(
    row: SummaryRow<F>,
    cfg: BenchConfig,
    role: Role,
    payload_bytes: usize,
    m: RoleSummary<F>,
)
    requires
        summarizes(row, cfg, role, payload_bytes, m),
    ensures
        row.scenario@ == cfg.name@,
        row.backend@ == cfg.backend@,
        row.role == role,
        row.capacity == cfg.capacity,
        row.num_consumers == cfg.num_consumers,
        row.ratio@ == ratio_label(cfg.ratio),
        row.payload_bytes == payload_bytes,
        row.trials == cfg.trials,
        row.tput_mean == m.tput_mean,
        row.tput_median == m.tput_median,
        row.tput_min == m.tput_min,
        row.tput_max == m.tput_max,
        row.fail_rate_mean == m.fail_rate_mean,
        row.lat_p50_mean == m.lat_p50_mean,
        row.lat_p50_median == m.lat_p50_median,
        row.lat_p99_mean == m.lat_p99_mean,
        row.lat_p99_median == m.lat_p99_median,
        row.fail_lat_p50_mean == m.fail_lat_p50_mean,
        row.fail_lat_p50_median == m.fail_lat_p50_median,
        row.fail_lat_p99_mean == m.fail_lat_p99_mean,
        row.fail_lat_p99_median == m.fail_lat_p99_median,
{
}

/// The summary of one role.
pub fn summary_row<F>(
    cfg: &BenchConfig,
    role: Role,
    payload_bytes: usize,
    m: RoleSummary<F>,
) -> (row: SummaryRow<F>)
    ensures
        summarizes(row, *cfg, role, payload_bytes, m),
{
    SummaryRow {
        scenario: cfg.name.clone(),
        backend: cfg.backend.clone(),
        role,
        capacity: cfg.capacity,
        num_consumers: cfg.num_consumers,
        ratio: cfg.ratio.label(),
        payload_bytes,
        trials: cfg.trials,
        tput_mean: m.tput_mean,
        tput_median: m.tput_median,
        tput_min: m.tput_min,
        tput_max: m.tput_max,
        fail_rate_mean: m.fail_rate_mean,
        lat_p50_mean: m.lat_p50_mean,
        lat_p50_median: m.lat_p50_median,
        lat_p99_mean: m.lat_p99_mean,
        lat_p99_median: m.lat_p99_median,
        fail_lat_p50_mean: m.fail_lat_p50_mean,
        fail_lat_p50_median: m.fail_lat_p50_median,
        fail_lat_p99_mean: m.fail_lat_p99_mean,
        fail_lat_p99_median: m.fail_lat_p99_median,
    }
}

/// The summaries of both roles: the producer's, then the consumers'.
pub fn summary_rows<F>(
    cfg: &BenchConfig,
    payload_bytes: usize,
    producer: RoleSummary<F>,
    consumers: RoleSummary<F>,
) -> (rows: Vec<SummaryRow<F>>)
    ensures
        rows@.len() == 2,
        summarizes(rows@[0], *cfg, Role::Producer, payload_bytes, producer),
        summarizes(rows@[1], *cfg, Role::Consumer, payload_bytes, consumers),
{
    let mut rows: Vec<SummaryRow<F>> = Vec::new();
    rows.push(summary_row(cfg, Role::Producer, payload_bytes, producer));
    rows.push(summary_row(cfg, Role::Consumer, payload_bytes, consumers));
    rows
}

} // verus!
