//! What the operations of the harness answer, in terms of what they were given.

use crate::bench::backend::{Backend, RbConsumer, RbProducer};
use crate::bench::bencher::{
    is_nearest_rank, nearest_rank_index, BatchMean, PopStats, PushStats, Quotient,
};
use crate::bench::runner::{
    est_batches, fits, median_ranks, ratio_to_targets, row_measures, summary_rows, trial_rows, ConsumerTotals,
    Measured, RoleSummary,
};
use crate::bench::scenario::{BenchConfig, Payload, Ratio, RawRow, Role, SummaryRow};
use crate::bench::worker::{attempt_period, Step, Worker, PHASE_WARMUP};
use vstd::prelude::*;

verus! {

/// Successes per second, times the time between the two readings of the clock,
/// gives the successes. Without time between them there are none per second.
pub proof fn law_throughput_times_the_window_is_the_successes(s: &PushStats, q: Quotient)
    requires
        call_ensures(PushStats::throughput, (s,), q),
    ensures
        q.den > 0,
        s.window_start < s.window_end ==> q.num * (s.window_end - s.window_start) == s.ok_ops
            * 1_000_000_000 * q.den,
        s.window_end <= s.window_start ==> q.num == 0,
{
    if s.window_start < s.window_end {
        assert(q.den == s.window_end - s.window_start);
        assert(q.num == s.ok_ops * 1_000_000_000);
    }
}

/// The window is the time between the two readings of the clock.
pub proof fn law_window_reaches_from_start_to_end(s: &PushStats, ns: u64)
    requires
        call_ensures(PushStats::window_ns, (s,), ns),
    ensures
        s.window_start <= s.window_end ==> s.window_start + ns == s.window_end,
        s.window_end < s.window_start ==> ns == 0,
{
}

/// The failure rate, times all attempts, gives the failures. It lies between zero
/// and one.
pub proof fn law_fail_rate_times_the_attempts_is_the_failures(s: &PushStats, q: Quotient)
    requires
        call_ensures(PushStats::fail_rate, (s,), q),
    ensures
        q.den > 0,
        q.num <= q.den,
        q.num * (s.ok_ops + s.fail_ops) == s.fail_ops * q.den,
        s.fail_ops == 0 ==> q.num == 0,
        s.ok_ops == 0 && s.fail_ops > 0 ==> q.num == q.den,
{
    let (f, n, m, d) = (s.fail_ops as int, s.ok_ops + s.fail_ops, q.num as int, q.den as int);
    assert(m * n == f * d) by (nonlinear_arith)
        requires
            (m == f && d == n) || (f == 0 && m == 0),
    ;
}

/// The failure rate of all consumers, times all their attempts, gives their
/// failures.
pub proof fn law_total_fail_rate_times_the_attempts_is_the_failures(
    t: &ConsumerTotals,
    q: Quotient,
)
    requires
        call_ensures(ConsumerTotals::fail_rate, (t,), q),
    ensures
        q.den > 0,
        q.num <= q.den,
        q.num * (t.ok_ops + t.fail_ops) == t.fail_ops * q.den,
{
    let (f, n, m, d) = (t.fail_ops as int, t.ok_ops + t.fail_ops, q.num as int, q.den as int);
    assert(m * n == f * d) by (nonlinear_arith)
        requires
            (m == f && d == n) || (f == 0 && m == 0),
    ;
}

/// The mean of a batch, times its attempts, gives its time.
pub proof fn law_mean_times_the_attempts_is_the_time(b: &BatchMean, q: Quotient)
    requires
        call_ensures(BatchMean::quotient, (b,), q),
        b.ops > 0,
    ensures
        q.den > 0,
        q.num * b.ops == b.ns * q.den,
{
}

/// The largest mean is that of a batch, and no batch takes longer per attempt.
pub proof fn law_largest_mean_is_the_slowest_batch(s: &PushStats, r: Option<BatchMean>)
    requires
        call_ensures(PushStats::lat_max, (s,), r),
        forall|i: int| 0 <= i < s.lat_batches@.len() ==> (#[trigger] s.lat_batches@[i]).ops > 0,
    ensures
        r is None <==> s.lat_batches@.len() == 0,
        r matches Some(m) ==> s.lat_batches@.contains(m) && forall|i: int|
            0 <= i < s.lat_batches@.len() ==> (#[trigger] s.lat_batches@[i]).ns * m.ops <= m.ns
                * s.lat_batches@[i].ops,
{
    assert(s@.batches == s.lat_batches@);
    if let Some(m) = r {
        assert forall|i: int| 0 <= i < s.lat_batches@.len() implies (
        #[trigger] s.lat_batches@[i]).ns * m.ops <= m.ns * s.lat_batches@[i].ops by {
            assert(s@.batches[i].ns * m.den() <= m.ns * s@.batches[i].den());
        }
    }
}

/// A percentile has at least its percentage of the samples at or before it, and
/// the place before it has not. So the median is the middle sample, or the earlier
/// one of two, and the hundredth percentile is the last.
pub proof fn law_ranks_are_the_first_that_suffice(n: usize, pct: u32, r: Option<usize>)
    requires
        call_ensures(nearest_rank_index, (n, pct), r),
    ensures
        r is None <==> n == 0,
        r matches Some(i) ==> i < n,
        r matches Some(i) ==> pct <= 100 ==> 100 * (i + 1) >= pct * n,
        r matches Some(i) ==> pct <= 100 && i > 0 ==> 100 * i < pct * n,
        r matches Some(i) ==> pct >= 100 ==> i == n - 1,
        r matches Some(i) ==> pct == 0 ==> i == 0,
        r matches Some(i) ==> pct == 50 ==> i == (n - 1) / 2,
{
    if let Some(i) = r {
        let m = n as nat;
        let p: nat = if pct > 100 {
            100
        } else {
            pct as nat
        };
        assert(is_nearest_rank(m, pct as nat, i as int));
        assert(p == 0 ==> p * m == 0) by (nonlinear_arith);
        assert(p == 50 ==> p * m == 50 * m) by (nonlinear_arith);
        assert(p == 100 ==> p * m == 100 * m) by (nonlinear_arith);
    }
}

/// In a balanced scenario the producer makes as many attempts as all consumers
/// together. Otherwise one side makes so many times as many.
pub proof fn law_rates_stand_in_the_ratio(
    ratio: Ratio,
    n: usize,
    r: (Option<u128>, Option<u128>),
)
    requires
        call_ensures(ratio_to_targets, (ratio, n), r),
    ensures
        ratio == Ratio::Max <==> r.0 is None,
        r.0 is None <==> r.1 is None,
        ratio == Ratio::Balanced ==> r.1 == Some(2_000_000u128) && r.0->0 == n * r.1->0,
        ratio matches Ratio::Prod(k) ==> r.1 == Some(2_000_000u128) && r.0->0 == k * (n * r.1->0),
        ratio matches Ratio::Cons(k) ==> r.1->0 == k * 2_000_000 && r.0->0 == n * 2_000_000,
{
    if let Ratio::Prod(k) = ratio {
        let wide = n as int;
        let times = k as int;
        assert(2_000_000 * wide * times == times * (wide * 2_000_000)) by (nonlinear_arith);
    }
}

/// A scenario fits a buffer of its own capacity and number of consumers, and no
/// other.
pub proof fn law_scenarios_fit_their_own_buffers(
    cfg: &BenchConfig,
    cap: usize,
    n: usize,
    r: bool,
)
    requires
        call_ensures(fits, (cfg, cap, n), r),
    ensures
        r ==> cfg.capacity == cap && cfg.num_consumers == n,
        cfg.capacity == cap && cfg.num_consumers == n ==> r,
{
}

/// There is room for the batches of twenty million successes per second.
pub proof fn law_batches_have_room(duration_ns: u64, r: usize)
    requires
        call_ensures(est_batches, (duration_ns,), r),
    ensures
        r >= 1024,
        512_000_000_000 * (r - 1024) <= duration_ns * 20_000_000,
        duration_ns * 20_000_000 < 512_000_000_000 * (r - 1023),
{
}

/// The two middle ranks are as far from either end.
pub proof fn law_median_is_in_the_middle(n: usize, r: Option<(usize, usize)>)
    requires
        call_ensures(median_ranks, (n,), r),
    ensures
        r is None <==> n == 0,
        r matches Some((low, high)) ==> low == n - 1 - high && low <= high <= low + 1,
        r matches Some((low, high)) ==> (low == high <==> n % 2 == 1),
{
}

/// No whole number of nanoseconds comes nearer to a second, over all attempts of
/// a second, than the period does; of two that come as near it is the even one.
pub proof fn law_period_is_the_nearest(rate: u128, r: Option<u64>, other: int)
    requires
        call_ensures(attempt_period, (rate,), r),
    ensures
        r is None <==> rate == 0,
        r matches Some(p) ==> ({
            let off = p * rate - 1_000_000_000;
            let other_off = other * rate - 1_000_000_000;
            &&& -rate <= 2 * off <= rate
            &&& (2 * off == rate || 2 * off == -rate) ==> p % 2 == 0
            &&& other != p ==> (off <= other_off || off <= -other_off) && (-off <= other_off
                || -off <= -other_off)
        }),
{
    if let Some(p) = r {
        let d = rate as int;
        let whole = 1_000_000_000int / d;
        let rest = 1_000_000_000int % d;
        vstd::arithmetic::div_mod::lemma_fundamental_div_mod(1_000_000_000, d);
        assert(whole * d == d * whole) by (nonlinear_arith);
        assert((whole + 1) * d == d * whole + d) by (nonlinear_arith);
        let off = p * d - 1_000_000_000;
        assert(p * rate == p * d);
        assert(-d <= 2 * off <= d);
        if other > p {
            assert(other * d >= p * d + d) by (nonlinear_arith)
                requires
                    other >= p + 1,
                    d > 0,
            ;
        }
        if other < p {
            assert(other * d <= p * d - d) by (nonlinear_arith)
                requires
                    other <= p - 1,
                    d > 0,
            ;
        }
        assert(other * rate == other * d);
    }
}

/// Nothing is measured before the measurement has begun, it is not begun while
/// the threads warm up, and it ends when they are told to stop.
pub proof fn law_phases_follow_one_another(w: &Worker, phase: u8, stop: bool, r: Step)
    requires
        call_ensures(Worker::next_step, (w, phase, stop), r),
    ensures
        r == Step::Attempt <==> w.measuring && !stop,
        r == Step::Finish <==> w.measuring && stop,
        r == Step::WarmUp <==> !w.measuring && phase == PHASE_WARMUP,
        r == Step::Begin <==> !w.measuring && phase != PHASE_WARMUP,
{
}

/// A thread begins at the first item, before its measurement.
pub proof fn law_threads_begin_at_the_first_item(period: Option<u64>, w: Worker)
    requires
        call_ensures(Worker::new, (period,), w),
    ensures
        w.seq == 0,
        w.prev_fail is None,
        w.next_deadline == 0,
        w.period == period,
        !w.measuring,
{
}

/// The producer is a thread too.
pub proof fn law_workers_are_the_producer_and_the_consumers(cfg: &BenchConfig, r: usize)
    requires
        call_ensures(BenchConfig::workers, (cfg,), r),
    ensures
        r == cfg.num_consumers + 1,
{
}

/// Roles and backends are called by their names.
pub proof fn law_roles_and_backends_have_their_names(
    role: Role,
    role_text: &'static str,
    backend: Backend,
    backend_text: &'static str,
)
    requires
        call_ensures(Role::name, (role,), role_text),
        call_ensures(Backend::name, (backend,), backend_text),
    ensures
        role_text@ == if role == Role::Producer {
            "producer"@
        } else {
            "consumer"@
        },
        backend_text@ == if backend == Backend::Spmc {
            "spmc"@
        } else {
            "sync"@
        },
{
}

/// The schedule of a thread that makes attempts at a rate starts one period after
/// its measurement began, and each attempt is due a period after the one before.
/// The number of the next item stays.
pub proof fn law_attempts_are_a_period_apart()
    ensures
        forall|w: &mut Worker, stats: &mut PushStats, now: u64| #[trigger]
            call_ensures(Worker::begin_measuring, (w, stats, now), ()) ==> {
                &&& w.period matches Some(p) ==> final(w).next_deadline == now + p
                &&& w.period is None ==> final(w).next_deadline == now
                &&& final(w).period == w.period
                &&& final(w).seq == w.seq
                &&& final(w).prev_fail is None
                &&& final(w).measuring
                &&& final(stats).ok_ops == 0 && final(stats).fail_ops == 0
                &&& final(stats).window_start == now
            },
        forall|w: &mut Worker, due: Option<u64>| #[trigger]
            call_ensures(Worker::next_attempt, (w,), due) ==> {
                &&& w.period matches Some(p) ==> w.next_deadline + p <= u64::MAX ==> due == Some(
                    final(w).next_deadline,
                ) && final(w).next_deadline == w.next_deadline + p
                &&& w.period is None ==> due is None && final(w).next_deadline == w.next_deadline
                &&& final(w).period == w.period
                &&& final(w).seq == w.seq
                &&& final(w).prev_fail == w.prev_fail
                &&& final(w).measuring == w.measuring
            },
{
}

/// A success is counted once. It completes a batch exactly if as many as a batch
/// takes have come together. No failure is counted, and the window stays.
pub proof fn law_recording_a_success_counts_it<C: FnOnce() -> u64>()
    ensures
        forall|s: &mut PushStats, clock: C| #[trigger]
            call_ensures(PushStats::record_ok, (s, clock), ()) && s@.inv() ==> {
                &&& final(s).ok_ops == s.ok_ops + 1
                &&& final(s).fail_ops == s.fail_ops
                &&& final(s).fail_lat_samples@ == s.fail_lat_samples@
                &&& final(s).window_start == s.window_start
                &&& final(s).window_end == s.window_end
                &&& s.batch_count + 1 < s.batch_size ==> final(s).batch_count == s.batch_count + 1
                    && final(s).lat_batches@ == s.lat_batches@ && final(s).batch_start
                    == s.batch_start
                &&& s.batch_count + 1 >= s.batch_size ==> final(s).batch_count == 0
                    && final(s).lat_batches@.len() == s.lat_batches@.len() + 1 && clock.ensures(
                    (),
                    final(s).batch_start,
                )
            },
{
    assert forall|s: &mut PushStats, clock: C| #[trigger]
        call_ensures(PushStats::record_ok, (s, clock), ()) && s@.inv() implies {
        &&& final(s).ok_ops == s.ok_ops + 1
        &&& final(s).fail_ops == s.fail_ops
        &&& final(s).fail_lat_samples@ == s.fail_lat_samples@
        &&& final(s).window_start == s.window_start
        &&& final(s).window_end == s.window_end
        &&& s.batch_count + 1 < s.batch_size ==> final(s).batch_count == s.batch_count + 1
            && final(s).lat_batches@ == s.lat_batches@ && final(s).batch_start == s.batch_start
        &&& s.batch_count + 1 >= s.batch_size ==> final(s).batch_count == 0
            && final(s).lat_batches@.len() == s.lat_batches@.len() + 1 && clock.ensures(
            (),
            final(s).batch_start,
        )
    } by {
        assert(final(s).ok_ops as nat == final(s)@.ok_ops);
        assert(final(s).fail_ops as nat == final(s)@.fail_ops);
        assert(final(s).batch_count as nat == final(s)@.batch_count);
    }
}

/// A failure is counted once and closes the batch that is being filled. The time
/// since the failure before it is kept, if there was one and there is room. Ending
/// a measurement counts nothing and sets where the window ends; beginning one
/// forgets all that was counted.
pub proof fn law_recording_a_failure_counts_it()
    ensures
        forall|s: &mut PushStats, prev: Option<u64>, now: u64| #[trigger]
            call_ensures(PushStats::record_fail, (s, prev, now), ()) ==> {
                &&& final(s).fail_ops == s.fail_ops + 1
                &&& final(s).ok_ops == s.ok_ops
                &&& final(s).batch_count == 0
                &&& final(s).lat_batches@.len() == s.lat_batches@.len() + if s.batch_count > 0 {
                    1int
                } else {
                    0
                }
                &&& prev is None || s.fail_lat_samples@.len() >= s.cap_samples
                    ==> final(s).fail_lat_samples@ == s.fail_lat_samples@
                &&& prev matches Some(t0) ==> t0 <= now && s.fail_lat_samples@.len()
                    < s.cap_samples ==> final(s).fail_lat_samples@ == s.fail_lat_samples@.push(
                    (now - t0) as u64,
                )
            },
        forall|s: &mut PushStats, now: u64| #[trigger]
            call_ensures(PushStats::seal, (s, now), ()) ==> {
                &&& final(s).window_end == now
                &&& final(s).window_start == s.window_start
                &&& final(s).ok_ops == s.ok_ops
                &&& final(s).fail_ops == s.fail_ops
                &&& final(s).batch_count == 0
            },
        forall|s: &mut PushStats, now: u64| #[trigger]
            call_ensures(PushStats::reset, (s, now), ()) ==> {
                &&& final(s).window_start == now
                &&& final(s).batch_start == now
                &&& final(s).ok_ops == 0 && final(s).fail_ops == 0 && final(s).batch_count == 0
                &&& final(s).lat_batches@.len() == 0
                &&& final(s).fail_lat_samples@.len() == 0
                &&& final(s).batch_size == s.batch_size
                &&& final(s).cap_samples == s.cap_samples
            },
{
    assert forall|s: &mut PushStats, prev: Option<u64>, now: u64| #[trigger]
        call_ensures(PushStats::record_fail, (s, prev, now), ()) implies {
        &&& final(s).fail_ops == s.fail_ops + 1
        &&& final(s).ok_ops == s.ok_ops
        &&& final(s).batch_count == 0
        &&& final(s).lat_batches@.len() == s.lat_batches@.len() + if s.batch_count > 0 {
            1int
        } else {
            0
        }
        &&& prev is None || s.fail_lat_samples@.len() >= s.cap_samples
            ==> final(s).fail_lat_samples@ == s.fail_lat_samples@
        &&& prev matches Some(t0) ==> t0 <= now && s.fail_lat_samples@.len() < s.cap_samples
            ==> final(s).fail_lat_samples@ == s.fail_lat_samples@.push((now - t0) as u64)
    } by {
        assert(final(s).ok_ops as nat == final(s)@.ok_ops);
        assert(final(s).fail_ops as nat == final(s)@.fail_ops);
        assert(final(s).batch_count as nat == final(s)@.batch_count);
    }
    assert forall|s: &mut PushStats, now: u64| #[trigger]
        call_ensures(PushStats::seal, (s, now), ()) implies {
        &&& final(s).window_end == now
        &&& final(s).window_start == s.window_start
        &&& final(s).ok_ops == s.ok_ops
        &&& final(s).fail_ops == s.fail_ops
        &&& final(s).batch_count == 0
    } by {
        assert(final(s).ok_ops as nat == final(s)@.ok_ops);
        assert(final(s).fail_ops as nat == final(s)@.fail_ops);
        assert(final(s).batch_count as nat == final(s)@.batch_count);
    }
}

/// A trial has a row for the producer, then one for each consumer in order, with
/// what that thread counted.
pub proof fn law_trials_have_a_row_for_each_thread(cfg: &BenchConfig, trial: usize, bytes: usize)
    ensures
        forall|
            push: &mut PushStats,
            pops: &mut Vec<PopStats>,
            rows: Vec<RawRow<Measured>>,
        | #[trigger]
            call_ensures(trial_rows, (cfg, trial, bytes, push, pops), rows) ==> {
                &&& rows@.len() == 1 + pops@.len()
                &&& rows@[0].role == Role::Producer && rows@[0].thread_id == 0
                &&& rows@[0].ok_ops == push.ok_ops && rows@[0].fail_ops == push.fail_ops
                &&& forall|i: int|
                    0 <= i < pops@.len() ==> {
                        let row = rows@[i + 1];
                        &&& row.role == Role::Consumer && row.thread_id == i
                        &&& row.ok_ops == (#[trigger] pops@[i]).ok_ops && row.fail_ops
                            == pops@[i].fail_ops
                    }
                &&& forall|k: int|
                    0 <= k < rows@.len() ==> {
                        let row = #[trigger] rows@[k];
                        &&& row.scenario@ == cfg.name@ && row.backend@ == cfg.backend@
                        &&& row.trial == trial && row.payload_bytes == bytes
                        &&& row.capacity == cfg.capacity && row.num_consumers == cfg.num_consumers
                    }
            },
{
    assert forall|push: &mut PushStats, pops: &mut Vec<PopStats>, rows: Vec<RawRow<Measured>>|
     #[trigger]
        call_ensures(trial_rows, (cfg, trial, bytes, push, pops), rows) implies {
        &&& rows@.len() == 1 + pops@.len()
        &&& rows@[0].role == Role::Producer && rows@[0].thread_id == 0
        &&& rows@[0].ok_ops == push.ok_ops && rows@[0].fail_ops == push.fail_ops
        &&& forall|i: int|
            0 <= i < pops@.len() ==> {
                let row = rows@[i + 1];
                &&& row.role == Role::Consumer && row.thread_id == i
                &&& row.ok_ops == (#[trigger] pops@[i]).ok_ops && row.fail_ops
                    == pops@[i].fail_ops
            }
        &&& forall|k: int|
            0 <= k < rows@.len() ==> {
                let row = #[trigger] rows@[k];
                &&& row.scenario@ == cfg.name@ && row.backend@ == cfg.backend@
                &&& row.trial == trial && row.payload_bytes == bytes
                &&& row.capacity == cfg.capacity && row.num_consumers == cfg.num_consumers
            }
    } by {
        let counted = *pops;
        assert(counted.len() == pops@.len());
        assert(row_measures(rows@[0], push@));
        assert forall|i: int| 0 <= i < pops@.len() implies {
            let row = rows@[i + 1];
            &&& row.role == Role::Consumer && row.thread_id == i
            &&& row.ok_ops == (#[trigger] pops@[i]).ok_ops && row.fail_ops == pops@[i].fail_ops
        } by {
            assert(row_measures(rows@[i + 1], pops@[i + 1 - 1]@));
        }
    }
}

/// A summary has the producer's row, then that of the consumers, each with its own
/// quantities.
pub proof fn law_summaries_have_a_row_for_each_role<F>(
    cfg: &BenchConfig,
    bytes: usize,
    producer: RoleSummary<F>,
    consumers: RoleSummary<F>,
    rows: Vec<SummaryRow<F>>,
)
    requires
        call_ensures(summary_rows, (cfg, bytes, producer, consumers), rows),
    ensures
        rows@.len() == 2,
        rows@[0].role == Role::Producer && rows@[1].role == Role::Consumer,
        rows@[0].tput_mean == producer.tput_mean && rows@[1].tput_mean == consumers.tput_mean,
        rows@[0].trials == cfg.trials && rows@[1].trials == cfg.trials,
        rows@[0].payload_bytes == bytes && rows@[1].payload_bytes == bytes,
{
}

/// A push or a pop that is not measured moves the thread on to the next number
/// exactly if it succeeded, and changes nothing else of it.
pub proof fn law_warming_up_only_moves_on<P: Payload, Prod: RbProducer<P>, Cons: RbConsumer<P>>()
    ensures
        forall|w: &mut Worker, producer: &mut Prod, r: bool| #[trigger]
            call_ensures(Worker::warmup_push::<P, Prod>, (w, producer), r) ==> {
                &&& r && w.seq < u64::MAX ==> final(w).seq == w.seq + 1
                &&& !r ==> final(w).seq == w.seq
                &&& final(w).prev_fail == w.prev_fail
                &&& final(w).next_deadline == w.next_deadline
                &&& final(w).measuring == w.measuring
                &&& final(producer).calls() == producer.calls() + 1
            },
        forall|w: &mut Worker, consumer: &Cons, r: Option<bool>| #[trigger]
            call_ensures(Worker::warmup_pop::<P, Cons>, (w, consumer), r) ==> {
                &&& r == Some(true) && w.seq < u64::MAX ==> final(w).seq == w.seq + 1
                &&& r != Some(true) ==> final(w).seq == w.seq
                &&& final(w).prev_fail == w.prev_fail
                &&& final(w).next_deadline == w.next_deadline
                &&& final(w).measuring == w.measuring
            },
{
}

} // verus!
