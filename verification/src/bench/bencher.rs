//! What one thread measures: how many of its attempts succeeded, and how long
//! they took.
//!
//! Reading the clock takes longer than a successful attempt, so successes are
//! timed in batches, with one reading per batch. Failed attempts are timed one
//! by one: the sample is the time between two failures in a row.
//!
//! Times are nanoseconds on a clock that the caller chooses. Measured quantities
//! are kept as exact fractions.

use crate::bench::sort::{is_sorted, sort_samples, Sample};
use vstd::prelude::*;
use vstd::seq_lib::lemma_fold_left_permutation;

verus! {

/// How many successes make a batch.
pub const BATCH_SIZE: u64 = 512;

/// A fraction. Its denominator is not zero.
#[derive(Copy, Clone, Debug, PartialEq, Eq, Structural)]
pub struct Quotient {
    pub num: u128,
    pub den: u128,
}

/// The time that a batch took, over the number of attempts in it.
#[derive(Copy, Clone, Debug, PartialEq, Eq, Structural)]
pub struct BatchMean {
    pub ns: u64,
    pub ops: u64,
}

impl BatchMean {
    /// The denominator of the mean.
    pub open spec fn den(self) -> int {
        if self.ops == 0 {
            1
        } else {
            self.ops as int
        }
    }

    /// The mean as a fraction.
    pub fn quotient(&self) -> (r: Quotient)
        ensures
            r.num == self.ns,
            r.den == self.den(),
            self.ops > 0 ==> r.den == self.ops,
            self.ops == 0 ==> r.den == 1,
    {
        Quotient {
            num: self.ns as u128,
            den: if self.ops == 0 {
                1
            } else {
                self.ops as u128
            },
        }
    }
}

impl Sample for BatchMean {
    open spec fn le(self, other: Self) -> bool {
        self.ns * other.den() <= other.ns * self.den()
    }

    proof fn le_is_total(a: Self, b: Self) {
    }

    proof fn le_is_transitive(a: Self, b: Self, c: Self) {
        let (x, y, z) = (a.ns as int, b.ns as int, c.ns as int);
        let (p, q, r) = (a.den(), b.den(), c.den());
        assert(x * r <= z * p) by (nonlinear_arith)
            requires
                x * q <= y * p,
                y * r <= z * q,
                p > 0,
                q > 0,
                r > 0,
        {
            assert((x * r) * q == (x * q) * r);
            assert((x * q) * r <= (y * p) * r);
            assert((y * p) * r == (y * r) * p);
            assert((y * r) * p <= (z * q) * p);
            assert((z * q) * p == (z * p) * q);
            assert((x * r) * q <= (z * p) * q);
        }
    }

    fn at_most(&self, other: &Self) -> (r: bool) {
        let mine: Quotient = self.quotient();
        let theirs: Quotient = other.quotient();
        assert(mine.num * theirs.den <= u64::MAX * u64::MAX) by (nonlinear_arith)
            requires
                0 <= mine.num <= u64::MAX,
                0 <= theirs.den <= u64::MAX,
        ;
        assert(theirs.num * mine.den <= u64::MAX * u64::MAX) by (nonlinear_arith)
            requires
                0 <= theirs.num <= u64::MAX,
                0 <= mine.den <= u64::MAX,
        ;
        mine.num * theirs.den <= theirs.num * mine.den
    }
}

/// Batches are ordered by their mean times: one comes before another exactly if
/// its time, shared out over as many attempts as the other holds, is not longer.
pub proof fn law_batches_are_ordered_by_mean(a: BatchMean, b: BatchMean)
    requires
        a.ops > 0,
        b.ops > 0,
    ensures
        a.le(b) <==> a.ns * b.ops <= b.ns * a.ops,
        a.ops == b.ops ==> (a.le(b) <==> a.ns <= b.ns),
        a.ns == b.ns && a.ns > 0 ==> (a.le(b) <==> b.ops <= a.ops),
{
    let (x, y) = (a.ns as int, b.ns as int);
    let (p, q) = (a.ops as int, b.ops as int);
    if p == q {
        assert(x * q <= y * p <==> x <= y) by (nonlinear_arith)
            requires
                p == q,
                p > 0,
        ;
    }
    if x == y && x > 0 {
        assert(x * q <= y * p <==> q <= p) by (nonlinear_arith)
            requires
                x == y,
                x > 0,
        ;
    }
}

/// `index` is the place of the `pct`-th percentile among `n` sorted samples:
/// the first sample such that at least `pct` percent of all samples are at or
/// before it. Percentages above one hundred count as one hundred.
pub open spec fn is_nearest_rank(n: nat, pct: nat, index: int) -> bool {
    let p = if pct > 100 {
        100
    } else {
        pct
    };
    &&& 0 <= index < n
    &&& p * n <= 100 * (index + 1)
    &&& index > 0 ==> 100 * index < p * n
}

/// The place of the `pct`-th percentile among `n` sorted samples.
pub fn nearest_rank_index(n: usize, pct: u32) -> (r: Option<usize>)
    ensures
        match r {
            Some(index) => is_nearest_rank(n as nat, pct as nat, index as int),
            None => n == 0,
        },
{
    if n == 0 {
        return None;
    }
    let p: u128 = if pct > 100 {
        100
    } else {
        pct as u128
    };
    let wide: u128 = n as u128;
    assert(0 <= p * wide <= 100 * wide) by (nonlinear_arith)
        requires
            0 <= p <= 100,
            0 <= wide,
    ;
    // The rank is `p * n / 100`, rounded up, and at least one.
    let rank: u128 = (p * wide + 99) / 100;
    if rank == 0 {
        Some(0)
    } else {
        Some((rank - 1) as usize)
    }
}

/// The place of a percentile is the only one, and higher percentages do not
/// come before lower ones.
pub proof fn law_ranks_are_monotone(n: nat, p: nat, q: nat, i: int, j: int)
    requires
        is_nearest_rank(n, p, i),
        is_nearest_rank(n, q, j),
        p <= q,
    ensures
        i <= j,
        p == q ==> i == j,
{
    let pp = if p > 100 {
        100
    } else {
        p
    };
    let qq = if q > 100 {
        100
    } else {
        q
    };
    assert(pp * n <= qq * n) by (nonlinear_arith)
        requires
            pp <= qq,
    ;
}

/// `sorted` holds the samples of `given` in order, and `r` is their `pct`-th
/// percentile, or `None` if there are no samples.
pub open spec fn is_percentile<S: Sample>(
    given: Seq<S>,
    sorted: Seq<S>,
    pct: nat,
    r: Option<S>,
) -> bool {
    &&& is_sorted(sorted)
    &&& sorted.to_multiset() == given.to_multiset()
    &&& sorted.len() == given.len()
    &&& match r {
        Some(x) => exists|i: int| #[trigger]
            is_nearest_rank(given.len(), pct, i) && x == sorted[i],
        None => given.len() == 0,
    }
}

/// Sorts `vals` and gives its `pct`-th percentile, or `None` if there are no
/// samples.
pub fn percentile<S: Sample>(vals: &mut Vec<S>, pct: u32) -> (r: Option<S>)
    ensures
        is_percentile(old(vals)@, final(vals)@, pct as nat, r),
{
    sort_samples(vals);
    match nearest_rank_index(vals.len(), pct) {
        Some(index) => {
            assert(is_nearest_rank(old(vals)@.len(), pct as nat, index as int));
            Some(vals[index])
        },
        None => None,
    }
}

/// Sorts `vals` and gives its `pct`-th percentile, or `None` if there are no
/// samples.
pub fn percentile_u64(vals: &mut Vec<u64>, pct: u32) -> (r: Option<u64>)
    ensures
        is_percentile(old(vals)@, final(vals)@, pct as nat, r),
{
    percentile(vals, pct)
}

/// Of one set of samples, a higher percentile is not smaller than a lower one.
pub proof fn law_percentiles_are_monotone<S: Sample>(s: Seq<S>, p: nat, q: nat, i: int, j: int)
    requires
        is_sorted(s),
        is_nearest_rank(s.len(), p, i),
        is_nearest_rank(s.len(), q, j),
        p <= q,
    ensures
        s[i].le(s[j]),
{
    law_ranks_are_monotone(s.len(), p, q, i, j);
}

/// How many of the samples are at most `x`.
pub open spec fn count_up_to<S: Sample>(s: Seq<S>, x: S) -> nat {
    s.fold_left(
        0,
        |n: nat, y: S|
            if y.le(x) {
                n + 1
            } else {
                n
            },
    )
}

/// How many of the samples are smaller than `x`.
pub open spec fn count_below<S: Sample>(s: Seq<S>, x: S) -> nat {
    s.fold_left(
        0,
        |n: nat, y: S|
            if x.le(y) {
                n
            } else {
                n + 1
            },
    )
}

/// Of sorted samples, those up to place `i` are at most the one there, and at most
/// those before it are smaller.
proof fn lemma_counts_of_sorted<S: Sample>(s: Seq<S>, i: int, n: int)
    requires
        is_sorted(s),
        0 <= i < s.len(),
        0 <= n <= s.len(),
    ensures
        count_up_to(s.take(n), s[i]) >= if n <= i + 1 {
            n
        } else {
            i + 1
        },
        count_below(s.take(n), s[i]) <= if n <= i {
            n
        } else {
            i
        },
    decreases n,
{
    if n > 0 {
        lemma_counts_of_sorted(s, i, n - 1);
        assert(s.take(n).drop_last() =~= s.take(n - 1));
        assert(s.take(n).last() == s[n - 1]);
        if n - 1 <= i {
            assert(s[n - 1].le(s[i]));
        }
        if i <= n - 1 {
            assert(s[i].le(s[n - 1]));
        }
    }
}

/// At least `pct` percent of the samples are at most their `pct`-th percentile,
/// and fewer than `pct` percent are smaller, if any are. The percentile is one of
/// the samples.
pub proof fn law_percentile_parts_the_samples<S: Sample>(
    given: Seq<S>,
    sorted: Seq<S>,
    pct: nat,
    x: S,
)
    requires
        is_percentile(given, sorted, pct, Some(x)),
        pct <= 100,
    ensures
        given.contains(x),
        100 * count_up_to(given, x) >= pct * given.len(),
        count_below(given, x) > 0 ==> 100 * count_below(given, x) < pct * given.len(),
{
    let i = choose|i: int| #[trigger]
        is_nearest_rank(given.len(), pct, i) && x == sorted[i];
    let n = sorted.len() as int;
    lemma_permuted_contains(sorted, given, sorted[i]);
    lemma_counts_of_sorted(sorted, i, n);
    assert(sorted.take(n) =~= sorted);
    lemma_fold_left_permutation(
        sorted,
        given,
        |n: nat, y: S|
            if y.le(x) {
                n + 1
            } else {
                n
            },
        0,
    );
    lemma_fold_left_permutation(
        sorted,
        given,
        |n: nat, y: S|
            if x.le(y) {
                n
            } else {
                n + 1
            },
        0,
    );
}

/// What is at most `y` is smaller than anything that `y` is smaller than.
proof fn lemma_counts_grow<S: Sample>(s: Seq<S>, x: S, y: S)
    requires
        !x.le(y),
    ensures
        count_up_to(s, y) <= count_below(s, x),
    decreases s.len(),
{
    if s.len() > 0 {
        lemma_counts_grow(s.drop_last(), x, y);
        let z = s.last();
        if z.le(y) && x.le(z) {
            S::le_is_transitive(x, z, y);
        }
    }
}

/// A higher percentile is not smaller than a lower one, however each was found.
pub proof fn lemma_percentiles_in_order<S: Sample>(
    given: Seq<S>,
    by_x: Seq<S>,
    by_y: Seq<S>,
    p: nat,
    q: nat,
    x: S,
    y: S,
)
    requires
        is_percentile(given, by_x, p, Some(x)),
        is_percentile(given, by_y, q, Some(y)),
        p <= q <= 100,
    ensures
        x.le(y),
{
    law_percentile_parts_the_samples(given, by_x, p, x);
    law_percentile_parts_the_samples(given, by_y, q, y);
    if !x.le(y) {
        lemma_counts_grow(given, x, y);
        assert(p * given.len() <= q * given.len()) by (nonlinear_arith)
            requires
                p <= q,
        ;
        lemma_count_of_one(given, y);
    }
}

proof fn lemma_count_of_one<S: Sample>(s: Seq<S>, x: S)
    requires
        s.contains(x),
    ensures
        count_up_to(s, x) > 0,
    decreases s.len(),
{
    S::le_is_total(x, x);
    if s.last() != x {
        assert(s.drop_last().contains(x)) by {
            let i = choose|i: int| 0 <= i < s.len() && s[i] == x;
            assert(s.drop_last()[i] == x);
        }
        lemma_count_of_one(s.drop_last(), x);
    }
}

/// The time from `start` to `now`, or none if the clock went backwards.
pub open spec fn elapsed(start: u64, now: u64) -> u64 {
    if now >= start {
        (now - start) as u64
    } else {
        0
    }
}

/// Times add up: what lies between two readings of the clock, added to the first,
/// gives the second, and stretches of time that follow one another give the whole.
/// A clock that went backwards gives no time.
pub proof fn law_times_add_up(a: u64, b: u64, c: u64)
    ensures
        a <= b ==> a + elapsed(a, b) == b,
        a <= b <= c ==> elapsed(a, c) == elapsed(a, b) + elapsed(b, c),
        b <= a ==> elapsed(a, b) == 0,
{
}

/// How many attempts the batches hold.
pub open spec fn batched_ops(batches: Seq<BatchMean>) -> nat {
    batches.fold_left(0, |sum: nat, b: BatchMean| sum + b.ops as nat)
}

proof fn lemma_batched_ops_push(batches: Seq<BatchMean>, b: BatchMean)
    ensures
        batched_ops(batches.push(b)) == batched_ops(batches) + b.ops,
{
    assert(batches.push(b).drop_last() =~= batches);
}

/// Each batch adds the attempts in it.
pub proof fn law_batches_add_up(batches: Seq<BatchMean>, b: BatchMean)
    ensures
        batched_ops(Seq::empty()) == 0,
        batched_ops(batches.push(b)) == batched_ops(batches) + b.ops,
{
    lemma_batched_ops_push(batches, b);
}

proof fn lemma_batched_ops_permuted(a: Seq<BatchMean>, b: Seq<BatchMean>)
    requires
        a.to_multiset() == b.to_multiset(),
    ensures
        batched_ops(a) == batched_ops(b),
{
    lemma_fold_left_permutation(a, b, |sum: nat, b: BatchMean| sum + b.ops as nat, 0);
}

/// What a thread has measured so far.
pub struct StatsState {
    /// Successful attempts.
    pub ok_ops: nat,
    /// Failed attempts.
    pub fail_ops: nat,
    /// The batches that are complete.
    pub batches: Seq<BatchMean>,
    /// The times between failures in a row.
    pub fail_samples: Seq<u64>,
    /// When the measurement began.
    pub window_start: u64,
    /// When it ended.
    pub window_end: u64,
    /// When the batch that is being filled began.
    pub batch_start: u64,
    /// How many successes are in it.
    pub batch_count: nat,
    /// How many complete it.
    pub batch_size: u64,
    /// How many times between failures are kept.
    pub cap_samples: usize,
}

impl StatsState {
    /// Every success is counted in exactly one batch, or in the one that is
    /// being filled, and no batch is empty. A time between failures takes two
    /// of them, and no more are kept than there is room for.
    pub open spec fn inv(self) -> bool {
        &&& batched_ops(self.batches) + self.batch_count == self.ok_ops
        &&& forall|i: int| 0 <= i < self.batches.len() ==> (#[trigger] self.batches[i]).ops > 0
        &&& self.fail_samples.len() <= self.fail_ops
        &&& self.fail_samples.len() <= self.cap_samples
    }

    /// Nothing measured yet.
    pub open spec fn fresh(batch_size: u64, cap_samples: usize, now: u64) -> Self {
        StatsState {
            ok_ops: 0,
            fail_ops: 0,
            batches: Seq::empty(),
            fail_samples: Seq::empty(),
            window_start: now,
            window_end: now,
            batch_start: now,
            batch_count: 0,
            batch_size,
            cap_samples,
        }
    }

    /// After one more success, before its batch is looked at.
    pub open spec fn counted(self) -> Self {
        StatsState { ok_ops: self.ok_ops + 1, batch_count: self.batch_count + 1, ..self }
    }

    /// After the batch that is being filled was closed at `now`, unless it is
    /// empty.
    pub open spec fn flushed(self, now: u64) -> Self {
        if self.batch_count > 0 {
            StatsState {
                batches: self.batches.push(
                    BatchMean {
                        ns: elapsed(self.batch_start, now),
                        ops: self.batch_count as u64,
                    },
                ),
                batch_count: 0,
                ..self
            }
        } else {
            self
        }
    }

    /// After the batch that is being filled was closed at `now` and the next
    /// one begun.
    pub open spec fn next_batch(self, now: u64) -> Self {
        if self.batch_count > 0 {
            StatsState { batch_start: now, ..self.flushed(now) }
        } else {
            self
        }
    }

    /// After a failure at `now`, where `prev_fail` is when the attempt before
    /// failed, if it did. The time between them is kept as long as there is
    /// room.
    pub open spec fn failed(self, prev_fail: Option<u64>, now: u64) -> Self {
        let closed = self.next_batch(now);
        StatsState {
            fail_ops: closed.fail_ops + 1,
            fail_samples: match prev_fail {
                Some(t0) if closed.fail_samples.len() < closed.cap_samples => {
                    closed.fail_samples.push(elapsed(t0, now))
                },
                _ => closed.fail_samples,
            },
            ..closed
        }
    }

    /// After the measurement ended at `now`.
    pub open spec fn sealed(self, now: u64) -> Self {
        StatsState { window_end: now, ..self.flushed(now) }
    }
}

/// Closing a batch loses no success and makes no empty batch.
pub proof fn law_flushing_keeps_every_success(s: StatsState, now: u64)
    requires
        s.inv(),
        s.ok_ops <= u64::MAX,
    ensures
        s.flushed(now).inv(),
        s.next_batch(now).inv(),
        s.flushed(now).batch_count == 0,
        batched_ops(s.flushed(now).batches) == s.ok_ops,
{
    if s.batch_count > 0 {
        lemma_batched_ops_push(
            s.batches,
            BatchMean { ns: elapsed(s.batch_start, now), ops: s.batch_count as u64 },
        );
    }
}

/// A measurement begins with nothing counted and no time passed.
pub proof fn law_a_measurement_begins_with_nothing(batch_size: u64, cap_samples: usize, now: u64)
    ensures
        ({
            let s = StatsState::fresh(batch_size, cap_samples, now);
            &&& s.inv()
            &&& s.ok_ops == 0 && s.fail_ops == 0 && s.batch_count == 0
            &&& s.batches.len() == 0 && s.fail_samples.len() == 0
            &&& s.window_start == now && s.window_end == now && s.batch_start == now
            &&& s.batch_size == batch_size && s.cap_samples == cap_samples
        }),
{
}

/// A success is counted once, in the batch that is being filled, and touches
/// nothing else.
pub proof fn law_a_success_is_counted_once(s: StatsState)
    ensures
        ({
            let t = s.counted();
            &&& t.ok_ops == s.ok_ops + 1
            &&& t.batch_count == s.batch_count + 1
            &&& t.fail_ops == s.fail_ops
            &&& t.batches == s.batches
            &&& t.fail_samples == s.fail_samples
            &&& t.window_start == s.window_start && t.window_end == s.window_end
            &&& t.batch_start == s.batch_start
            &&& t.batch_size == s.batch_size && t.cap_samples == s.cap_samples
        }),
{
}

/// Closing a batch at `now` keeps the batches before it and adds one that holds
/// the successes that were counted and the time since it began. The next batch
/// begins at `now`. An empty batch is not closed.
pub proof fn law_a_batch_takes_the_time_since_it_began(s: StatsState, now: u64)
    requires
        s.inv(),
        s.ok_ops <= u64::MAX,
        s.batch_start <= now,
    ensures
        ({
            let t = s.flushed(now);
            let u = s.next_batch(now);
            &&& t.ok_ops == s.ok_ops && t.fail_ops == s.fail_ops
            &&& t.fail_samples == s.fail_samples
            &&& t.window_start == s.window_start && t.window_end == s.window_end
            &&& t.batch_start == s.batch_start
            &&& t.batch_size == s.batch_size && t.cap_samples == s.cap_samples
            &&& s.batch_count == 0 ==> t == s && u == s
            &&& s.batch_count > 0 ==> {
                &&& t.batches.len() == s.batches.len() + 1
                &&& t.batches.drop_last() == s.batches
                &&& s.batch_start + t.batches.last().ns == now
                &&& t.batches.last().ops == s.batch_count
                &&& t.batch_count == 0
                &&& u == (StatsState { batch_start: u.batch_start, ..t })
                &&& u.batch_start == now
            }
        }),
{
    if s.batch_count > 0 {
        assert(s.flushed(now).batches.drop_last() =~= s.batches);
    }
}

/// A failure at `now` is counted once and closes the batch that is being filled.
/// The time since the failure before it is kept, if there was one and there is
/// room.
pub proof fn law_a_failure_takes_the_time_since_the_last(
    s: StatsState,
    prev_fail: Option<u64>,
    now: u64,
)
    requires
        s.inv(),
        prev_fail matches Some(t0) ==> t0 <= now,
    ensures
        ({
            let t = s.failed(prev_fail, now);
            &&& t.fail_ops == s.fail_ops + 1
            &&& t.ok_ops == s.ok_ops
            &&& t.batch_count == 0
            &&& t.batches == s.next_batch(now).batches
            &&& t.batch_start == s.next_batch(now).batch_start
            &&& t.window_start == s.window_start && t.window_end == s.window_end
            &&& t.batch_size == s.batch_size && t.cap_samples == s.cap_samples
            &&& match prev_fail {
                Some(t0) if s.fail_samples.len() < s.cap_samples => {
                    &&& t.fail_samples.len() == s.fail_samples.len() + 1
                    &&& t.fail_samples.drop_last() == s.fail_samples
                    &&& t0 + t.fail_samples.last() == now
                },
                _ => t.fail_samples == s.fail_samples,
            }
        }),
{
    if let Some(t0) = prev_fail {
        if s.fail_samples.len() < s.cap_samples {
            assert(s.failed(prev_fail, now).fail_samples.drop_last() =~= s.fail_samples);
        }
    }
}

/// Ending the measurement at `now` sets where its window ends, closes the batch
/// that is being filled, and counts nothing.
pub proof fn law_sealing_ends_the_window(s: StatsState, now: u64)
    ensures
        ({
            let t = s.sealed(now);
            &&& t.window_end == now
            &&& t.window_start == s.window_start
            &&& t.ok_ops == s.ok_ops && t.fail_ops == s.fail_ops
            &&& t.batches == s.flushed(now).batches
            &&& t.fail_samples == s.fail_samples
            &&& s.window_start <= now ==> t.window_start + elapsed(t.window_start, t.window_end) == now
        }),
{
}

/// Once the measurement has ended, the batches hold exactly the successes.
pub proof fn law_sealed_batches_hold_every_success(s: StatsState, now: u64)
    requires
        s.inv(),
        s.ok_ops <= u64::MAX,
    ensures
        s.sealed(now).inv(),
        batched_ops(s.sealed(now).batches) == s.sealed(now).ok_ops,
{
    law_flushing_keeps_every_success(s, now);
}

/// However many failures there are, no more times between them are kept than
/// there is room for, and every failure is counted.
pub proof fn law_failure_times_are_bounded(s: StatsState, prev_fail: Option<u64>, now: u64)
    requires
        s.inv(),
    ensures
        s.failed(prev_fail, now).fail_samples.len() <= s.cap_samples,
        s.failed(prev_fail, now).cap_samples == s.cap_samples,
        s.failed(prev_fail, now).fail_ops == s.fail_ops + 1,
{
}

/// What one thread measures. Producers and consumers measure the same things:
/// for a consumer, an attempt is a pop.
#[derive(Debug)]
pub struct PushStats {
    /// Successful attempts.
    pub ok_ops: u64,
    /// Failed attempts.
    pub fail_ops: u64,
    /// The mean times of the complete batches.
    pub lat_batches: Vec<BatchMean>,
    /// The times between failures in a row.
    pub fail_lat_samples: Vec<u64>,
    /// When the measurement began.
    pub window_start: u64,
    /// When it ended.
    pub window_end: u64,
    /// When the batch that is being filled began.
    pub batch_start: u64,
    /// How many successes are in it.
    pub batch_count: u64,
    /// How many complete it.
    pub batch_size: u64,
    /// How many times between failures are kept.
    pub cap_samples: usize,
}

/// What a consumer measures.
pub type PopStats = PushStats;

impl View for PushStats {
    type V = StatsState;

    open spec fn view(&self) -> StatsState {
        StatsState {
            ok_ops: self.ok_ops as nat,
            fail_ops: self.fail_ops as nat,
            batches: self.lat_batches@,
            fail_samples: self.fail_lat_samples@,
            window_start: self.window_start,
            window_end: self.window_end,
            batch_start: self.batch_start,
            batch_count: self.batch_count as nat,
            batch_size: self.batch_size,
            cap_samples: self.cap_samples,
        }
    }
}

/// The time from `start` to `now`, or none if the clock went backwards.
fn time_between(start: u64, now: u64) -> (r: u64)
    ensures
        r == elapsed(start, now),
        start <= now ==> start + r == now,
        now <= start ==> r == 0,
{
    if now >= start {
        now - start
    } else {
        0
    }
}

/// `b` is one of the batches, and none is larger.
pub open spec fn is_largest(batches: Seq<BatchMean>, b: BatchMean) -> bool {
    &&& batches.contains(b)
    &&& forall|i: int| 0 <= i < batches.len() ==> (#[trigger] batches[i]).le(b)
}

/// No batch has a larger mean than the largest one: its time, shared out over as
/// many attempts as the largest holds, is not longer.
pub proof fn law_largest_mean_tops_every_batch(batches: Seq<BatchMean>, m: BatchMean)
    requires
        is_largest(batches, m),
        forall|i: int| 0 <= i < batches.len() ==> (#[trigger] batches[i]).ops > 0,
    ensures
        batches.contains(m),
        m.ops > 0,
        forall|i: int|
            0 <= i < batches.len() ==> (#[trigger] batches[i]).ns * m.ops <= m.ns * batches[i].ops,
{
    assert forall|i: int| 0 <= i < batches.len() implies (#[trigger] batches[i]).ns * m.ops <= m.ns
        * batches[i].ops by {
        assert(batches[i].le(m));
    }
}

/// No percentile of the batch means is larger than the largest mean, and the
/// hundredth is as large.
pub proof fn law_largest_mean_tops_percentiles(
    batches: Seq<BatchMean>,
    sorted: Seq<BatchMean>,
    pct: nat,
    x: BatchMean,
    m: BatchMean,
)
    requires
        is_percentile(batches, sorted, pct, Some(x)),
        is_largest(batches, m),
        forall|i: int| 0 <= i < batches.len() ==> (#[trigger] batches[i]).ops > 0,
    ensures
        x.ns * m.ops <= m.ns * x.ops,
        pct >= 100 ==> x.ns * m.ops == m.ns * x.ops,
{
    let i = choose|i: int| #[trigger]
        is_nearest_rank(batches.len(), pct, i) && x == sorted[i];
    lemma_permuted_contains(sorted, batches, sorted[i]);
    let k = choose|k: int| 0 <= k < batches.len() && batches[k] == x;
    assert(batches[k].le(m));
    if pct >= 100 {
        lemma_permuted_contains(batches, sorted, m);
        let j = choose|j: int| 0 <= j < sorted.len() && sorted[j] == m;
        assert(sorted[j].le(sorted[i]));
    }
}

proof fn lemma_permuted_contains<S>(a: Seq<S>, b: Seq<S>, x: S)
    requires
        a.to_multiset() == b.to_multiset(),
        a.contains(x),
    ensures
        b.contains(x),
{
    broadcast use vstd::seq_lib::group_to_multiset_ensures;

    assert(a.to_multiset().count(x) > 0);
}

impl PushStats {
    /// Nothing measured yet, with room for about `est_batches` batches and at
    /// most `cap_samples` failure times.
    pub fn new(batch_size: u64, est_batches: usize, cap_samples: usize, now: u64) -> (r: Self)
        ensures
            r@ == StatsState::fresh(batch_size, cap_samples, now),
            r@.inv(),
    {
        let r = PushStats {
            ok_ops: 0,
            fail_ops: 0,
            lat_batches: Vec::with_capacity(est_batches),
            fail_lat_samples: Vec::with_capacity(cap_samples),
            window_start: now,
            window_end: now,
            batch_start: now,
            batch_count: 0,
            batch_size,
            cap_samples,
        };
        assert(r@ == StatsState::fresh(batch_size, cap_samples, now));
        r
    }

    /// Forgets everything measured and begins the measurement at `now`.
    pub fn reset(&mut self, now: u64)
        ensures
            final(self)@ == StatsState::fresh(
                old(self)@.batch_size,
                old(self)@.cap_samples,
                now,
            ),
            final(self)@.inv(),
    {
        self.ok_ops = 0;
        self.fail_ops = 0;
        self.lat_batches.clear();
        self.fail_lat_samples.clear();
        self.batch_start = now;
        self.batch_count = 0;
        self.window_start = now;
        self.window_end = now;
        assert(self@ == StatsState::fresh(old(self)@.batch_size, old(self)@.cap_samples, now));
    }

    /// Closes the batch that is being filled, unless it is empty.
    fn flush(&mut self, now: u64)
        requires
            old(self)@.inv(),
        ensures
            final(self)@ == old(self)@.flushed(now),
            final(self)@.inv(),
    {
        proof {
            law_flushing_keeps_every_success(self@, now);
        }
        if self.batch_count > 0 {
            let ns: u64 = time_between(self.batch_start, now);
            self.lat_batches.push(BatchMean { ns, ops: self.batch_count });
            self.batch_count = 0;
        }
        assert(self@ == old(self)@.flushed(now));
    }

    /// Closes the batch that is being filled and begins the next one.
    fn begin_next_batch(&mut self, now: u64)
        requires
            old(self)@.inv(),
        ensures
            final(self)@ == old(self)@.next_batch(now),
            final(self)@.inv(),
    {
        if self.batch_count > 0 {
            self.flush(now);
            self.batch_start = now;
        }
        assert(self@ == old(self)@.next_batch(now));
    }

    /// Counts a success. The clock is read only if it completes a batch.
    pub fn record_ok<C: FnOnce() -> u64>(&mut self, clock: C)
        requires
            old(self)@.inv(),
            old(self)@.ok_ops < u64::MAX,
            clock.requires(()),
        ensures
            final(self)@.inv(),
            if old(self)@.batch_count + 1 < old(self)@.batch_size {
                final(self)@ == old(self)@.counted()
            } else {
                exists|now: u64| #[trigger]
                    clock.ensures((), now) && final(self)@ == old(self)@.counted().next_batch(now)
            },
    {
        self.ok_ops = self.ok_ops + 1;
        self.batch_count = self.batch_count + 1;
        assert(self@ == old(self)@.counted());
        if self.batch_count >= self.batch_size {
            let now: u64 = clock();
            self.begin_next_batch(now);
        }
    }

    /// Counts a failure at `now`. If the attempt before failed too, at
    /// `prev_fail`, the time between them is a sample, which is kept as long as
    /// there is room. The batch that is being filled is closed, so that the
    /// failure does not count towards its time.
    pub fn record_fail(&mut self, prev_fail: Option<u64>, now: u64)
        requires
            old(self)@.inv(),
            old(self)@.fail_ops < u64::MAX,
        ensures
            final(self)@ == old(self)@.failed(prev_fail, now),
            final(self)@.inv(),
    {
        self.begin_next_batch(now);
        self.fail_ops = self.fail_ops + 1;
        if let Some(t0) = prev_fail {
            if self.fail_lat_samples.len() < self.cap_samples {
                self.fail_lat_samples.push(time_between(t0, now));
            }
        }
        assert(self@ == old(self)@.failed(prev_fail, now));
    }

    /// Ends the measurement at `now`.
    pub fn seal(&mut self, now: u64)
        requires
            old(self)@.inv(),
        ensures
            final(self)@ == old(self)@.sealed(now),
            final(self)@.inv(),
    {
        self.flush(now);
        self.window_end = now;
        assert(self@ == old(self)@.sealed(now));
    }

    /// How long the measurement took.
    pub fn window_ns(&self) -> (r: u64)
        ensures
            r == elapsed(self@.window_start, self@.window_end),
            self@.window_start <= self@.window_end ==> self@.window_start + r == self@.window_end,
            self@.window_end <= self@.window_start ==> r == 0,
    {
        time_between(self.window_start, self.window_end)
    }

    /// Successes per second, or zero if the measurement took no time.
    pub fn throughput(&self) -> (r: Quotient)
        ensures
            ({
                let ns = elapsed(self@.window_start, self@.window_end);
                if ns == 0 {
                    r.num == 0 && r.den == 1
                } else {
                    r.num == self@.ok_ops * 1_000_000_000 && r.den == ns
                }
            }),
            self@.window_start < self@.window_end ==> r.num == self@.ok_ops * 1_000_000_000
                && self@.window_start + r.den == self@.window_end,
            self@.window_end <= self@.window_start ==> r.num == 0 && r.den == 1,
    {
        let ns: u64 = self.window_ns();
        if ns == 0 {
            Quotient { num: 0, den: 1 }
        } else {
            Quotient { num: self.ok_ops as u128 * 1_000_000_000, den: ns as u128 }
        }
    }

    /// Which part of all attempts failed, or zero if there were none.
    pub fn fail_rate(&self) -> (r: Quotient)
        ensures
            if self@.ok_ops + self@.fail_ops == 0 {
                r.num == 0 && r.den == 1
            } else {
                r.num == self@.fail_ops && r.den == self@.ok_ops + self@.fail_ops
            },
            r.num <= r.den,
            r.den > 0,
    {
        let total: u128 = self.ok_ops as u128 + self.fail_ops as u128;
        if total == 0 {
            Quotient { num: 0, den: 1 }
        } else {
            Quotient { num: self.fail_ops as u128, den: total }
        }
    }

    /// A percentile of the batch means. The batches are sorted on the way.
    fn lat_percentile(&mut self, pct: u32) -> (r: Option<BatchMean>)
        requires
            old(self)@.inv(),
        ensures
            final(self)@ == (StatsState { batches: final(self)@.batches, ..old(self)@ }),
            final(self)@.inv(),
            is_percentile(old(self)@.batches, final(self)@.batches, pct as nat, r),
    {
        let r: Option<BatchMean> = percentile(&mut self.lat_batches, pct);
        proof {
            broadcast use vstd::seq_lib::group_to_multiset_ensures;

            lemma_batched_ops_permuted(old(self)@.batches, self@.batches);
            let before = old(self)@.batches;
            let after = self@.batches;
            assert forall|i: int| 0 <= i < after.len() implies (#[trigger] after[i]).ops > 0 by {
                assert(after.to_multiset().count(after[i]) > 0) by {
                    assert(after.contains(after[i]));
                }
                assert(before.contains(after[i]));
            }
        }
        r
    }

    /// A percentile of the times between failures. The times are sorted on the
    /// way.
    fn fail_percentile(&mut self, pct: u32) -> (r: Option<u64>)
        requires
            old(self)@.inv(),
        ensures
            final(self)@ == (StatsState { fail_samples: final(self)@.fail_samples, ..old(self)@ }),
            final(self)@.inv(),
            is_percentile(old(self)@.fail_samples, final(self)@.fail_samples, pct as nat, r),
    {
        percentile_u64(&mut self.fail_lat_samples, pct)
    }

    /// The median of the batch means, `None` if there are no batches. The
    /// batches are sorted on the way.
    pub fn lat_p50(&mut self) -> (r: Option<BatchMean>)
        requires
            old(self)@.inv(),
        ensures
            final(self)@ == (StatsState { batches: final(self)@.batches, ..old(self)@ }),
            final(self)@.inv(),
            is_percentile(old(self)@.batches, final(self)@.batches, 50, r),
    {
        self.lat_percentile(50)
    }

    /// The 99th percentile of the batch means, `None` if there are no batches.
    /// The batches are sorted on the way.
    pub fn lat_p99(&mut self) -> (r: Option<BatchMean>)
        requires
            old(self)@.inv(),
        ensures
            final(self)@ == (StatsState { batches: final(self)@.batches, ..old(self)@ }),
            final(self)@.inv(),
            is_percentile(old(self)@.batches, final(self)@.batches, 99, r),
    {
        self.lat_percentile(99)
    }

    /// The largest batch mean, `None` if there are no batches.
    pub fn lat_max(&self) -> (r: Option<BatchMean>)
        ensures
            match r {
                Some(x) => is_largest(self@.batches, x),
                None => self@.batches.len() == 0,
            },
            r matches Some(x) ==> forall|i: int|
                0 <= i < self@.batches.len() ==> (#[trigger] self@.batches[i]).ns * x.den() <= x.ns
                    * self@.batches[i].den(),
    {
        if self.lat_batches.len() == 0 {
            return None;
        }
        let mut largest: BatchMean = self.lat_batches[0];
        let mut i: usize = 1;
        proof {
            assert(self.lat_batches@[0] == largest);
        }
        while i < self.lat_batches.len()
            invariant
                1 <= i <= self.lat_batches@.len(),
                self.lat_batches@.contains(largest),
                forall|k: int| 0 <= k < i ==> (#[trigger] self.lat_batches@[k]).le(largest),
            decreases self.lat_batches@.len() - i,
        {
            let candidate: BatchMean = self.lat_batches[i];
            if !candidate.at_most(&largest) {
                proof {
                    BatchMean::le_is_total(candidate, largest);
                    BatchMean::le_is_total(candidate, candidate);
                    assert forall|k: int| 0 <= k < i + 1 implies (#[trigger] self.lat_batches@[k]).le(
                        candidate,
                    ) by {
                        if k < i {
                            BatchMean::le_is_transitive(self.lat_batches@[k], largest, candidate);
                        }
                    }
                }
                largest = candidate;
            }
            i += 1;
        }
        assert(forall|k: int|
            0 <= k < self@.batches.len() ==> (#[trigger] self@.batches[k]).le(largest));
        Some(largest)
    }

    /// The median time between failures, `None` if there are no samples. The
    /// times are sorted on the way.
    pub fn fail_lat_p50(&mut self) -> (r: Option<u64>)
        requires
            old(self)@.inv(),
        ensures
            final(self)@ == (StatsState { fail_samples: final(self)@.fail_samples, ..old(self)@ }),
            final(self)@.inv(),
            is_percentile(old(self)@.fail_samples, final(self)@.fail_samples, 50, r),
    {
        self.fail_percentile(50)
    }

    /// The 99th percentile of the times between failures, `None` if there are
    /// no samples. The times are sorted on the way.
    pub fn fail_lat_p99(&mut self) -> (r: Option<u64>)
        requires
            old(self)@.inv(),
        ensures
            final(self)@ == (StatsState { fail_samples: final(self)@.fail_samples, ..old(self)@ }),
            final(self)@.inv(),
            is_percentile(old(self)@.fail_samples, final(self)@.fail_samples, 99, r),
    {
        self.fail_percentile(99)
    }
}

} // verus!
