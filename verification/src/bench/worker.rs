//! The steps of the threads that push and pop.
//!
//! A thread first runs without being measured, then is measured until it is
//! told to stop. Items are numbered from zero on, through both phases: only what
//! was measured is forgotten in between, not the number of the next item.

use crate::bench::backend::{RbConsumer, RbProducer};
use crate::bench::bencher::{PopStats, PushStats, StatsState};
use crate::bench::scenario::Payload;
use crate::ring_buffer::model::RingState;
use crate::ring_buffer::steps::{pops, pushes, SharedRing};
use crate::ring_buffer::vault::{opened, Vault};
use vstd::prelude::*;

verus! {

/// The phase in which nothing is measured yet.
pub const PHASE_WARMUP: u8 = 0;

/// The phase that is measured.
pub const PHASE_MEASURE: u8 = 1;

/// The number after `seq`, counting past the largest word from zero again.
pub open spec fn next_number(seq: u64) -> u64 {
    if seq == u64::MAX {
        0
    } else {
        (seq + 1) as u64
    }
}

/// A second divided by `rate`, to the nearest nanosecond, and to the even one if
/// two are as near.
pub open spec fn nearest_period(rate: nat) -> nat {
    let whole = 1_000_000_000nat / rate;
    let rest = 1_000_000_000nat % rate;
    if 2 * rest < rate || (2 * rest == rate && whole % 2 == 0) {
        whole
    } else {
        whole + 1
    }
}

/// The time between two attempts of a thread that makes `rate` attempts per
/// second. There is none for a thread that makes no attempts.
pub fn attempt_period(rate: u128) -> (r: Option<u64>)
    ensures
        match r {
            Some(p) => rate > 0 && p == nearest_period(rate as nat),
            None => rate == 0,
        },
{
    if rate == 0 {
        return None;
    }
    let whole: u128 = 1_000_000_000 / rate;
    let rest: u128 = 1_000_000_000 % rate;
    assert(whole <= 1_000_000_000 && rest <= 1_000_000_000) by (nonlinear_arith)
        requires
            0 < rate,
            whole == 1_000_000_000u128 / rate,
            rest == 1_000_000_000u128 % rate,
    ;
    if 2 * rest < rate || (2 * rest == rate && whole % 2 == 0) {
        Some(whole as u64)
    } else {
        Some((whole + 1) as u64)
    }
}

/// What a thread does next.
#[derive(Copy, Clone, Debug, PartialEq, Eq, Structural)]
pub enum Step {
    /// One attempt that is not measured.
    WarmUp,
    /// Wait for the other threads, then begin the measurement.
    Begin,
    /// One measured attempt.
    Attempt,
    /// End the measurement.
    Finish,
}

/// Where a thread is.
#[derive(Copy, Clone, Debug, PartialEq, Eq, Structural)]
pub struct Worker {
    /// The number of the item that is pushed or expected next.
    pub seq: u64,
    /// When the last attempt failed, if it did.
    pub prev_fail: Option<u64>,
    /// When the next attempt is due.
    pub next_deadline: u64,
    /// The time between two attempts, `None` to make them as fast as possible.
    pub period: Option<u64>,
    /// Whether the measurement has begun.
    pub measuring: bool,
}

impl Worker {
    /// After an attempt that succeeded.
    pub open spec fn advanced(self) -> Self {
        Worker { seq: next_number(self.seq), prev_fail: None, ..self }
    }

    /// After an attempt that failed at `now`.
    pub open spec fn held_up(self, now: u64) -> Self {
        Worker { prev_fail: Some(now), ..self }
    }

    /// At the first item.
    pub fn new(period: Option<u64>) -> (r: Self)
        ensures
            r == (Worker {
                seq: 0,
                prev_fail: None,
                next_deadline: 0,
                period,
                measuring: false,
            }),
    {
        Worker { seq: 0, prev_fail: None, next_deadline: 0, period, measuring: false }
    }

    /// What to do next, given what the coordinator says. A thread that is told
    /// to stop before its measurement has begun begins it all the same: the
    /// others wait for it.
    pub fn next_step(&self, phase: u8, stop: bool) -> (r: Step)
        ensures
            r == match (self.measuring, phase == PHASE_WARMUP, stop) {
                (false, true, _) => Step::WarmUp,
                (false, false, _) => Step::Begin,
                (true, _, false) => Step::Attempt,
                (true, _, true) => Step::Finish,
            },
    {
        if self.measuring {
            if stop {
                Step::Finish
            } else {
                Step::Attempt
            }
        } else if phase == PHASE_WARMUP {
            Step::WarmUp
        } else {
            Step::Begin
        }
    }

    /// Begins the measurement at `now`. The number of the next item stays.
    pub fn begin_measuring(&mut self, stats: &mut PushStats, now: u64)
        requires
            old(self).period matches Some(p) ==> now + p <= u64::MAX,
        ensures
            final(self).seq == old(self).seq,
            final(self).period == old(self).period,
            final(self).prev_fail is None,
            final(self).measuring,
            final(self).next_deadline == now + match old(self).period {
                Some(p) => p as int,
                None => 0,
            },
            final(stats)@ == StatsState::fresh(
                old(stats)@.batch_size,
                old(stats)@.cap_samples,
                now,
            ),
            final(stats)@.inv(),
    {
        stats.reset(now);
        self.prev_fail = None;
        self.measuring = true;
        self.next_deadline = match self.period {
            Some(p) => now + p,
            None => now,
        };
    }

    /// When to make the next attempt, after one was made; `None` for at once.
    pub fn next_attempt(&mut self) -> (r: Option<u64>)
        requires
            old(self).period matches Some(p) ==> old(self).next_deadline + p <= u64::MAX,
        ensures
            match old(self).period {
                Some(p) => {
                    &&& r == Some((old(self).next_deadline + p) as u64)
                    &&& *final(self) == (Worker {
                        next_deadline: (old(self).next_deadline + p) as u64,
                        ..*old(self)
                    })
                },
                None => r is None && *final(self) == *old(self),
            },
    {
        match self.period {
            Some(p) => {
                self.next_deadline = self.next_deadline + p;
                Some(self.next_deadline)
            },
            None => None,
        }
    }

    /// One attempt to push that is not measured. Returns whether the item was
    /// accepted.
    pub fn warmup_push<P: Payload, Prod: RbProducer<P>>(&mut self, producer: &mut Prod) -> (r: bool)
        ensures
            final(producer).ring_lock() == old(producer).ring_lock(),
            final(producer).capacity() == old(producer).capacity(),
            final(producer).calls() == old(producer).calls() + 1,
            exists|item: P, answer: Result<(), P>| #[trigger]
                push_reported(item, old(self).seq, answer, r) && ((old(producer).hindered()
                    && answer == Err::<(), P>(item)) || (old(producer).unhindered() && exists|
                    vault: &mut Vault<Prod::Ring>,
                | #[trigger]
                    opened(&*old(producer).ring_lock(), vault) && pushes(
                        vault.held().state(),
                        final(vault).held().state(),
                        old(producer).capacity(),
                        item,
                        answer,
                    ))),
            final(self).seq == if r {
                next_number(old(self).seq)
            } else {
                old(self).seq
            },
            *final(self) == (Worker { seq: final(self).seq, ..*old(self) }),
    {
        let item: P = P::from_seq(self.seq);
        let ghost pushed: P = item;
        let answer: Result<(), P> = producer.try_push(item);
        assert(push_reported(pushed, self.seq, answer, answer is Ok));
        let accepted: bool = answer.is_ok();
        if accepted {
            self.seq = self.seq.wrapping_add(1);
        }
        accepted
    }

    /// One measured attempt to push. Returns whether the item was accepted. The
    /// clock is read if the item was not accepted, or if it completes a batch.
    pub fn measured_push<P: Payload, Prod: RbProducer<P>, C: Fn() -> u64>(
        &mut self,
        producer: &mut Prod,
        stats: &mut PushStats,
        clock: C,
    ) -> (r: bool)
        requires
            old(stats)@.inv(),
            old(stats)@.ok_ops < u64::MAX,
            old(stats)@.fail_ops < u64::MAX,
            clock.requires(()),
        ensures
            final(producer).ring_lock() == old(producer).ring_lock(),
            final(producer).capacity() == old(producer).capacity(),
            final(producer).calls() == old(producer).calls() + 1,
            exists|item: P, answer: Result<(), P>| #[trigger]
                push_reported(item, old(self).seq, answer, r) && ((old(producer).hindered()
                    && answer == Err::<(), P>(item)) || (old(producer).unhindered() && exists|
                    vault: &mut Vault<Prod::Ring>,
                | #[trigger]
                    opened(&*old(producer).ring_lock(), vault) && pushes(
                        vault.held().state(),
                        final(vault).held().state(),
                        old(producer).capacity(),
                        item,
                        answer,
                    ))),
            final(stats)@.inv(),
            attempt_recorded(*old(self), *final(self), old(stats)@, final(stats)@, clock, r),
    {
        let item: P = P::from_seq(self.seq);
        let ghost pushed: P = item;
        let answer: Result<(), P> = producer.try_push(item);
        assert(push_reported(pushed, self.seq, answer, answer is Ok));
        if answer.is_ok() {
            self.succeeded(stats, clock);
            true
        } else {
            self.failed(stats, clock);
            false
        }
    }

    /// One attempt to pop that is not measured. An item that is not the expected
    /// one is an error: `None`. Otherwise returns whether there was an item.
    pub fn warmup_pop<P: Payload, Cons: RbConsumer<P>>(&mut self, consumer: &Cons) -> (r: Option<
        bool,
    >)
        ensures
            exists|answer: Option<P>| #[trigger]
                pop_reported(answer, old(self).seq, r) && ((consumer.hindered() && answer is None)
                    || (consumer.unhindered() && exists|vault: &mut Vault<Cons::Ring>| #[trigger]
                    opened(&*consumer.ring_lock(), vault) && pops(
                        vault.held().state(),
                        final(vault).held().state(),
                        consumer.capacity(),
                        consumer.place(),
                        answer,
                    ))),
            final(self).seq == if r == Some(true) {
                next_number(old(self).seq)
            } else {
                old(self).seq
            },
            *final(self) == (Worker { seq: final(self).seq, ..*old(self) }),
    {
        let answer: Option<P> = consumer.try_pop();
        let ghost given = answer;
        match answer {
            Some(item) => {
                if item.verify(self.seq) {
                    self.seq = self.seq.wrapping_add(1);
                    assert(pop_reported(given, old(self).seq, Some(true)));
                    Some(true)
                } else {
                    assert(pop_reported(given, old(self).seq, None));
                    None
                }
            },
            None => {
                assert(pop_reported(given, old(self).seq, Some(false)));
                Some(false)
            },
        }
    }

    /// One measured attempt to pop. An item that is not the expected one is an
    /// error: `None`, and nothing is recorded. Otherwise returns whether there
    /// was an item.
    pub fn measured_pop<P: Payload, Cons: RbConsumer<P>, C: Fn() -> u64>(
        &mut self,
        consumer: &Cons,
        stats: &mut PopStats,
        clock: C,
    ) -> (r: Option<bool>)
        requires
            old(stats)@.inv(),
            old(stats)@.ok_ops < u64::MAX,
            old(stats)@.fail_ops < u64::MAX,
            clock.requires(()),
        ensures
            exists|answer: Option<P>| #[trigger]
                pop_reported(answer, old(self).seq, r) && ((consumer.hindered() && answer is None)
                    || (consumer.unhindered() && exists|vault: &mut Vault<Cons::Ring>| #[trigger]
                    opened(&*consumer.ring_lock(), vault) && pops(
                        vault.held().state(),
                        final(vault).held().state(),
                        consumer.capacity(),
                        consumer.place(),
                        answer,
                    ))),
            final(stats)@.inv(),
            match r {
                Some(popped) => attempt_recorded(
                    *old(self),
                    *final(self),
                    old(stats)@,
                    final(stats)@,
                    clock,
                    popped,
                ),
                None => *final(self) == *old(self) && final(stats)@ == old(stats)@,
            },
    {
        let answer: Option<P> = consumer.try_pop();
        let ghost given = answer;
        match answer {
            Some(item) => {
                if item.verify(self.seq) {
                    self.succeeded(stats, clock);
                    assert(pop_reported(given, old(self).seq, Some(true)));
                    Some(true)
                } else {
                    assert(pop_reported(given, old(self).seq, None));
                    None
                }
            },
            None => {
                self.failed(stats, clock);
                assert(pop_reported(given, old(self).seq, Some(false)));
                Some(false)
            },
        }
    }

    fn succeeded<C: Fn() -> u64>(&mut self, stats: &mut PushStats, clock: C)
        requires
            old(stats)@.inv(),
            old(stats)@.ok_ops < u64::MAX,
            clock.requires(()),
        ensures
            final(stats)@.inv(),
            attempt_recorded(*old(self), *final(self), old(stats)@, final(stats)@, clock, true),
    {
        stats.record_ok(clock);
        self.prev_fail = None;
        self.seq = self.seq.wrapping_add(1);
    }

    fn failed<C: Fn() -> u64>(&mut self, stats: &mut PushStats, clock: C)
        requires
            old(stats)@.inv(),
            old(stats)@.fail_ops < u64::MAX,
            clock.requires(()),
        ensures
            final(stats)@.inv(),
            attempt_recorded(*old(self), *final(self), old(stats)@, final(stats)@, clock, false),
    {
        let now: u64 = clock();
        stats.record_fail(self.prev_fail, now);
        self.prev_fail = Some(now);
    }
}

/// The number of the item at `index`, counting past the largest word from zero
/// again.
pub open spec fn number_at(index: nat) -> u64 {
    (index % 0x1_0000_0000_0000_0000) as u64
}

/// Every item of the stream has the number of its place.
pub open spec fn numbered<P: Payload>(stream: Seq<P>) -> bool {
    forall|i: int| 0 <= i < stream.len() ==> (#[trigger] stream[i]).is_number(number_at(i as nat))
}

/// If the producer numbers its items through, every consumer that counts what it
/// has read finds the number that it expects.
pub proof fn law_consumers_find_the_numbers_they_expect<P: Payload>(
    s: RingState<P>,
    item: P,
    capacity: nat,
    c: int,
)
    requires
        s.inv(capacity),
        numbered(s.stream),
        item.is_number(number_at(s.tail())),
        0 <= c < s.heads.len(),
    ensures
        numbered(s.pushed(item).stream),
        next_number(number_at(s.tail())) == number_at(s.pushed(item).tail()),
        s.has_next(c) ==> s.next(c).is_number(number_at(s.heads[c])),
        s.has_next(c) ==> next_number(number_at(s.heads[c])) == number_at(s.popped(c).heads[c]),
{
}

/// Numbers begin at zero and each is one more than the one before, counting past
/// the largest from zero again.
pub proof fn law_numbers_count_up(index: nat, seq: u64)
    ensures
        number_at(0) == 0,
        number_at(index + 1) == next_number(number_at(index)),
        seq < u64::MAX ==> next_number(seq) == seq + 1,
        next_number(u64::MAX) == 0,
{
}

/// A success moves a thread on by one item and forgets the last failure; a failure
/// keeps the item and is remembered. Neither touches the schedule.
pub proof fn law_only_successes_move_on(w: Worker, now: u64)
    ensures
        w.seq < u64::MAX ==> w.advanced().seq == w.seq + 1,
        w.seq == u64::MAX ==> w.advanced().seq == 0,
        w.advanced().prev_fail is None,
        w.held_up(now).seq == w.seq,
        w.held_up(now).prev_fail == Some(now),
        w.advanced().next_deadline == w.next_deadline,
        w.advanced().period == w.period,
        w.advanced().measuring == w.measuring,
        w.held_up(now).next_deadline == w.next_deadline,
        w.held_up(now).period == w.period,
        w.held_up(now).measuring == w.measuring,
{
}

/// A measured attempt is counted once, as what it was, and moves the thread on
/// exactly if it succeeded. A success completes a batch exactly if as many as a
/// batch takes have come together; a failure is timed by the clock.
pub proof fn law_attempts_are_counted_once<C: Fn() -> u64>(
    before: Worker,
    after: Worker,
    stats_before: StatsState,
    stats_after: StatsState,
    clock: C,
    success: bool,
)
    requires
        attempt_recorded(before, after, stats_before, stats_after, clock, success),
        stats_before.inv(),
    ensures
        stats_after.ok_ops + stats_after.fail_ops == stats_before.ok_ops + stats_before.fail_ops + 1,
        stats_after.ok_ops == stats_before.ok_ops + if success {
            1int
        } else {
            0
        },
        success <==> after.prev_fail is None,
        after.seq == if success {
            next_number(before.seq)
        } else {
            before.seq
        },
        after.next_deadline == before.next_deadline,
        after.period == before.period,
        after.measuring == before.measuring,
        !success ==> clock.ensures((), after.prev_fail->0),
        !success ==> stats_after.batch_count == 0,
        success && stats_before.batch_count + 1 < stats_before.batch_size
            ==> stats_after.batch_count == stats_before.batch_count + 1 && stats_after.batches
            == stats_before.batches,
        success && stats_before.batch_count + 1 >= stats_before.batch_size
            ==> stats_after.batch_count == 0 && stats_after.batches.len()
            == stats_before.batches.len() + 1 && clock.ensures((), stats_after.batch_start),
        success ==> stats_after.fail_samples == stats_before.fail_samples,
        !success && (before.prev_fail is None || stats_before.fail_samples.len()
            >= stats_before.cap_samples) ==> stats_after.fail_samples == stats_before.fail_samples,
        !success && stats_before.fail_samples.len() < stats_before.cap_samples ==> (
        before.prev_fail matches Some(t0) ==> stats_after.fail_samples.len()
            == stats_before.fail_samples.len() + 1 && (t0 <= after.prev_fail->0 ==> t0
            + stats_after.fail_samples.last() == after.prev_fail->0)),
        !success && stats_before.batch_count > 0 ==> stats_after.batches.len()
            == stats_before.batches.len() + 1 && stats_after.batch_start == after.prev_fail->0 && (
        stats_before.batch_start <= stats_after.batch_start ==> stats_before.batch_start
            + stats_after.batches.last().ns == stats_after.batch_start),
        success && stats_after.batch_count == 0 && stats_before.batch_start
            <= stats_after.batch_start ==> stats_before.batch_start + stats_after.batches.last().ns
            == stats_after.batch_start,
        stats_after.window_start == stats_before.window_start,
        stats_after.window_end == stats_before.window_end,
        stats_after.batch_size == stats_before.batch_size,
        stats_after.cap_samples == stats_before.cap_samples,
{
}

/// An accepted item is reported as accepted, and it has the number that was due.
/// An item that was popped is reported as popped exactly if it has the number that
/// was expected, and is an error otherwise.
pub proof fn law_reports_are_true<P: Payload>(
    item: P,
    seq: u64,
    pushed: Result<(), P>,
    accepted: bool,
    popped: Option<P>,
    r: Option<bool>,
)
    requires
        push_reported(item, seq, pushed, accepted),
        pop_reported(popped, seq, r),
    ensures
        item.is_number(seq),
        accepted <==> pushed is Ok,
        r == Some(false) <==> popped is None,
        r == Some(true) <==> popped is Some && popped->0.is_number(seq),
        r is None <==> popped is Some && !popped->0.is_number(seq),
{
}

/// `item` has number `seq`, and `accepted` says how the attempt to push it was
/// answered.
pub open spec fn push_reported<P: Payload>(
    item: P,
    seq: u64,
    answer: Result<(), P>,
    accepted: bool,
) -> bool {
    item.is_number(seq) && accepted == answer is Ok
}

/// `r` says how an attempt to pop was answered: whether there was an item, or
/// `None` if it was not the item with number `seq`.
pub open spec fn pop_reported<P: Payload>(answer: Option<P>, seq: u64, r: Option<bool>) -> bool {
    r == match answer {
        Some(item) => if item.is_number(seq) {
            Some(true)
        } else {
            None
        },
        None => Some(false),
    }
}

/// What a measured attempt leaves behind, if it succeeded and if it did not.
pub open spec fn attempt_recorded<C: Fn() -> u64>(
    before: Worker,
    after: Worker,
    stats_before: StatsState,
    stats_after: StatsState,
    clock: C,
    success: bool,
) -> bool {
    if success {
        &&& after == before.advanced()
        &&& if stats_before.batch_count + 1 < stats_before.batch_size {
            stats_after == stats_before.counted()
        } else {
            exists|now: u64| #[trigger]
                clock.ensures((), now) && stats_after == stats_before.counted().next_batch(now)
        }
    } else {
        exists|now: u64| #[trigger]
            clock.ensures((), now) && after == before.held_up(now) && stats_after
                == stats_before.failed(before.prev_fail, now)
    }
}

} // verus!
