//! A ring buffer for one producer and up to `NUM_CONSUMERS` consumers, whose
//! producer looks at all consumers on every push.
//!
//! The buffer and its handles share one [`EagerRing`] behind a lock, as the
//! handles of [`crate::ring_buffer::spmc_ring_buffer`] do.
//!
//! Besides, each consumer has a lock of its own that it holds while it reads. If
//! cloning an item panics, that lock is poisoned: this consumer reads no more,
//! and every push hands its item back. The other consumers read on.

use crate::ring_buffer::backoff::Backoff;
use crate::ring_buffer::eager_ring::{oldest_kept, EagerRing};
use crate::ring_buffer::ends::{
    Claim, ConsumerEnd, ConsumerOp, CountConsumers, ProducerEnd, ProducerOp, Push, Pushed,
    Register, RegistrarEnd, RegistrarOp, Take,
};
use crate::ring_buffer::model::RingState;
use crate::ring_buffer::slots::is_power_of_two;
use crate::ring_buffer::steps::{claims, joins, pops, pushes, Event, SharedRing};
use crate::ring_buffer::vault::{lock_around, made_around, opened, Valid, Vault};
use std::sync::{Arc, LockResult, Mutex, MutexGuard};
use vstd::prelude::*;

verus! {

impl<T, const CAPACITY: usize> Valid for EagerRing<T, CAPACITY> {
    open spec fn valid(&self) -> bool {
        self.wf()
    }
}

impl<T, const CAPACITY: usize> SharedRing<T> for EagerRing<T, CAPACITY> {
    open spec fn state(&self) -> RingState<T> {
        self@
    }

    open spec fn places(&self) -> nat {
        self.seats()
    }
}

/// `before` and `after` are states of one well-formed ring.
pub open spec fn of_one_ring<T, const CAPACITY: usize>(
    before: EagerRing<T, CAPACITY>,
    after: EagerRing<T, CAPACITY>,
) -> bool {
    before.wf() && after.wf() && after.seats() == before.seats()
}

/// An attempt to push `item` to the ring `before` is answered by `r` and leaves
/// the ring `after`.
pub open spec fn push_step<T, const CAPACITY: usize>(
    before: EagerRing<T, CAPACITY>,
    after: EagerRing<T, CAPACITY>,
    item: T,
    r: Result<(), T>,
) -> bool {
    &&& of_one_ring(before, after)
    &&& pushes(before@, after@, CAPACITY, item, r)
}

/// An attempt of consumer `c` to pop from the ring `before` is answered by `r`
/// and leaves the ring `after`.
pub open spec fn pop_step<T: Clone, const CAPACITY: usize>(
    before: EagerRing<T, CAPACITY>,
    after: EagerRing<T, CAPACITY>,
    c: usize,
    r: Option<T>,
) -> bool {
    &&& of_one_ring(before, after)
    &&& pops(before@, after@, CAPACITY, c, r)
}

/// Asking the ring `before` for its producer grants it, or not, and leaves the
/// ring `after`.
pub open spec fn producer_step<T, const CAPACITY: usize>(
    before: EagerRing<T, CAPACITY>,
    after: EagerRing<T, CAPACITY>,
    granted: bool,
) -> bool {
    &&& of_one_ring(before, after)
    &&& claims(before@, after@, granted)
}

/// Registering with the ring `before` gives the consumer number `r`, or none,
/// and leaves the ring `after`. A new consumer starts at the oldest item that is
/// still kept.
pub open spec fn consumer_step<T, const CAPACITY: usize>(
    before: EagerRing<T, CAPACITY>,
    after: EagerRing<T, CAPACITY>,
    limit: usize,
    r: Option<usize>,
) -> bool {
    &&& of_one_ring(before, after)
    &&& joins(before@, after@, CAPACITY, limit, before.seats(), r)
    &&& after@ == if r is Some {
        before@.joined(oldest_kept(before@.tail(), CAPACITY as nat))
    } else {
        before@
    }
}

/// Locking `lock` once gave `outcome`.
pub open spec fn turn_taken<'a>(
    lock: &'a Mutex<()>,
    outcome: LockResult<MutexGuard<'a, ()>>,
) -> bool {
    call_ensures(Mutex::<()>::lock, (lock,), outcome)
}

/// Locking `lock` once found it poisoned, or not.
pub open spec fn found(lock: Mutex<()>, poisoned: bool) -> bool {
    exists|outcome: LockResult<MutexGuard<'_, ()>>| #[trigger]
        turn_taken(&lock, outcome) && poisoned == outcome is Err
}

/// The locks of the first `registered` consumers were all found sound.
pub open spec fn all_sound(turns: Seq<Mutex<()>>, registered: nat) -> bool {
    forall|c: int| 0 <= c < registered && c < turns.len() ==> found(#[trigger] turns[c], false)
}

/// One of the locks of the first `registered` consumers was found poisoned, and
/// those before it were not.
pub open spec fn one_harmed(turns: Seq<Mutex<()>>, registered: nat) -> bool {
    exists|c: int|
        0 <= c < registered && c < turns.len() && found(#[trigger] turns[c], true) && all_sound(
            turns,
            c as nat,
        )
}

/// The locks of the consumers, by number.
type Turns = Vec<Mutex<()>>;

/// As many locks as there can be consumers.
fn new_turns(seats: usize) -> (r: Turns)
    ensures
        r@.len() == seats,
        forall|c: int| 0 <= c < seats ==> made_around(#[trigger] r@[c], ()),
{
    let mut turns: Turns = Vec::new();
    while turns.len() < seats
        invariant
            turns@.len() <= seats,
            forall|c: int| 0 <= c < turns@.len() ==> made_around(#[trigger] turns@[c], ()),
        decreases seats - turns@.len(),
    {
        turns.push(lock_around(()));
    }
    turns
}

/// Waits until none of the first `registered` consumers is reading. Returns
/// `false` if one of them panicked while it was: the first one whose lock was
/// found poisoned.
fn all_turns_over(turns: &Turns, registered: usize) -> (r: bool)
    ensures
        if r {
            all_sound(turns@, registered as nat)
        } else {
            one_harmed(turns@, registered as nat)
        },
{
    let mut i: usize = 0;
    while i < registered && i < turns.len()
        invariant
            i <= registered,
            i <= turns@.len(),
            all_sound(turns@, i as nat),
        decreases registered - i,
    {
        let outcome = turns[i].lock();
        assert(turn_taken(&turns@[i as int], outcome));
        if outcome.is_err() {
            assert(found(turns@[i as int], true));
            return false;
        }
        assert(found(turns@[i as int], false));
        i += 1;
    }
    true
}

impl<T, const CAPACITY: usize> ProducerOp<T, EagerRing<T, CAPACITY>> for Push<T> {
    type Answer = Pushed<T>;

    open spec fn carried(&self) -> Option<T> {
        Some(self.item)
    }

    open spec fn step(
        &self,
        before: EagerRing<T, CAPACITY>,
        after: EagerRing<T, CAPACITY>,
        r: Pushed<T>,
    ) -> bool {
        push_step(before, after, self.item, r.answer())
    }

    proof fn law_moves_no_consumer(
        &self,
        before: EagerRing<T, CAPACITY>,
        after: EagerRing<T, CAPACITY>,
        r: Pushed<T>,
    ) {
    }

    fn apply(self, vault: &mut Vault<EagerRing<T, CAPACITY>>) -> (r: Pushed<T>) {
        proof {
            use_type_invariant(&*vault);
            vault.lemma_held();
        }
        let r: Pushed<T> = if vault.value.tail() == usize::MAX {
            Pushed::refused(self.item)
        } else {
            match vault.value.try_push(self.item) {
                Ok(replaced) => Pushed::accepted(replaced),
                Err(back) => Pushed::refused(back),
            }
        };
        proof {
            vault.lemma_held();
        }
        r
    }
}

impl<T, const CAPACITY: usize> ProducerOp<T, EagerRing<T, CAPACITY>> for CountConsumers {
    type Answer = usize;

    open spec fn carried(&self) -> Option<T> {
        None
    }

    open spec fn step(
        &self,
        before: EagerRing<T, CAPACITY>,
        after: EagerRing<T, CAPACITY>,
        r: usize,
    ) -> bool {
        after == before && before.wf() && r == before@.heads.len()
    }

    proof fn law_moves_no_consumer(
        &self,
        before: EagerRing<T, CAPACITY>,
        after: EagerRing<T, CAPACITY>,
        r: usize,
    ) {
    }

    fn apply(self, vault: &mut Vault<EagerRing<T, CAPACITY>>) -> (r: usize) {
        proof {
            use_type_invariant(&*vault);
            vault.lemma_held();
        }
        vault.value.consumers()
    }
}

impl<T: Clone, const CAPACITY: usize> ConsumerOp<T, EagerRing<T, CAPACITY>> for Take {
    type Answer = Option<T>;

    open spec fn step(
        &self,
        c: usize,
        before: EagerRing<T, CAPACITY>,
        after: EagerRing<T, CAPACITY>,
        r: Option<T>,
    ) -> bool {
        pop_step(before, after, c, r)
    }

    proof fn law_moves_no_other_consumer(
        &self,
        c: usize,
        before: EagerRing<T, CAPACITY>,
        after: EagerRing<T, CAPACITY>,
        r: Option<T>,
    ) {
    }

    fn apply(self, c: usize, vault: &mut Vault<EagerRing<T, CAPACITY>>) -> (r: Option<T>) {
        proof {
            use_type_invariant(&*vault);
            vault.lemma_held();
        }
        if c >= vault.value.consumers() {
            return None;
        }
        // A clone that panics must find the ring only borrowed.
        let r: Option<T> = vault.value.read(c);
        if r.is_some() {
            vault.value.advance(c);
        }
        proof {
            vault.lemma_held();
        }
        r
    }
}

impl<T, const CAPACITY: usize> RegistrarOp<T, EagerRing<T, CAPACITY>> for Claim {
    type Answer = bool;

    open spec fn step(
        &self,
        before: EagerRing<T, CAPACITY>,
        after: EagerRing<T, CAPACITY>,
        r: bool,
    ) -> bool {
        producer_step(before, after, r)
    }

    proof fn law_moves_no_registered_consumer(
        &self,
        before: EagerRing<T, CAPACITY>,
        after: EagerRing<T, CAPACITY>,
        r: bool,
    ) {
    }

    fn apply(self, vault: &mut Vault<EagerRing<T, CAPACITY>>) -> (r: bool) {
        proof {
            use_type_invariant(&*vault);
            vault.lemma_held();
        }
        let r: bool = vault.value.claim_producer();
        proof {
            vault.lemma_held();
        }
        r
    }
}

impl<T, const CAPACITY: usize> RegistrarOp<T, EagerRing<T, CAPACITY>> for Register {
    type Answer = Option<usize>;

    open spec fn step(
        &self,
        before: EagerRing<T, CAPACITY>,
        after: EagerRing<T, CAPACITY>,
        r: Option<usize>,
    ) -> bool {
        consumer_step(before, after, self.limit, r)
    }

    proof fn law_moves_no_registered_consumer(
        &self,
        before: EagerRing<T, CAPACITY>,
        after: EagerRing<T, CAPACITY>,
        r: Option<usize>,
    ) {
    }

    fn apply(self, vault: &mut Vault<EagerRing<T, CAPACITY>>) -> (r: Option<usize>) {
        proof {
            use_type_invariant(&*vault);
            vault.lemma_held();
        }
        if vault.value.consumers() >= self.limit {
            return None;
        }
        let r: Option<usize> = vault.value.claim_consumer();
        proof {
            vault.lemma_held();
        }
        r
    }
}

/// `event` takes the ring `before` of a buffer for `limit` consumers to `after`.
pub open spec fn event_step<T: Clone, const CAPACITY: usize>(
    before: EagerRing<T, CAPACITY>,
    after: EagerRing<T, CAPACITY>,
    limit: usize,
    event: Event<T>,
) -> bool {
    match event {
        Event::Push(item, r) => push_step(before, after, item, r),
        Event::Pop(c, r) => pop_step(before, after, c, r),
        Event::Claim(granted) => producer_step(before, after, granted),
        Event::Register(r) => consumer_step(before, after, limit, r),
    }
}

/// A ring buffer of `CAPACITY` items for up to `NUM_CONSUMERS` consumers.
#[verifier::reject_recursive_types(T)]
#[verifier::reject_recursive_types(CAPACITY)]
pub struct SyncRingBuffer<T, const CAPACITY: usize, const NUM_CONSUMERS: usize> {
    end: RegistrarEnd<EagerRing<T, CAPACITY>>,
    turns: Arc<Turns>,
}

impl<T, const CAPACITY: usize, const NUM_CONSUMERS: usize> SyncRingBuffer<
    T,
    CAPACITY,
    NUM_CONSUMERS,
> {
    #[verifier::type_invariant]
    spec fn has_a_turn_for_each(self) -> bool {
        self.turns@.len() == NUM_CONSUMERS
    }
}

impl<T: Clone, const CAPACITY: usize, const NUM_CONSUMERS: usize> SyncRingBuffer<
    T,
    CAPACITY,
    NUM_CONSUMERS,
> {
    /// The ring that this buffer and its handles share.
    pub closed spec fn shared(&self) -> Arc<Mutex<Vault<EagerRing<T, CAPACITY>>>> {
        self.end.lock()
    }

    /// The locks of the consumers, by number.
    pub closed spec fn turns(&self) -> Seq<Mutex<()>> {
        self.turns@
    }

    /// The ring was put behind its lock empty, without producer and consumers,
    /// and with `NUM_CONSUMERS` seats, each with a fresh lock.
    pub open spec fn starts_empty(&self) -> bool {
        &&& exists|vault: Vault<EagerRing<T, CAPACITY>>| #[trigger]
            made_around(*self.shared(), vault) && vault.held().wf() && vault.held().seats()
                == NUM_CONSUMERS && vault.held()@ == RingState::<T>::empty()
        &&& self.turns().len() == NUM_CONSUMERS
        &&& forall|c: int|
            0 <= c < NUM_CONSUMERS ==> made_around(#[trigger] self.turns()[c], ())
    }

    /// An empty buffer. `CAPACITY` must be a power of two.
    pub fn new() -> (r: Self)
        requires
            is_power_of_two(CAPACITY as int),
        ensures
            r.starts_empty(),
    {
        let r = SyncRingBuffer {
            end: RegistrarEnd::around(EagerRing::new(NUM_CONSUMERS)),
            turns: Arc::new(new_turns(NUM_CONSUMERS)),
        };
        assert(r.shared() == r.end.lock());
        r
    }

    /// Hands out the producer. The first call gets it, every further one gets
    /// `None`.
    pub fn get_new_producer(&self) -> (r: Option<
        SyncRingBufferProducer<T, CAPACITY, NUM_CONSUMERS>,
    >)
        ensures
            r matches Some(p) ==> p.shared() == self.shared() && p.turns() == self.turns(),
            exists|vault: &mut Vault<EagerRing<T, CAPACITY>>| #[trigger]
                opened(&*self.shared(), vault) && producer_step(
                    vault.held(),
                    final(vault).held(),
                    r is Some,
                ),
    {
        assert(self.shared() == self.end.lock());
        match self.end.claim(Claim) {
            Some(end) => Some(
                SyncRingBufferProducer { end, turns: Arc::clone(&self.turns), calls: Ghost(0) },
            ),
            None => None,
        }
    }

    /// Registers a consumer, or returns `None` if `NUM_CONSUMERS` consumers
    /// are registered already.
    pub fn get_new_consumer(&self) -> (r: Option<SyncRingBufferConsumer<T, CAPACITY>>)
        ensures
            r matches Some(c) ==> c.shared() == self.shared() && c.turn()
                == self.turns()[c.number() as int],
            exists|vault: &mut Vault<EagerRing<T, CAPACITY>>| #[trigger]
                opened(&*self.shared(), vault) && consumer_step(
                    vault.held(),
                    final(vault).held(),
                    NUM_CONSUMERS,
                    match r {
                        Some(c) => Some(c.number()),
                        None => None,
                    },
                ),
    {
        proof {
            use_type_invariant(self);
        }
        assert(self.shared() == self.end.lock());
        match self.end.register(Register { limit: NUM_CONSUMERS }) {
            Some(end) => Some(SyncRingBufferConsumer { end, turns: Arc::clone(&self.turns) }),
            None => None,
        }
    }
}

/// The producer's handle.
#[verifier::reject_recursive_types(T)]
#[verifier::reject_recursive_types(CAPACITY)]
pub struct SyncRingBufferProducer<T, const CAPACITY: usize, const NUM_CONSUMERS: usize> {
    end: ProducerEnd<EagerRing<T, CAPACITY>>,
    turns: Arc<Turns>,
    calls: Ghost<nat>,
}

impl<T, const CAPACITY: usize, const NUM_CONSUMERS: usize> SyncRingBufferProducer<
    T,
    CAPACITY,
    NUM_CONSUMERS,
> {
    /// The ring that this handle pushes to.
    pub closed spec fn shared(&self) -> Arc<Mutex<Vault<EagerRing<T, CAPACITY>>>> {
        self.end.lock()
    }

    /// The locks of the consumers, by number.
    pub closed spec fn turns(&self) -> Seq<Mutex<()>> {
        self.turns@
    }

    /// How many consumers are registered with the ring, as its lock hands it
    /// out. The ring stays as it is.
    fn registered(&self) -> (r: usize)
        ensures
            exists|vault: &mut Vault<EagerRing<T, CAPACITY>>| #[trigger]
                opened(&*self.shared(), vault) && *final(vault) == *vault && vault.held().wf()
                    && r == vault.held()@.heads.len(),
    {
        proof {
            Vault::<EagerRing<T, CAPACITY>>::lemma_same_held();
            assert(self.shared() == self.end.lock());
        }
        self.end.run(CountConsumers)
    }

    /// How many pushes were asked for by an exclusive owner of this handle.
    pub closed spec fn calls(&self) -> nat {
        self.calls@
    }

    /// Counts one push.
    pub(crate) fn count_call(&mut self)
        ensures
            final(self).shared() == old(self).shared(),
            final(self).turns() == old(self).turns(),
            final(self).calls() == old(self).calls() + 1,
    {
        self.calls = Ghost(self.calls@ + 1);
    }

    /// Publishes `item` to all consumers, or hands it back if the slowest
    /// consumer is a full ring behind, if a consumer panicked while it was
    /// reading, or if `usize::MAX` items have been published.
    ///
    /// The registered consumers are counted first, then their locks are looked
    /// at, and only if all are sound the ring.
    pub fn try_push(&self, item: T) -> (r: Result<(), T>)
        ensures
            exists|counted: &mut Vault<EagerRing<T, CAPACITY>>| #[trigger]
                opened(&*self.shared(), counted) && *final(counted) == *counted
                    && counted.held().wf() && ((one_harmed(
                    self.turns(),
                    counted.held()@.heads.len(),
                ) && r == Err::<(), T>(item)) || (all_sound(
                    self.turns(),
                    counted.held()@.heads.len(),
                ) && exists|vault: &mut Vault<EagerRing<T, CAPACITY>>| #[trigger]
                    opened(&*self.shared(), vault) && push_step(
                        vault.held(),
                        final(vault).held(),
                        item,
                        r,
                    ))),
    {
        if !all_turns_over(&self.turns, self.registered()) {
            return Err(item);
        }
        assert(self.shared() == self.end.lock());
        self.end.run(Push { item }).settle()
    }

    /// One attempt to push, made after all waits that the counter stands for.
    pub fn push_once(&self, item: T, _backoff: &Backoff) -> (r: Result<(), T>)
        ensures
            r is Err ==> r == Err::<(), T>(item),
            exists|counted: &mut Vault<EagerRing<T, CAPACITY>>| #[trigger]
                opened(&*self.shared(), counted) && *final(counted) == *counted
                    && counted.held().wf() && ((one_harmed(
                    self.turns(),
                    counted.held()@.heads.len(),
                ) && r == Err::<(), T>(item)) || (all_sound(
                    self.turns(),
                    counted.held()@.heads.len(),
                ) && exists|vault: &mut Vault<EagerRing<T, CAPACITY>>| #[trigger]
                    opened(&*self.shared(), vault) && push_step(
                        vault.held(),
                        final(vault).held(),
                        item,
                        r,
                    ))),
    {
        self.try_push(item)
    }

    /// An attempt to push `item` was refused when the next wait was `spins` long.
    pub open spec fn refused_at(&self, item: T, spins: int) -> bool {
        exists|backoff: &Backoff| #[trigger]
            call_ensures(Self::push_once, (self, item, backoff), Err::<(), T>(item))
                && backoff.spins() == spins
    }

    /// Publishes `item`, waiting by `backoff` after every attempt that hands it
    /// back. An attempt follows every wait, and the item comes back only if
    /// one was refused at every length of wait that can be counted. The step is
    /// that of the last attempt.
    pub fn push_waiting(&self, item: T, backoff: &mut Backoff) -> (r: Result<(), T>)
        requires
            old(backoff).wf(),
        ensures
            final(backoff).wf(),
            old(backoff).spins() <= final(backoff).spins(),
            forall|s: int|
                old(backoff).spins() <= s < final(backoff).spins() ==> #[trigger] self.refused_at(
                    item,
                    s,
                ),
            r is Err ==> final(backoff).spins() == i32::MAX,
            r is Err ==> forall|s: int|
                old(backoff).spins() <= s <= i32::MAX ==> #[trigger] self.refused_at(item, s),
            exists|counted: &mut Vault<EagerRing<T, CAPACITY>>| #[trigger]
                opened(&*self.shared(), counted) && *final(counted) == *counted
                    && counted.held().wf() && ((one_harmed(
                    self.turns(),
                    counted.held()@.heads.len(),
                ) && r == Err::<(), T>(item)) || (all_sound(
                    self.turns(),
                    counted.held()@.heads.len(),
                ) && exists|vault: &mut Vault<EagerRing<T, CAPACITY>>| #[trigger]
                    opened(&*self.shared(), vault) && push_step(
                        vault.held(),
                        final(vault).held(),
                        item,
                        r,
                    ))),
    {
        let mut pending: T = item;
        loop
            invariant
                backoff.wf(),
                old(backoff).spins() <= backoff.spins(),
                pending == item,
                forall|s: int|
                    old(backoff).spins() <= s < backoff.spins() ==> #[trigger] self.refused_at(
                        item,
                        s,
                    ),
            decreases backoff.left(),
        {
            let ghost stage: &Backoff = &*backoff;
            let r: Result<(), T> = self.push_once(pending, &*backoff);
            match r {
                Ok(()) => return Ok(()),
                Err(returned) => {
                    assert(call_ensures(Self::push_once, (self, item, stage), Err::<(), T>(item)));
                    assert(self.refused_at(item, stage.spins()));
                    if !backoff.wait() {
                        return Err(returned);
                    }
                    pending = returned;
                },
            }
        }
    }

    /// Publishes `item`, waiting a little longer after every attempt that hands
    /// it back. It comes back only if the waiting time cannot be counted any
    /// further. What is stated of the ring is what the last attempt did.
    pub fn push(&self, item: T) -> (r: Result<(), T>)
        ensures
            r is Err ==> forall|s: int| 1 <= s <= i32::MAX ==> #[trigger] self.refused_at(item, s),
            exists|backoff: &mut Backoff| #[trigger]
                call_ensures(Self::push_waiting, (self, item, backoff), r) && backoff.spins() == 1
                    && (r is Err ==> final(backoff).spins() == i32::MAX),
            exists|counted: &mut Vault<EagerRing<T, CAPACITY>>| #[trigger]
                opened(&*self.shared(), counted) && *final(counted) == *counted
                    && counted.held().wf() && ((one_harmed(
                    self.turns(),
                    counted.held()@.heads.len(),
                ) && r == Err::<(), T>(item)) || (all_sound(
                    self.turns(),
                    counted.held()@.heads.len(),
                ) && exists|vault: &mut Vault<EagerRing<T, CAPACITY>>| #[trigger]
                    opened(&*self.shared(), vault) && push_step(
                        vault.held(),
                        final(vault).held(),
                        item,
                        r,
                    ))),
    {
        let mut backoff = Backoff::new();
        self.push_waiting(item, &mut backoff)
    }
}

/// The handle of one consumer.
#[verifier::reject_recursive_types(T)]
#[verifier::reject_recursive_types(CAPACITY)]
pub struct SyncRingBufferConsumer<T, const CAPACITY: usize> {
    end: ConsumerEnd<EagerRing<T, CAPACITY>>,
    turns: Arc<Turns>,
}

impl<T, const CAPACITY: usize> SyncRingBufferConsumer<T, CAPACITY> {
    #[verifier::type_invariant]
    spec fn has_a_turn(self) -> bool {
        self.end.number() < self.turns@.len()
    }
}

impl<T: Clone, const CAPACITY: usize> SyncRingBufferConsumer<T, CAPACITY> {
    /// The ring that this handle reads from.
    pub closed spec fn shared(&self) -> Arc<Mutex<Vault<EagerRing<T, CAPACITY>>>> {
        self.end.lock()
    }

    /// The consumer's number, in the order of registration.
    pub closed spec fn number(&self) -> usize {
        self.end.number()
    }

    /// The lock that this consumer holds while it reads.
    pub closed spec fn turn(&self) -> Mutex<()> {
        self.turns@[self.end.number() as int]
    }

    /// The next item for this consumer, or `None` if it has caught up with the
    /// producer, or if it once panicked while it was reading.
    pub fn try_pop(&self) -> (r: Option<T>)
        ensures
            (found(self.turn(), true) && r is None) || (found(self.turn(), false) && exists|
                vault: &mut Vault<EagerRing<T, CAPACITY>>,
            | #[trigger]
                opened(&*self.shared(), vault) && pop_step(
                    vault.held(),
                    final(vault).held(),
                    self.number(),
                    r,
                )),
    {
        proof {
            use_type_invariant(self);
        }
        let outcome = self.turns[self.end.id()].lock();
        assert(turn_taken(&self.turn(), outcome));
        let _turn = match outcome {
            Ok(turn) => turn,
            Err(_) => {
                assert(found(self.turn(), true));
                return None;
            },
        };
        assert(found(self.turn(), false));
        assert(self.shared() == self.end.lock());
        self.end.run(Take)
    }

    /// One attempt to pop, made after all waits that the counter stands for.
    pub fn pop_once(&self, _backoff: &Backoff) -> (r: Option<T>)
        ensures
            (found(self.turn(), true) && r is None) || (found(self.turn(), false) && exists|
                vault: &mut Vault<EagerRing<T, CAPACITY>>,
            | #[trigger]
                opened(&*self.shared(), vault) && pop_step(
                    vault.held(),
                    final(vault).held(),
                    self.number(),
                    r,
                )),
    {
        self.try_pop()
    }

    /// An attempt to pop gave nothing when the next wait was `spins` long.
    pub open spec fn nothing_at(&self, spins: int) -> bool {
        exists|backoff: &Backoff| #[trigger]
            call_ensures(Self::pop_once, (self, backoff), None::<T>) && backoff.spins() == spins
    }

    /// The next item for this consumer, waiting by `backoff` after every attempt
    /// that gives none. An attempt follows every wait, and there is no item only
    /// if there was none at every length of wait that can be counted. The step is
    /// that of the last attempt.
    pub fn pop_waiting(&self, backoff: &mut Backoff) -> (r: Option<T>)
        requires
            old(backoff).wf(),
        ensures
            final(backoff).wf(),
            old(backoff).spins() <= final(backoff).spins(),
            forall|s: int|
                old(backoff).spins() <= s < final(backoff).spins() ==> #[trigger] self.nothing_at(s),
            r is None ==> final(backoff).spins() == i32::MAX,
            r is None ==> forall|s: int|
                old(backoff).spins() <= s <= i32::MAX ==> #[trigger] self.nothing_at(s),
            (found(self.turn(), true) && r is None) || (found(self.turn(), false) && exists|
                vault: &mut Vault<EagerRing<T, CAPACITY>>,
            | #[trigger]
                opened(&*self.shared(), vault) && pop_step(
                    vault.held(),
                    final(vault).held(),
                    self.number(),
                    r,
                )),
    {
        loop
            invariant
                backoff.wf(),
                old(backoff).spins() <= backoff.spins(),
                forall|s: int|
                    old(backoff).spins() <= s < backoff.spins() ==> #[trigger] self.nothing_at(s),
            decreases backoff.left(),
        {
            let ghost stage: &Backoff = &*backoff;
            let r: Option<T> = self.pop_once(&*backoff);
            if r.is_some() {
                return r;
            }
            assert(call_ensures(Self::pop_once, (self, stage), None::<T>));
            assert(self.nothing_at(stage.spins()));
            if !backoff.wait() {
                return r;
            }
        }
    }

    /// The next item for this consumer, waiting a little longer after every
    /// attempt that finds none. `None` only if the waiting time cannot be
    /// counted any further. What is stated of the ring is what the last attempt
    /// did.
    pub fn pop(&self) -> (r: Option<T>)
        ensures
            r is None ==> forall|s: int| 1 <= s <= i32::MAX ==> #[trigger] self.nothing_at(s),
            exists|backoff: &mut Backoff| #[trigger]
                call_ensures(Self::pop_waiting, (self, backoff), r) && backoff.spins() == 1
                    && (r is None ==> final(backoff).spins() == i32::MAX),
            (found(self.turn(), true) && r is None) || (found(self.turn(), false) && exists|
                vault: &mut Vault<EagerRing<T, CAPACITY>>,
            | #[trigger]
                opened(&*self.shared(), vault) && pop_step(
                    vault.held(),
                    final(vault).held(),
                    self.number(),
                    r,
                )),
    {
        let mut backoff = Backoff::new();
        self.pop_waiting(&mut backoff)
    }
}

} // verus!
