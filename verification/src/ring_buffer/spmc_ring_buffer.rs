//! A ring buffer for one producer and up to `NUM_CONSUMERS` consumers, whose
//! producer caches the position of the slowest consumer.
//!
//! The buffer and its handles share one [`LazyRing`]. Each operation locks it,
//! makes one step of the ring, and unlocks it; [`LazyRing`] says what each step
//! does. Between two operations of one handle the other handles may have made
//! any number of steps, so what an operation promises is the step that it makes
//! itself: its answer, and what it leaves behind, given the ring that its lock
//! handed out.

use crate::ring_buffer::backoff::Backoff;
use crate::ring_buffer::ends::{
    Claim, ConsumerEnd, ConsumerOp, LookAtCached, LookAtSlowest, ProducerEnd, ProducerOp, Push,
    Pushed, Register, RegistrarEnd, RegistrarOp, Take,
};
use crate::ring_buffer::lazy_ring::{LazyRing, LazyState};
use crate::ring_buffer::model::RingState;
use crate::ring_buffer::slots::is_power_of_two;
use crate::ring_buffer::steps::{claims, joins, pops, pushes, Event, SharedRing};
use crate::ring_buffer::vault::{made_around, opened, Valid, Vault};
use std::sync::{Arc, Mutex};
use vstd::prelude::*;

verus! {

impl<T, const CAPACITY: usize> Valid for LazyRing<T, CAPACITY> {
    open spec fn valid(&self) -> bool {
        self.wf()
    }
}

impl<T, const CAPACITY: usize> SharedRing<T> for LazyRing<T, CAPACITY> {
    open spec fn state(&self) -> RingState<T> {
        self@.ring
    }

    open spec fn places(&self) -> nat {
        self.seats()
    }
}

/// `before` and `after` are states of one well-formed ring.
pub open spec fn of_one_ring<T, const CAPACITY: usize>(
    before: LazyRing<T, CAPACITY>,
    after: LazyRing<T, CAPACITY>,
) -> bool {
    before.wf() && after.wf() && after.seats() == before.seats()
}

/// An attempt to push `item` to the ring `before` is answered by `r` and leaves
/// the ring `after`. The producer looks at the consumers only if the ring looks
/// full to it.
pub open spec fn push_step<T, const CAPACITY: usize>(
    before: LazyRing<T, CAPACITY>,
    after: LazyRing<T, CAPACITY>,
    item: T,
    r: Result<(), T>,
) -> bool {
    &&& of_one_ring(before, after)
    &&& pushes(before@.ring, after@.ring, CAPACITY, item, r)
    &&& after@ == if r is Ok {
        before@.pushed(item, CAPACITY as nat)
    } else {
        before@
    }
}

/// An attempt of consumer `c` to pop from the ring `before` is answered by `r`
/// and leaves the ring `after`. The producer does not notice.
pub open spec fn pop_step<T: Clone, const CAPACITY: usize>(
    before: LazyRing<T, CAPACITY>,
    after: LazyRing<T, CAPACITY>,
    c: usize,
    r: Option<T>,
) -> bool {
    &&& of_one_ring(before, after)
    &&& pops(before@.ring, after@.ring, CAPACITY, c, r)
    &&& after@ == if r is Some {
        before@.popped(c as int)
    } else {
        before@
    }
}

/// Asking the ring `before` for its producer grants it, or not, and leaves the
/// ring `after`.
pub open spec fn producer_step<T, const CAPACITY: usize>(
    before: LazyRing<T, CAPACITY>,
    after: LazyRing<T, CAPACITY>,
    granted: bool,
) -> bool {
    &&& of_one_ring(before, after)
    &&& claims(before@.ring, after@.ring, granted)
    &&& after@ == before@.with_producer()
}

/// Registering with the ring `before` gives the consumer number `r`, or none,
/// and leaves the ring `after`. A new consumer starts where the producer last
/// saw the slowest one.
pub open spec fn consumer_step<T, const CAPACITY: usize>(
    before: LazyRing<T, CAPACITY>,
    after: LazyRing<T, CAPACITY>,
    limit: usize,
    r: Option<usize>,
) -> bool {
    &&& of_one_ring(before, after)
    &&& joins(before@.ring, after@.ring, CAPACITY, limit, before.seats(), r)
    &&& after@ == if r is Some {
        before@.joined()
    } else {
        before@
    }
}

impl<T, const CAPACITY: usize> ProducerOp<T, LazyRing<T, CAPACITY>> for Push<T> {
    type Answer = Pushed<T>;

    open spec fn carried(&self) -> Option<T> {
        Some(self.item)
    }

    open spec fn step(
        &self,
        before: LazyRing<T, CAPACITY>,
        after: LazyRing<T, CAPACITY>,
        r: Pushed<T>,
    ) -> bool {
        push_step(before, after, self.item, r.answer())
    }

    proof fn law_moves_no_consumer(
        &self,
        before: LazyRing<T, CAPACITY>,
        after: LazyRing<T, CAPACITY>,
        r: Pushed<T>,
    ) {
    }

    fn apply(self, vault: &mut Vault<LazyRing<T, CAPACITY>>) -> (r: Pushed<T>) {
        proof {
            use_type_invariant(&*vault);
            vault.lemma_held();
        }
        let r: Pushed<T> = if vault.value.tail() == usize::MAX {
            Pushed::refused(self.item)
        } else {
            match vault.value.try_push(self.item) {
                Ok(replaced) => Pushed::accepted(replaced),
                Err(back) => Pushed::refused(back),
            }
        };
        proof {
            vault.lemma_held();
        }
        r
    }
}

impl<T, const CAPACITY: usize> ProducerOp<T, LazyRing<T, CAPACITY>> for LookAtCached {
    type Answer = usize;

    open spec fn carried(&self) -> Option<T> {
        None
    }

    open spec fn step(
        &self,
        before: LazyRing<T, CAPACITY>,
        after: LazyRing<T, CAPACITY>,
        r: usize,
    ) -> bool {
        after == before && before.wf() && r == before@.cached
    }

    proof fn law_moves_no_consumer(
        &self,
        before: LazyRing<T, CAPACITY>,
        after: LazyRing<T, CAPACITY>,
        r: usize,
    ) {
    }

    fn apply(self, vault: &mut Vault<LazyRing<T, CAPACITY>>) -> (r: usize) {
        proof {
            use_type_invariant(&*vault);
            vault.lemma_held();
        }
        vault.value.cached_min()
    }
}

impl<T, const CAPACITY: usize> ProducerOp<T, LazyRing<T, CAPACITY>> for LookAtSlowest {
    type Answer = usize;

    open spec fn carried(&self) -> Option<T> {
        None
    }

    open spec fn step(
        &self,
        before: LazyRing<T, CAPACITY>,
        after: LazyRing<T, CAPACITY>,
        r: usize,
    ) -> bool {
        after == before && before.wf() && r == before@.ring.true_min()
    }

    proof fn law_moves_no_consumer(
        &self,
        before: LazyRing<T, CAPACITY>,
        after: LazyRing<T, CAPACITY>,
        r: usize,
    ) {
    }

    fn apply(self, vault: &mut Vault<LazyRing<T, CAPACITY>>) -> (r: usize) {
        proof {
            use_type_invariant(&*vault);
            vault.lemma_held();
        }
        vault.value.true_min()
    }
}

impl<T: Clone, const CAPACITY: usize> ConsumerOp<T, LazyRing<T, CAPACITY>> for Take {
    type Answer = Option<T>;

    open spec fn step(
        &self,
        c: usize,
        before: LazyRing<T, CAPACITY>,
        after: LazyRing<T, CAPACITY>,
        r: Option<T>,
    ) -> bool {
        pop_step(before, after, c, r)
    }

    proof fn law_moves_no_other_consumer(
        &self,
        c: usize,
        before: LazyRing<T, CAPACITY>,
        after: LazyRing<T, CAPACITY>,
        r: Option<T>,
    ) {
    }

    fn apply(self, c: usize, vault: &mut Vault<LazyRing<T, CAPACITY>>) -> (r: Option<T>) {
        proof {
            use_type_invariant(&*vault);
            vault.lemma_held();
        }
        if c >= vault.value.consumers() {
            return None;
        }
        // A clone that panics must find the ring only borrowed.
        let r: Option<T> = vault.value.read(c);
        if r.is_some() {
            vault.value.advance(c);
        }
        proof {
            vault.lemma_held();
        }
        r
    }
}

impl<T, const CAPACITY: usize> RegistrarOp<T, LazyRing<T, CAPACITY>> for Claim {
    type Answer = bool;

    open spec fn step(
        &self,
        before: LazyRing<T, CAPACITY>,
        after: LazyRing<T, CAPACITY>,
        r: bool,
    ) -> bool {
        producer_step(before, after, r)
    }

    proof fn law_moves_no_registered_consumer(
        &self,
        before: LazyRing<T, CAPACITY>,
        after: LazyRing<T, CAPACITY>,
        r: bool,
    ) {
    }

    fn apply(self, vault: &mut Vault<LazyRing<T, CAPACITY>>) -> (r: bool) {
        proof {
            use_type_invariant(&*vault);
            vault.lemma_held();
        }
        let r: bool = vault.value.claim_producer();
        proof {
            vault.lemma_held();
        }
        r
    }
}

impl<T, const CAPACITY: usize> RegistrarOp<T, LazyRing<T, CAPACITY>> for Register {
    type Answer = Option<usize>;

    open spec fn step(
        &self,
        before: LazyRing<T, CAPACITY>,
        after: LazyRing<T, CAPACITY>,
        r: Option<usize>,
    ) -> bool {
        consumer_step(before, after, self.limit, r)
    }

    proof fn law_moves_no_registered_consumer(
        &self,
        before: LazyRing<T, CAPACITY>,
        after: LazyRing<T, CAPACITY>,
        r: Option<usize>,
    ) {
    }

    fn apply(self, vault: &mut Vault<LazyRing<T, CAPACITY>>) -> (r: Option<usize>) {
        proof {
            use_type_invariant(&*vault);
            vault.lemma_held();
        }
        if vault.value.consumers() >= self.limit {
            return None;
        }
        let r: Option<usize> = vault.value.claim_consumer();
        proof {
            vault.lemma_held();
        }
        r
    }
}

/// `event` takes the ring `before` of a buffer for `limit` consumers to `after`.
pub open spec fn event_step<T: Clone, const CAPACITY: usize>(
    before: LazyRing<T, CAPACITY>,
    after: LazyRing<T, CAPACITY>,
    limit: usize,
    event: Event<T>,
) -> bool {
    match event {
        Event::Push(item, r) => push_step(before, after, item, r),
        Event::Pop(c, r) => pop_step(before, after, c, r),
        Event::Claim(granted) => producer_step(before, after, granted),
        Event::Register(r) => consumer_step(before, after, limit, r),
    }
}

/// A ring buffer of `CAPACITY` items for up to `NUM_CONSUMERS` consumers.
#[verifier::reject_recursive_types(T)]
#[verifier::reject_recursive_types(CAPACITY)]
pub struct SpmcRingBuffer<T, const CAPACITY: usize, const NUM_CONSUMERS: usize> {
    end: RegistrarEnd<LazyRing<T, CAPACITY>>,
}

impl<T: Clone, const CAPACITY: usize, const NUM_CONSUMERS: usize> SpmcRingBuffer<
    T,
    CAPACITY,
    NUM_CONSUMERS,
> {
    /// The ring that this buffer and its handles share.
    pub closed spec fn shared(&self) -> Arc<Mutex<Vault<LazyRing<T, CAPACITY>>>> {
        self.end.lock()
    }

    /// The ring was put behind its lock empty, without producer and consumers,
    /// and with `NUM_CONSUMERS` seats.
    pub open spec fn starts_empty(&self) -> bool {
        exists|vault: Vault<LazyRing<T, CAPACITY>>| #[trigger]
            made_around(*self.shared(), vault) && vault.held().wf() && vault.held().seats()
                == NUM_CONSUMERS && vault.held()@ == LazyState::<T>::empty()
    }

    /// An empty buffer. `CAPACITY` must be a power of two.
    pub fn new() -> (r: Self)
        requires
            is_power_of_two(CAPACITY as int),
        ensures
            r.starts_empty(),
    {
        let r = SpmcRingBuffer { end: RegistrarEnd::around(LazyRing::new(NUM_CONSUMERS)) };
        assert(r.shared() == r.end.lock());
        r
    }

    /// Hands out the producer. The first call gets it, every further one gets
    /// `None`.
    pub fn get_new_producer(&self) -> (r: Option<
        SpmcRingBufferProducer<T, CAPACITY, NUM_CONSUMERS>,
    >)
        ensures
            r matches Some(p) ==> p.shared() == self.shared(),
            exists|vault: &mut Vault<LazyRing<T, CAPACITY>>| #[trigger]
                opened(&*self.shared(), vault) && producer_step(
                    vault.held(),
                    final(vault).held(),
                    r is Some,
                ),
    {
        assert(self.shared() == self.end.lock());
        match self.end.claim(Claim) {
            Some(end) => Some(SpmcRingBufferProducer { end, calls: Ghost(0) }),
            None => None,
        }
    }

    /// Registers a consumer, or returns `None` if `NUM_CONSUMERS` consumers
    /// are registered already.
    pub fn get_new_consumer(&self) -> (r: Option<SpmcRingBufferConsumer<T, CAPACITY>>)
        ensures
            r matches Some(c) ==> c.shared() == self.shared(),
            exists|vault: &mut Vault<LazyRing<T, CAPACITY>>| #[trigger]
                opened(&*self.shared(), vault) && consumer_step(
                    vault.held(),
                    final(vault).held(),
                    NUM_CONSUMERS,
                    match r {
                        Some(c) => Some(c.number()),
                        None => None,
                    },
                ),
    {
        assert(self.shared() == self.end.lock());
        match self.end.register(Register { limit: NUM_CONSUMERS }) {
            Some(end) => Some(SpmcRingBufferConsumer { end }),
            None => None,
        }
    }
}

/// The producer's handle.
#[verifier::reject_recursive_types(T)]
#[verifier::reject_recursive_types(CAPACITY)]
pub struct SpmcRingBufferProducer<T, const CAPACITY: usize, const NUM_CONSUMERS: usize> {
    end: ProducerEnd<LazyRing<T, CAPACITY>>,
    calls: Ghost<nat>,
}

impl<T, const CAPACITY: usize, const NUM_CONSUMERS: usize> SpmcRingBufferProducer<
    T,
    CAPACITY,
    NUM_CONSUMERS,
> {
    /// The ring that this handle pushes to.
    pub closed spec fn shared(&self) -> Arc<Mutex<Vault<LazyRing<T, CAPACITY>>>> {
        self.end.lock()
    }

    /// How many pushes were asked for by an exclusive owner of this handle.
    pub closed spec fn calls(&self) -> nat {
        self.calls@
    }

    /// Counts one push.
    pub(crate) fn count_call(&mut self)
        ensures
            final(self).shared() == old(self).shared(),
            final(self).calls() == old(self).calls() + 1,
    {
        self.calls = Ghost(self.calls@ + 1);
    }

    /// Publishes `item` to all consumers, or hands it back if the slowest
    /// consumer is a full ring behind.
    ///
    /// An item also comes back if `usize::MAX` items have been published: the
    /// positions could not be counted any further.
    pub fn try_push(&self, item: T) -> (r: Result<(), T>)
        ensures
            exists|vault: &mut Vault<LazyRing<T, CAPACITY>>| #[trigger]
                opened(&*self.shared(), vault) && push_step(
                    vault.held(),
                    final(vault).held(),
                    item,
                    r,
                ),
    {
        assert(self.shared() == self.end.lock());
        self.end.run(Push { item }).settle()
    }

    /// One attempt to push, made after all waits that the counter stands for.
    pub fn push_once(&self, item: T, _backoff: &Backoff) -> (r: Result<(), T>)
        ensures
            r is Err ==> r == Err::<(), T>(item),
            exists|vault: &mut Vault<LazyRing<T, CAPACITY>>| #[trigger]
                opened(&*self.shared(), vault) && push_step(
                    vault.held(),
                    final(vault).held(),
                    item,
                    r,
                ),
    {
        self.try_push(item)
    }

    /// An attempt to push `item` was refused when the next wait was `spins` long.
    pub open spec fn refused_at(&self, item: T, spins: int) -> bool {
        exists|backoff: &Backoff| #[trigger]
            call_ensures(Self::push_once, (self, item, backoff), Err::<(), T>(item))
                && backoff.spins() == spins
    }

    /// Publishes `item`, waiting by `backoff` after every attempt that finds the
    /// ring full. An attempt follows every wait, and the item comes back only if
    /// one was refused at every length of wait that can be counted. The step is
    /// that of the last attempt.
    pub fn push_waiting(&self, item: T, backoff: &mut Backoff) -> (r: Result<(), T>)
        requires
            old(backoff).wf(),
        ensures
            final(backoff).wf(),
            old(backoff).spins() <= final(backoff).spins(),
            forall|s: int|
                old(backoff).spins() <= s < final(backoff).spins() ==> #[trigger] self.refused_at(
                    item,
                    s,
                ),
            r is Err ==> final(backoff).spins() == i32::MAX,
            r is Err ==> forall|s: int|
                old(backoff).spins() <= s <= i32::MAX ==> #[trigger] self.refused_at(item, s),
            exists|vault: &mut Vault<LazyRing<T, CAPACITY>>| #[trigger]
                opened(&*self.shared(), vault) && push_step(
                    vault.held(),
                    final(vault).held(),
                    item,
                    r,
                ),
    {
        let mut pending: T = item;
        loop
            invariant
                backoff.wf(),
                old(backoff).spins() <= backoff.spins(),
                pending == item,
                forall|s: int|
                    old(backoff).spins() <= s < backoff.spins() ==> #[trigger] self.refused_at(
                        item,
                        s,
                    ),
            decreases backoff.left(),
        {
            let ghost stage: &Backoff = &*backoff;
            let r: Result<(), T> = self.push_once(pending, &*backoff);
            match r {
                Ok(()) => return Ok(()),
                Err(returned) => {
                    assert(call_ensures(Self::push_once, (self, item, stage), Err::<(), T>(item)));
                    assert(self.refused_at(item, stage.spins()));
                    if !backoff.wait() {
                        return Err(returned);
                    }
                    pending = returned;
                },
            }
        }
    }

    /// Publishes `item`, waiting a little longer after every attempt that finds
    /// the ring full. The item comes back only if the waiting time cannot be
    /// counted any further. The step is that of the last attempt.
    pub fn push(&self, item: T) -> (r: Result<(), T>)
        ensures
            r is Err ==> forall|s: int| 1 <= s <= i32::MAX ==> #[trigger] self.refused_at(item, s),
            exists|backoff: &mut Backoff| #[trigger]
                call_ensures(Self::push_waiting, (self, item, backoff), r) && backoff.spins() == 1
                    && (r is Err ==> final(backoff).spins() == i32::MAX),
            exists|vault: &mut Vault<LazyRing<T, CAPACITY>>| #[trigger]
                opened(&*self.shared(), vault) && push_step(
                    vault.held(),
                    final(vault).held(),
                    item,
                    r,
                ),
    {
        let mut backoff = Backoff::new();
        self.push_waiting(item, &mut backoff)
    }

    /// The position of the slowest consumer that the producer has last seen. It
    /// is never ahead of the slowest consumer.
    pub fn cached_min_consumer_index(&self) -> (r: usize)
        ensures
            exists|vault: &mut Vault<LazyRing<T, CAPACITY>>| #[trigger]
                opened(&*self.shared(), vault) && *final(vault) == *vault && vault.held().wf()
                    && r == vault.held()@.cached && r <= vault.held()@.ring.true_min(),
    {
        proof {
            Vault::<LazyRing<T, CAPACITY>>::lemma_same_held();
            assert(self.shared() == self.end.lock());
        }
        self.end.run(LookAtCached)
    }

    /// The position of the slowest consumer.
    pub fn true_min_consumer_index(&self) -> (r: usize)
        ensures
            exists|vault: &mut Vault<LazyRing<T, CAPACITY>>| #[trigger]
                opened(&*self.shared(), vault) && *final(vault) == *vault && vault.held().wf()
                    && r == vault.held()@.ring.true_min() && vault.held()@.cached <= r,
    {
        proof {
            Vault::<LazyRing<T, CAPACITY>>::lemma_same_held();
            assert(self.shared() == self.end.lock());
        }
        self.end.run(LookAtSlowest)
    }
}

/// The handle of one consumer.
#[verifier::reject_recursive_types(T)]
#[verifier::reject_recursive_types(CAPACITY)]
pub struct SpmcRingBufferConsumer<T, const CAPACITY: usize> {
    end: ConsumerEnd<LazyRing<T, CAPACITY>>,
}

impl<T: Clone, const CAPACITY: usize> SpmcRingBufferConsumer<T, CAPACITY> {
    /// The ring that this handle reads from.
    pub closed spec fn shared(&self) -> Arc<Mutex<Vault<LazyRing<T, CAPACITY>>>> {
        self.end.lock()
    }

    /// The consumer's number.
    pub closed spec fn number(&self) -> usize {
        self.end.number()
    }

    /// The consumer's number, in the order of registration.
    pub fn id(&self) -> (r: usize)
        ensures
            r == self.number(),
    {
        self.end.id()
    }

    /// The next item for this consumer, or `None` if it has caught up with the
    /// producer.
    pub fn try_pop(&self) -> (r: Option<T>)
        ensures
            exists|vault: &mut Vault<LazyRing<T, CAPACITY>>| #[trigger]
                opened(&*self.shared(), vault) && pop_step(
                    vault.held(),
                    final(vault).held(),
                    self.number(),
                    r,
                ),
    {
        assert(self.shared() == self.end.lock());
        self.end.run(Take)
    }

    /// One attempt to pop, made after all waits that the counter stands for.
    pub fn pop_once(&self, _backoff: &Backoff) -> (r: Option<T>)
        ensures
            exists|vault: &mut Vault<LazyRing<T, CAPACITY>>| #[trigger]
                opened(&*self.shared(), vault) && pop_step(
                    vault.held(),
                    final(vault).held(),
                    self.number(),
                    r,
                ),
    {
        self.try_pop()
    }

    /// An attempt to pop gave nothing when the next wait was `spins` long.
    pub open spec fn nothing_at(&self, spins: int) -> bool {
        exists|backoff: &Backoff| #[trigger]
            call_ensures(Self::pop_once, (self, backoff), None::<T>) && backoff.spins() == spins
    }

    /// The next item for this consumer, waiting by `backoff` after every attempt
    /// that gives none. An attempt follows every wait, and there is no item only
    /// if there was none at every length of wait that can be counted. The step is
    /// that of the last attempt.
    pub fn pop_waiting(&self, backoff: &mut Backoff) -> (r: Option<T>)
        requires
            old(backoff).wf(),
        ensures
            final(backoff).wf(),
            old(backoff).spins() <= final(backoff).spins(),
            forall|s: int|
                old(backoff).spins() <= s < final(backoff).spins() ==> #[trigger] self.nothing_at(s),
            r is None ==> final(backoff).spins() == i32::MAX,
            r is None ==> forall|s: int|
                old(backoff).spins() <= s <= i32::MAX ==> #[trigger] self.nothing_at(s),
            exists|vault: &mut Vault<LazyRing<T, CAPACITY>>| #[trigger]
                opened(&*self.shared(), vault) && pop_step(
                    vault.held(),
                    final(vault).held(),
                    self.number(),
                    r,
                ),
    {
        loop
            invariant
                backoff.wf(),
                old(backoff).spins() <= backoff.spins(),
                forall|s: int|
                    old(backoff).spins() <= s < backoff.spins() ==> #[trigger] self.nothing_at(s),
            decreases backoff.left(),
        {
            let ghost stage: &Backoff = &*backoff;
            let r: Option<T> = self.pop_once(&*backoff);
            if r.is_some() {
                return r;
            }
            assert(call_ensures(Self::pop_once, (self, stage), None::<T>));
            assert(self.nothing_at(stage.spins()));
            if !backoff.wait() {
                return r;
            }
        }
    }

    /// The next item for this consumer, waiting a little longer after every
    /// attempt that finds none. `None` only if the waiting time cannot be
    /// counted any further. The step is that of the last attempt.
    pub fn pop(&self) -> (r: Option<T>)
        ensures
            r is None ==> forall|s: int| 1 <= s <= i32::MAX ==> #[trigger] self.nothing_at(s),
            exists|backoff: &mut Backoff| #[trigger]
                call_ensures(Self::pop_waiting, (self, backoff), r) && backoff.spins() == 1
                    && (r is None ==> final(backoff).spins() == i32::MAX),
            exists|vault: &mut Vault<LazyRing<T, CAPACITY>>| #[trigger]
                opened(&*self.shared(), vault) && pop_step(
                    vault.held(),
                    final(vault).held(),
                    self.number(),
                    r,
                ),
    {
        let mut backoff = Backoff::new();
        self.pop_waiting(&mut backoff)
    }
}

} // verus!
