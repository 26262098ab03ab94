//! The ends of a shared ring.
//!
//! The lock that a ring is behind is kept here. What is outside this file holds
//! an end of the ring, and an end runs only operations of its own side: whatever
//! is run through a producer's end moves no consumer, whatever is run through a
//! consumer's end moves no other consumer and publishes nothing, and whatever is
//! run through the registrar's end leaves the stream and the registered consumers
//! as they are. Each kind of operation is held to that by a proof.

use crate::ring_buffer::model::RingState;
use crate::ring_buffer::steps::SharedRing;
use crate::ring_buffer::vault::{
    lock_always, lock_around, made_around, open_locked, opened, Valid, Vault,
};
use std::sync::{Arc, Mutex};
use vstd::prelude::*;

verus! {

/// No consumer has moved or come, and nothing was published but `item`, at most
/// once and at the end of the stream.
pub open spec fn moved_by_producer<T>(
    before: RingState<T>,
    after: RingState<T>,
    item: Option<T>,
) -> bool {
    &&& after.heads == before.heads
    &&& after.has_producer == before.has_producer
    &&& after.stream == before.stream || (item matches Some(x) && after.stream
        == before.stream.push(x))
}

/// Nothing was published, no consumer but `c` has moved or come, and `c` has moved
/// on by one item at most.
pub open spec fn moved_by_consumer<T>(before: RingState<T>, after: RingState<T>, c: usize) -> bool {
    &&& after.stream == before.stream
    &&& after.has_producer == before.has_producer
    &&& after.heads.len() == before.heads.len()
    &&& forall|d: int|
        0 <= d < before.heads.len() && d != c ==> #[trigger] after.heads[d] == before.heads[d]
    &&& c < before.heads.len() ==> before.heads[c as int] <= after.heads[c as int]
        <= before.heads[c as int] + 1
}

/// Nothing was published, and no consumer that was registered has moved.
pub open spec fn moved_by_registrar<T>(before: RingState<T>, after: RingState<T>) -> bool {
    &&& after.stream == before.stream
    &&& before.has_producer ==> after.has_producer
    &&& before.heads.is_prefix_of(after.heads)
    &&& after.heads.len() <= before.heads.len() + 1
}

/// An operation of the producer's side.
pub trait ProducerOp<T, R: SharedRing<T>>: Sized {
    type Answer;

    /// The item that the operation may publish.
    spec fn carried(&self) -> Option<T>;

    /// The operation is answered by `r` and takes the ring `before` to `after`.
    spec fn step(&self, before: R, after: R, r: Self::Answer) -> bool;

    proof fn law_moves_no_consumer(&self, before: R, after: R, r: Self::Answer)
        requires
            self.step(before, after, r),
        ensures
            moved_by_producer(before.state(), after.state(), self.carried()),
    ;

    fn apply(self, vault: &mut Vault<R>) -> (r: Self::Answer)
        ensures
            old(vault).held().valid(),
            final(vault).held().valid(),
            self.step(old(vault).held(), final(vault).held(), r),
    ;
}

/// An operation of the side of one consumer.
pub trait ConsumerOp<T, R: SharedRing<T>>: Sized {
    type Answer;

    /// The operation is answered by `r` and takes the ring `before` to `after`.
    spec fn step(&self, c: usize, before: R, after: R, r: Self::Answer) -> bool;

    proof fn law_moves_no_other_consumer(&self, c: usize, before: R, after: R, r: Self::Answer)
        requires
            self.step(c, before, after, r),
        ensures
            moved_by_consumer(before.state(), after.state(), c),
    ;

    fn apply(self, c: usize, vault: &mut Vault<R>) -> (r: Self::Answer)
        ensures
            old(vault).held().valid(),
            final(vault).held().valid(),
            self.step(c, old(vault).held(), final(vault).held(), r),
    ;
}

/// An operation that hands out an end.
pub trait RegistrarOp<T, R: SharedRing<T>>: Sized {
    type Answer;

    /// The operation is answered by `r` and takes the ring `before` to `after`.
    spec fn step(&self, before: R, after: R, r: Self::Answer) -> bool;

    proof fn law_moves_no_registered_consumer(&self, before: R, after: R, r: Self::Answer)
        requires
            self.step(before, after, r),
        ensures
            moved_by_registrar(before.state(), after.state()),
    ;

    fn apply(self, vault: &mut Vault<R>) -> (r: Self::Answer)
        ensures
            old(vault).held().valid(),
            final(vault).held().valid(),
            self.step(old(vault).held(), final(vault).held(), r),
    ;
}

/// Publishes an item.
pub struct Push<T> {
    pub item: T,
}

/// How a push was answered. What the item replaced can only be dropped.
pub struct Pushed<T> {
    outcome: Result<Option<T>, T>,
}

impl<T> Pushed<T> {
    /// The answer as the producer gets it.
    pub closed spec fn answer(&self) -> Result<(), T> {
        match self.outcome {
            Ok(_) => Ok(()),
            Err(back) => Err(back),
        }
    }

    pub(crate) fn accepted(replaced: Option<T>) -> (r: Self)
        ensures
            r.answer() == Ok::<(), T>(()),
        no_unwind
    {
        Pushed { outcome: Ok(replaced) }
    }

    pub(crate) fn refused(item: T) -> (r: Self)
        ensures
            r.answer() == Err::<(), T>(item),
        no_unwind
    {
        Pushed { outcome: Err(item) }
    }

    /// The answer as the producer gets it. What the item replaced is dropped.
    pub(crate) fn settle(self) -> (r: Result<(), T>)
        ensures
            r == self.answer(),
    {
        match self.outcome {
            Ok(_replaced) => Ok(()),
            Err(back) => Err(back),
        }
    }
}

/// Looks where the producer has last seen the slowest consumer.
pub struct LookAtCached;

/// Looks where the slowest consumer is.
pub struct LookAtSlowest;

/// Counts the registered consumers.
pub struct CountConsumers;

/// Takes the consumer's next item.
pub struct Take;

/// Asks for the producer.
pub struct Claim;

/// Registers a consumer, if fewer than `limit` are registered.
pub struct Register {
    pub limit: usize,
}

/// The producer's end.
#[verifier::reject_recursive_types(R)]
pub struct ProducerEnd<R: Valid> {
    lock: Arc<Mutex<Vault<R>>>,
}

/// The end of one consumer.
#[verifier::reject_recursive_types(R)]
pub struct ConsumerEnd<R: Valid> {
    lock: Arc<Mutex<Vault<R>>>,
    id: usize,
}

/// The end from which the others are had.
#[verifier::reject_recursive_types(R)]
pub struct RegistrarEnd<R: Valid> {
    lock: Arc<Mutex<Vault<R>>>,
}

impl<R: Valid> ProducerEnd<R> {
    /// The lock that the ring is behind.
    pub closed spec fn lock(&self) -> Arc<Mutex<Vault<R>>> {
        self.lock
    }

    /// Runs one operation on the ring, under its lock.
    pub(crate) fn run<T, O: ProducerOp<T, R>>(&self, op: O) -> (r: O::Answer) where
        R: SharedRing<T>,

        ensures
            exists|vault: &mut Vault<R>| #[trigger]
                opened(&*self.lock(), vault) && vault.held().valid() && final(vault).held().valid()
                    && op.step(vault.held(), final(vault).held(), r) && moved_by_producer(
                    vault.held().state(),
                    final(vault).held().state(),
                    op.carried(),
                ),
    {
        let mut guard = lock_always(&self.lock);
        let vault = open_locked(&mut guard);
        let ghost access = vault;
        let ghost run = op;
        proof {
            assert(opened(&*self.lock(), access));
        }
        let ghost before = vault.held();
        let r = op.apply(vault);
        proof {
            run.law_moves_no_consumer(before, final(access).held(), r);
        }
        r
    }
}

impl<R: Valid> ConsumerEnd<R> {
    /// The lock that the ring is behind.
    pub closed spec fn lock(&self) -> Arc<Mutex<Vault<R>>> {
        self.lock
    }

    /// The consumer's number.
    pub closed spec fn number(&self) -> usize {
        self.id
    }

    /// The consumer's number.
    pub(crate) fn id(&self) -> (r: usize)
        ensures
            r == self.number(),
    {
        self.id
    }

    /// Runs one operation on the ring, under its lock.
    pub(crate) fn run<T, O: ConsumerOp<T, R>>(&self, op: O) -> (r: O::Answer) where
        R: SharedRing<T>,

        ensures
            exists|vault: &mut Vault<R>| #[trigger]
                opened(&*self.lock(), vault) && vault.held().valid() && final(vault).held().valid()
                    && op.step(self.number(), vault.held(), final(vault).held(), r)
                    && moved_by_consumer(
                    vault.held().state(),
                    final(vault).held().state(),
                    self.number(),
                ),
    {
        let mut guard = lock_always(&self.lock);
        let vault = open_locked(&mut guard);
        let ghost access = vault;
        let ghost run = op;
        proof {
            assert(opened(&*self.lock(), access));
        }
        let ghost before = vault.held();
        let r = op.apply(self.id, vault);
        proof {
            run.law_moves_no_other_consumer(self.id, before, final(access).held(), r);
        }
        r
    }
}

impl<R: Valid> RegistrarEnd<R> {
    /// The lock that the ring is behind.
    pub closed spec fn lock(&self) -> Arc<Mutex<Vault<R>>> {
        self.lock
    }

    /// Puts `ring` behind a lock.
    pub(crate) fn around(ring: R) -> (r: Self)
        requires
            ring.valid(),
        ensures
            exists|vault: Vault<R>| #[trigger]
                made_around(*r.lock(), vault) && vault.held() == ring,
    {
        let vault = Vault::new(ring);
        let ghost first = vault;
        let r = RegistrarEnd { lock: Arc::new(lock_around(vault)) };
        assert(made_around(*r.lock(), first));
        r
    }

    /// Runs one operation on the ring, under its lock.
    fn run<T, O: RegistrarOp<T, R>>(&self, op: O) -> (r: O::Answer) where R: SharedRing<T>
        ensures
            exists|vault: &mut Vault<R>| #[trigger]
                opened(&*self.lock(), vault) && vault.held().valid() && final(vault).held().valid()
                    && op.step(vault.held(), final(vault).held(), r) && moved_by_registrar(
                    vault.held().state(),
                    final(vault).held().state(),
                ),
    {
        let mut guard = lock_always(&self.lock);
        let vault = open_locked(&mut guard);
        let ghost access = vault;
        let ghost run = op;
        proof {
            assert(opened(&*self.lock(), access));
        }
        let ghost before = vault.held();
        let r = op.apply(vault);
        proof {
            run.law_moves_no_registered_consumer(before, final(access).held(), r);
        }
        r
    }

    /// The producer's end, if the ring grants it.
    pub(crate) fn claim<T, O: RegistrarOp<T, R, Answer = bool>>(&self, op: O) -> (r: Option<
        ProducerEnd<R>,
    >) where R: SharedRing<T>
        ensures
            r matches Some(end) ==> end.lock() == self.lock(),
            exists|vault: &mut Vault<R>| #[trigger]
                opened(&*self.lock(), vault) && vault.held().valid() && final(vault).held().valid()
                    && op.step(vault.held(), final(vault).held(), r is Some) && moved_by_registrar(
                    vault.held().state(),
                    final(vault).held().state(),
                ),
    {
        if self.run(op) {
            Some(ProducerEnd { lock: Arc::clone(&self.lock) })
        } else {
            None
        }
    }

    /// The end of a new consumer, if the ring has a place for it.
    pub(crate) fn register<T, O: RegistrarOp<T, R, Answer = Option<usize>>>(&self, op: O) -> (r:
        Option<ConsumerEnd<R>>) where R: SharedRing<T>
        ensures
            r matches Some(end) ==> end.lock() == self.lock(),
            exists|vault: &mut Vault<R>| #[trigger]
                opened(&*self.lock(), vault) && vault.held().valid() && final(vault).held().valid()
                    && op.step(
                    vault.held(),
                    final(vault).held(),
                    match r {
                        Some(end) => Some(end.number()),
                        None => None,
                    },
                ) && moved_by_registrar(vault.held().state(), final(vault).held().state()),
    {
        match self.run(op) {
            Some(id) => Some(ConsumerEnd { lock: Arc::clone(&self.lock), id }),
            None => None,
        }
    }
}

} // verus!
