//! What the operations of the handles do to the ring that they share, in terms of
//! the stream and of the positions in it.

use crate::ring_buffer::eager_ring::EagerRing;
use crate::ring_buffer::lazy_ring::LazyRing;
use crate::ring_buffer::model::lemma_slowest_is_least;
use crate::ring_buffer::spmc_ring_buffer;
use crate::ring_buffer::spmc_ring_buffer::{
    SpmcRingBuffer, SpmcRingBufferConsumer, SpmcRingBufferProducer,
};
use crate::ring_buffer::step_laws::{
    law_eager_consumers_start_at_a_kept_item, law_eager_producer_is_granted_once,
    law_eager_push_publishes_the_item, law_lazy_consumers_start_at_a_kept_item,
    law_lazy_producer_is_granted_once, law_lazy_push_publishes_the_item,
};
use crate::ring_buffer::sync_spmc_ring_buffer;
use crate::ring_buffer::sync_spmc_ring_buffer::{
    found, SyncRingBuffer, SyncRingBufferConsumer, SyncRingBufferProducer,
};
use crate::ring_buffer::vault::{made_around, opened, Vault};
use std::sync::{LockResult, Mutex, MutexGuard};
use vstd::prelude::*;

verus! {

/// The attempt that answers a push through the producer's handle of the lazy buffer,
/// be it the only one or the last of several, leaves every consumer where it is. If
/// the item was accepted, the stream has grown by it, at its end; if it came back,
/// the stream is as it was, and some consumer is a full ring behind or the items can
/// be counted no further.
pub proof fn law_lazy_handle_publishes_what_it_pushes<T, const CAPACITY: usize, const N: usize>(
    p: &SpmcRingBufferProducer<T, CAPACITY, N>,
    item: T,
    r: Result<(), T>,
)
    requires
        call_ensures(SpmcRingBufferProducer::<T, CAPACITY, N>::try_push, (p, item), r) || call_ensures(
            SpmcRingBufferProducer::<T, CAPACITY, N>::push,
            (p, item),
            r,
        ),
    ensures
        r is Err ==> r == Err::<(), T>(item),
        exists|vault: &mut Vault<LazyRing<T, CAPACITY>>| #[trigger]
            opened(&*p.shared(), vault) && ({
                let before = vault.held()@.ring;
                let after = final(vault).held()@.ring;
                &&& after.heads == before.heads
                &&& r is Ok ==> after.stream == before.stream.push(item)
                &&& r is Err ==> after.stream == before.stream
                &&& r is Err <==> before.stream.len() >= usize::MAX || exists|c: int|
                    0 <= c < before.heads.len() && before.stream.len() == #[trigger] before.heads[c]
                        + CAPACITY
            }),
{
    assert forall|before: LazyRing<T, CAPACITY>, after: LazyRing<T, CAPACITY>| #[trigger]
        spmc_ring_buffer::push_step(before, after, item, r) implies {
        &&& after@.ring.heads == before@.ring.heads
        &&& r is Ok ==> after@.ring.stream == before@.ring.stream.push(item)
        &&& r is Err ==> after@.ring.stream == before@.ring.stream
        &&& r is Err ==> r == Err::<(), T>(item)
        &&& r is Err <==> before@.ring.stream.len() >= usize::MAX || exists|c: int|
            0 <= c < before@.ring.heads.len() && before@.ring.stream.len() == #[trigger] before@.ring.heads[c] + CAPACITY
    } by {
        law_lazy_push_publishes_the_item(before, after, item, r);
    }
}

/// The attempt that answers a pop through a consumer's handle of the lazy buffer, be
/// it the only one or the last of several, leaves the stream and every other
/// consumer as they are. The answer is a clone of the item at the consumer's
/// position, which then moves on by exactly one, or nothing, if the consumer has
/// caught up, and then it stays.
pub proof fn law_lazy_handle_moves_on_by_what_it_pops<T: Clone, const CAPACITY: usize>(
    p: &SpmcRingBufferConsumer<T, CAPACITY>,
    r: Option<T>,
)
    requires
        call_ensures(SpmcRingBufferConsumer::<T, CAPACITY>::try_pop, (p,), r) || call_ensures(
            SpmcRingBufferConsumer::<T, CAPACITY>::pop,
            (p,),
            r,
        ),
    ensures
        exists|vault: &mut Vault<LazyRing<T, CAPACITY>>| #[trigger]
            opened(&*p.shared(), vault) && ({
                let c = p.number();
                let before = vault.held()@.ring;
                let after = final(vault).held()@.ring;
                &&& after.stream == before.stream
                &&& after.heads.len() == before.heads.len()
                &&& r is Some <==> c < before.heads.len() && before.heads[c as int]
                    < before.stream.len()
                &&& r matches Some(item) ==> cloned(
                    before.stream[before.heads[c as int] as int],
                    item,
                )
                &&& r is Some ==> after.heads[c as int] == before.heads[c as int] + 1
                &&& r is None ==> after.heads == before.heads
                &&& forall|d: int|
                    0 <= d < before.heads.len() && d != c ==> #[trigger] after.heads[d]
                        == before.heads[d]
            }),
{
    let c = p.number();
    assert forall|before: LazyRing<T, CAPACITY>, after: LazyRing<T, CAPACITY>| #[trigger]
        spmc_ring_buffer::pop_step(before, after, c, r) implies {
        &&& after@.ring.stream == before@.ring.stream
        &&& after@.ring.heads.len() == before@.ring.heads.len()
        &&& r is Some <==> c < before@.ring.heads.len() && before@.ring.heads[c as int] < before@.ring.stream.len()
        &&& r matches Some(item) ==> cloned(before@.ring.stream[before@.ring.heads[c as int] as int], item)
        &&& r is Some ==> after@.ring.heads[c as int] == before@.ring.heads[c as int] + 1
        &&& r is None ==> after@.ring.heads == before@.ring.heads
        &&& forall|d: int|
            0 <= d < before@.ring.heads.len() && d != c ==> #[trigger] after@.ring.heads[d] == before@.ring.heads[d]
    } by {}
}

/// The lazy buffer hands out its producer exactly if it has not before, and that
/// changes nothing else.
pub proof fn law_lazy_buffer_hands_out_its_producer_once<
    T: Clone,
    const CAPACITY: usize,
    const N: usize,
>(buffer: &SpmcRingBuffer<T, CAPACITY, N>, r: Option<SpmcRingBufferProducer<T, CAPACITY, N>>)
    requires
        call_ensures(SpmcRingBuffer::<T, CAPACITY, N>::get_new_producer, (buffer,), r),
    ensures
        r matches Some(p) ==> p.shared() == buffer.shared(),
        exists|vault: &mut Vault<LazyRing<T, CAPACITY>>| #[trigger]
            opened(&*buffer.shared(), vault) && (r is Some <==> !vault.held()@.ring.has_producer)
                && final(vault).held()@.ring.has_producer && final(vault).held()@.ring.stream == vault.held()@.ring.stream && final(vault).held()@.ring.heads == vault.held()@.ring.heads,
{
    assert forall|before: LazyRing<T, CAPACITY>, after: LazyRing<T, CAPACITY>| #[trigger]
        spmc_ring_buffer::producer_step(before, after, r is Some) implies {
        &&& r is Some <==> !before@.ring.has_producer
        &&& after@.ring.has_producer && after@.ring.stream == before@.ring.stream && after@.ring.heads == before@.ring.heads
    } by {
        law_lazy_producer_is_granted_once(before, after, r is Some);
    }
}

/// The lazy buffer registers a consumer exactly if fewer than its number of
/// consumers are registered and there is a seat. The consumer gets the next number,
/// those before it stay where they are, and every item from its start on is kept.
pub proof fn law_lazy_buffer_registers_the_next_consumer<
    T: Clone,
    const CAPACITY: usize,
    const N: usize,
>(buffer: &SpmcRingBuffer<T, CAPACITY, N>, r: Option<SpmcRingBufferConsumer<T, CAPACITY>>)
    requires
        call_ensures(SpmcRingBuffer::<T, CAPACITY, N>::get_new_consumer, (buffer,), r),
    ensures
        r matches Some(p) ==> p.shared() == buffer.shared(),
        exists|vault: &mut Vault<LazyRing<T, CAPACITY>>| #[trigger]
            opened(&*buffer.shared(), vault) && ({
                let before = vault.held()@.ring;
                let after = final(vault).held()@.ring;
                &&& r is Some <==> before.heads.len() < N && before.heads.len()
                    < vault.held().seats()
                &&& r matches Some(p) ==> p.number() == before.heads.len()
                &&& after.stream == before.stream
                &&& after.has_producer == before.has_producer
                &&& r is None ==> after.heads == before.heads
                &&& r is Some ==> after.heads.len() == before.heads.len() + 1
                    && after.heads.drop_last() == before.heads
                &&& r is Some ==> after.heads.last() <= after.stream.len() <= after.heads.last()
                    + CAPACITY
                &&& r is Some ==> after.heads.last() == vault.held()@.cached
            }),
{
    let number: Option<usize> = match r {
        Some(p) => Some(p.number()),
        None => None,
    };
    assert forall|before: LazyRing<T, CAPACITY>, after: LazyRing<T, CAPACITY>| #[trigger]
        spmc_ring_buffer::consumer_step(before, after, N, number) implies {
        &&& r is Some <==> before@.ring.heads.len() < N && before@.ring.heads.len() < before.seats()
        &&& r matches Some(p) ==> p.number() == before@.ring.heads.len()
        &&& after@.ring.stream == before@.ring.stream
        &&& after@.ring.has_producer == before@.ring.has_producer
        &&& r is None ==> after@.ring.heads == before@.ring.heads
        &&& r is Some ==> after@.ring.heads.len() == before@.ring.heads.len() + 1 && after@.ring.heads.drop_last()
            == before@.ring.heads
        &&& r is Some ==> after@.ring.heads.last() <= after@.ring.stream.len() <= after@.ring.heads.last() + CAPACITY
        &&& r is Some ==> after@.ring.heads.last() == before@.cached
    } by {
        law_lazy_consumers_start_at_a_kept_item(before, after, N, number);
    }
}

/// The lazy buffer is made with nothing published, nobody registered, its producer
/// still to be had, and a seat for each of its consumers.
pub proof fn law_lazy_buffer_is_made_empty<T: Clone, const CAPACITY: usize, const N: usize>(
    buffer: SpmcRingBuffer<T, CAPACITY, N>,
)
    requires
        call_ensures(SpmcRingBuffer::<T, CAPACITY, N>::new, (), buffer),
    ensures
        exists|vault: Vault<LazyRing<T, CAPACITY>>| #[trigger]
            made_around(*buffer.shared(), vault) && vault.held()@.ring.stream.len() == 0 && vault.held()@.ring.heads.len() == 0
                && !vault.held()@.ring.has_producer && vault.held().seats() == N,
{
}

/// What the producer has last seen of the slowest consumer is not ahead of any
/// consumer. Where the slowest consumer is, is not ahead of any either, and some
/// consumer is there, unless all have caught up. Looking changes nothing.
pub proof fn law_lazy_handle_sees_the_slowest_consumer<T, const CAPACITY: usize, const N: usize>(
    p: &SpmcRingBufferProducer<T, CAPACITY, N>,
    cached: usize,
    slowest: usize,
)
    requires
        call_ensures(
            SpmcRingBufferProducer::<T, CAPACITY, N>::cached_min_consumer_index,
            (p,),
            cached,
        ),
        call_ensures(
            SpmcRingBufferProducer::<T, CAPACITY, N>::true_min_consumer_index,
            (p,),
            slowest,
        ),
    ensures
        exists|vault: &mut Vault<LazyRing<T, CAPACITY>>| #[trigger]
            opened(&*p.shared(), vault) && *final(vault) == *vault && cached
                == vault.held()@.cached && (forall|c: int|
                0 <= c < vault.held()@.ring.heads.len() ==> cached
                    <= #[trigger] vault.held()@.ring.heads[c]),
        exists|vault: &mut Vault<LazyRing<T, CAPACITY>>| #[trigger]
            opened(&*p.shared(), vault) && *final(vault) == *vault && slowest
                <= vault.held()@.ring.stream.len() && (forall|c: int|
                0 <= c < vault.held()@.ring.heads.len() ==> slowest
                    <= #[trigger] vault.held()@.ring.heads[c]) && (slowest
                == vault.held()@.ring.stream.len() || exists|c: int|
                0 <= c < vault.held()@.ring.heads.len() && slowest
                    == #[trigger] vault.held()@.ring.heads[c]),
{
    assert forall|ring: LazyRing<T, CAPACITY>| #[trigger] ring.wf() implies {
        &&& ring@.ring.true_min() <= ring@.ring.stream.len()
        &&& ring@.cached <= ring@.ring.true_min()
        &&& forall|c: int|
            0 <= c < ring@.ring.heads.len() ==> ring@.ring.true_min()
                <= #[trigger] ring@.ring.heads[c]
        &&& ring@.ring.true_min() == ring@.ring.stream.len() || exists|c: int|
            0 <= c < ring@.ring.heads.len() && ring@.ring.true_min()
                == #[trigger] ring@.ring.heads[c]
    } by {
        lemma_slowest_is_least(ring@.ring.heads, ring@.ring.tail());
    }
}

/// The attempt that answers a push through the producer's handle of the eager buffer,
/// be it the only one or the last of several, leaves every consumer where it is. If
/// the item was accepted, the stream has grown by it, at its end; if it came back,
/// the stream is as it was, and some consumer is a full ring behind or the items can
/// be counted no further.
/// A push that finds a consumer's lock poisoned comes back without such an attempt.
pub proof fn law_eager_handle_publishes_what_it_pushes<T, const CAPACITY: usize, const N: usize>(
    p: &SyncRingBufferProducer<T, CAPACITY, N>,
    item: T,
    r: Result<(), T>,
)
    requires
        call_ensures(SyncRingBufferProducer::<T, CAPACITY, N>::try_push, (p, item), r) || call_ensures(
            SyncRingBufferProducer::<T, CAPACITY, N>::push,
            (p, item),
            r,
        ),
    ensures
        r is Err ==> r == Err::<(), T>(item),
        (r is Err && exists|i: int|
            0 <= i < p.turns().len() && found(#[trigger] p.turns()[i], true)) || exists|vault: &mut Vault<EagerRing<T, CAPACITY>>| #[trigger]
            opened(&*p.shared(), vault) && ({
                let before = vault.held()@;
                let after = final(vault).held()@;
                &&& after.heads == before.heads
                &&& r is Ok ==> after.stream == before.stream.push(item)
                &&& r is Err ==> after.stream == before.stream
                &&& r is Err <==> before.stream.len() >= usize::MAX || exists|c: int|
                    0 <= c < before.heads.len() && before.stream.len() == #[trigger] before.heads[c]
                        + CAPACITY
            }),
{
    assert forall|before: EagerRing<T, CAPACITY>, after: EagerRing<T, CAPACITY>| #[trigger]
        sync_spmc_ring_buffer::push_step(before, after, item, r) implies {
        &&& after@.heads == before@.heads
        &&& r is Ok ==> after@.stream == before@.stream.push(item)
        &&& r is Err ==> after@.stream == before@.stream
        &&& r is Err ==> r == Err::<(), T>(item)
        &&& r is Err <==> before@.stream.len() >= usize::MAX || exists|c: int|
            0 <= c < before@.heads.len() && before@.stream.len() == #[trigger] before@.heads[c] + CAPACITY
    } by {
        law_eager_push_publishes_the_item(before, after, item, r);
    }
}

/// The attempt that answers a pop through a consumer's handle of the eager buffer, be
/// it the only one or the last of several, leaves the stream and every other
/// consumer as they are. The answer is a clone of the item at the consumer's
/// position, which then moves on by exactly one, or nothing, if the consumer has
/// caught up, and then it stays.
/// A consumer whose lock is found poisoned gets nothing.
pub proof fn law_eager_handle_moves_on_by_what_it_pops<T: Clone, const CAPACITY: usize>(
    p: &SyncRingBufferConsumer<T, CAPACITY>,
    r: Option<T>,
)
    requires
        call_ensures(SyncRingBufferConsumer::<T, CAPACITY>::try_pop, (p,), r) || call_ensures(
            SyncRingBufferConsumer::<T, CAPACITY>::pop,
            (p,),
            r,
        ),
    ensures
        (found(p.turn(), true) && r is None) || (found(p.turn(), false) && exists|vault: &mut Vault<EagerRing<T, CAPACITY>>| #[trigger]
            opened(&*p.shared(), vault) && ({
                let c = p.number();
                let before = vault.held()@;
                let after = final(vault).held()@;
                &&& after.stream == before.stream
                &&& after.heads.len() == before.heads.len()
                &&& r is Some <==> c < before.heads.len() && before.heads[c as int]
                    < before.stream.len()
                &&& r matches Some(item) ==> cloned(
                    before.stream[before.heads[c as int] as int],
                    item,
                )
                &&& r is Some ==> after.heads[c as int] == before.heads[c as int] + 1
                &&& r is None ==> after.heads == before.heads
                &&& forall|d: int|
                    0 <= d < before.heads.len() && d != c ==> #[trigger] after.heads[d]
                        == before.heads[d]
            })),
{
    let c = p.number();
    assert forall|before: EagerRing<T, CAPACITY>, after: EagerRing<T, CAPACITY>| #[trigger]
        sync_spmc_ring_buffer::pop_step(before, after, c, r) implies {
        &&& after@.stream == before@.stream
        &&& after@.heads.len() == before@.heads.len()
        &&& r is Some <==> c < before@.heads.len() && before@.heads[c as int] < before@.stream.len()
        &&& r matches Some(item) ==> cloned(before@.stream[before@.heads[c as int] as int], item)
        &&& r is Some ==> after@.heads[c as int] == before@.heads[c as int] + 1
        &&& r is None ==> after@.heads == before@.heads
        &&& forall|d: int|
            0 <= d < before@.heads.len() && d != c ==> #[trigger] after@.heads[d] == before@.heads[d]
    } by {}
}

/// The eager buffer hands out its producer exactly if it has not before, and that
/// changes nothing else.
pub proof fn law_eager_buffer_hands_out_its_producer_once<
    T: Clone,
    const CAPACITY: usize,
    const N: usize,
>(buffer: &SyncRingBuffer<T, CAPACITY, N>, r: Option<SyncRingBufferProducer<T, CAPACITY, N>>)
    requires
        call_ensures(SyncRingBuffer::<T, CAPACITY, N>::get_new_producer, (buffer,), r),
    ensures
        r matches Some(p) ==> p.shared() == buffer.shared(),
        exists|vault: &mut Vault<EagerRing<T, CAPACITY>>| #[trigger]
            opened(&*buffer.shared(), vault) && (r is Some <==> !vault.held()@.has_producer)
                && final(vault).held()@.has_producer && final(vault).held()@.stream == vault.held()@.stream && final(vault).held()@.heads == vault.held()@.heads,
{
    assert forall|before: EagerRing<T, CAPACITY>, after: EagerRing<T, CAPACITY>| #[trigger]
        sync_spmc_ring_buffer::producer_step(before, after, r is Some) implies {
        &&& r is Some <==> !before@.has_producer
        &&& after@.has_producer && after@.stream == before@.stream && after@.heads == before@.heads
    } by {
        law_eager_producer_is_granted_once(before, after, r is Some);
    }
}

/// The eager buffer registers a consumer exactly if fewer than its number of
/// consumers are registered and there is a seat. The consumer gets the next number,
/// those before it stay where they are, and every item from its start on is kept.
pub proof fn law_eager_buffer_registers_the_next_consumer<
    T: Clone,
    const CAPACITY: usize,
    const N: usize,
>(buffer: &SyncRingBuffer<T, CAPACITY, N>, r: Option<SyncRingBufferConsumer<T, CAPACITY>>)
    requires
        call_ensures(SyncRingBuffer::<T, CAPACITY, N>::get_new_consumer, (buffer,), r),
    ensures
        r matches Some(p) ==> p.shared() == buffer.shared(),
        exists|vault: &mut Vault<EagerRing<T, CAPACITY>>| #[trigger]
            opened(&*buffer.shared(), vault) && ({
                let before = vault.held()@;
                let after = final(vault).held()@;
                &&& r is Some <==> before.heads.len() < N && before.heads.len()
                    < vault.held().seats()
                &&& r matches Some(p) ==> p.number() == before.heads.len()
                &&& after.stream == before.stream
                &&& after.has_producer == before.has_producer
                &&& r is None ==> after.heads == before.heads
                &&& r is Some ==> after.heads.len() == before.heads.len() + 1
                    && after.heads.drop_last() == before.heads
                &&& r is Some ==> after.heads.last() <= after.stream.len() <= after.heads.last()
                    + CAPACITY
                &&& r is Some && before.stream.len() <= CAPACITY ==> after.heads.last() == 0
                &&& r is Some && before.stream.len() >= CAPACITY ==> after.heads.last() + CAPACITY
                    == before.stream.len()
            }),
{
    let number: Option<usize> = match r {
        Some(p) => Some(p.number()),
        None => None,
    };
    assert forall|before: EagerRing<T, CAPACITY>, after: EagerRing<T, CAPACITY>| #[trigger]
        sync_spmc_ring_buffer::consumer_step(before, after, N, number) implies {
        &&& r is Some <==> before@.heads.len() < N && before@.heads.len() < before.seats()
        &&& r matches Some(p) ==> p.number() == before@.heads.len()
        &&& after@.stream == before@.stream
        &&& after@.has_producer == before@.has_producer
        &&& r is None ==> after@.heads == before@.heads
        &&& r is Some ==> after@.heads.len() == before@.heads.len() + 1 && after@.heads.drop_last()
            == before@.heads
        &&& r is Some ==> after@.heads.last() <= after@.stream.len() <= after@.heads.last() + CAPACITY
        &&& r is Some && before@.stream.len() <= CAPACITY ==> after@.heads.last() == 0
        &&& r is Some && before@.stream.len() >= CAPACITY ==> after@.heads.last() + CAPACITY
            == before@.stream.len()
    } by {
        law_eager_consumers_start_at_a_kept_item(before, after, N, number);
    }
}

/// The eager buffer is made with nothing published, nobody registered, its producer
/// still to be had, and a seat for each of its consumers.
pub proof fn law_eager_buffer_is_made_empty<T: Clone, const CAPACITY: usize, const N: usize>(
    buffer: SyncRingBuffer<T, CAPACITY, N>,
)
    requires
        call_ensures(SyncRingBuffer::<T, CAPACITY, N>::new, (), buffer),
    ensures
        exists|vault: Vault<EagerRing<T, CAPACITY>>| #[trigger]
            made_around(*buffer.shared(), vault) && vault.held()@.stream.len() == 0 && vault.held()@.heads.len() == 0
                && !vault.held()@.has_producer && vault.held().seats() == N,
{
}

/// A lock was found poisoned if locking it gave an error, and sound if it gave none.
pub proof fn law_poison_is_what_locking_reports<'a>(
    lock: &'a Mutex<()>,
    outcome: LockResult<MutexGuard<'a, ()>>,
)
    requires
        call_ensures(Mutex::<()>::lock, (lock,), outcome),
    ensures
        outcome is Err ==> found(*lock, true),
        outcome is Ok ==> found(*lock, false),
{
    assert(sync_spmc_ring_buffer::turn_taken(lock, outcome));
}

} // verus!
