//! What the steps of the two buffers have to do with the laws of rings, and with
//! each other.

use crate::ring_buffer::eager_ring::{oldest_kept, EagerRing};
use crate::ring_buffer::laws::Op;
use crate::ring_buffer::lazy_ring::{LazyRing, LazyState};
use crate::ring_buffer::model::RingState;
use crate::ring_buffer::spmc_ring_buffer;
use crate::ring_buffer::steps::{grants, registrations, Event};
use crate::ring_buffer::sync_spmc_ring_buffer;
use vstd::prelude::*;

verus! {

/// A push through the lazy buffer is a push tried on its ring, and it is accepted
/// exactly if the ring has room.
pub proof fn law_lazy_push_is_tried_on_the_ring<T, const CAPACITY: usize>(
    before: LazyRing<T, CAPACITY>,
    after: LazyRing<T, CAPACITY>,
    item: T,
    r: Result<(), T>,
)
    requires
        spmc_ring_buffer::push_step(before, after, item, r),
        before@.ring.tail() < usize::MAX,
    ensures
        after@ == before@.tried(Op::Push(item), CAPACITY as nat),
        r == if before@.ring.has_room(CAPACITY as nat) {
            Ok::<(), T>(())
        } else {
            Err::<(), T>(item)
        },
{
}

/// A pop through the lazy buffer is a pop tried on its ring, and the caller gets
/// a clone of what the consumer gets.
pub proof fn law_lazy_pop_is_tried_on_the_ring<T: Clone, const CAPACITY: usize>(
    before: LazyRing<T, CAPACITY>,
    after: LazyRing<T, CAPACITY>,
    c: usize,
    r: Option<T>,
)
    requires
        spmc_ring_buffer::pop_step(before, after, c, r),
    ensures
        after@ == before@.tried(Op::Pop(c as nat), CAPACITY as nat),
        match r {
            Some(item) => {
                let got = before@.ring.gets(Op::Pop(c as nat), c as nat);
                got.len() == 1 && cloned(got[0], item)
            },
            None => before@.ring.gets(Op::Pop(c as nat), c as nat).len() == 0,
        },
{
}

/// A registration through the lazy buffer is one with its ring.
pub proof fn law_lazy_registration_is_tried_on_the_ring<T, const CAPACITY: usize>(
    before: LazyRing<T, CAPACITY>,
    after: LazyRing<T, CAPACITY>,
    limit: usize,
    c: usize,
)
    requires
        spmc_ring_buffer::consumer_step(before, after, limit, Some(c)),
    ensures
        after@ == before@.tried(Op::Join, CAPACITY as nat),
{
}

/// A push through the eager buffer is a push tried on its ring, and it is
/// accepted exactly if the ring has room.
pub proof fn law_eager_push_is_tried_on_the_ring<T, const CAPACITY: usize>(
    before: EagerRing<T, CAPACITY>,
    after: EagerRing<T, CAPACITY>,
    item: T,
    r: Result<(), T>,
)
    requires
        sync_spmc_ring_buffer::push_step(before, after, item, r),
        before@.tail() < usize::MAX,
    ensures
        after@ == before@.tried(
            Op::Push(item),
            CAPACITY as nat,
            oldest_kept(before@.tail(), CAPACITY as nat),
        ),
        r == if before@.has_room(CAPACITY as nat) {
            Ok::<(), T>(())
        } else {
            Err::<(), T>(item)
        },
{
}

/// A pop through the eager buffer is a pop tried on its ring, and the caller gets
/// a clone of what the consumer gets.
pub proof fn law_eager_pop_is_tried_on_the_ring<T: Clone, const CAPACITY: usize>(
    before: EagerRing<T, CAPACITY>,
    after: EagerRing<T, CAPACITY>,
    c: usize,
    r: Option<T>,
)
    requires
        sync_spmc_ring_buffer::pop_step(before, after, c, r),
    ensures
        after@ == before@.tried(
            Op::Pop(c as nat),
            CAPACITY as nat,
            oldest_kept(before@.tail(), CAPACITY as nat),
        ),
        match r {
            Some(item) => {
                let got = before@.gets(Op::Pop(c as nat), c as nat);
                got.len() == 1 && cloned(got[0], item)
            },
            None => before@.gets(Op::Pop(c as nat), c as nat).len() == 0,
        },
{
}

/// A registration through the eager buffer is one with its ring.
pub proof fn law_eager_registration_is_tried_on_the_ring<T, const CAPACITY: usize>(
    before: EagerRing<T, CAPACITY>,
    after: EagerRing<T, CAPACITY>,
    limit: usize,
    c: usize,
)
    requires
        sync_spmc_ring_buffer::consumer_step(before, after, limit, Some(c)),
    ensures
        after@ == before@.tried(
            Op::Join,
            CAPACITY as nat,
            oldest_kept(before@.tail(), CAPACITY as nat),
        ),
{
}

/// States that follow one another by things tried on a lazy ring are a course of
/// that ring, so that what holds over any course holds of them.
pub proof fn law_lazy_steps_make_a_course<T>(
    states: Seq<LazyState<T>>,
    ops: Seq<Op<T>>,
    capacity: nat,
)
    requires
        states.len() == ops.len() + 1,
        forall|i: int|
            0 <= i < ops.len() ==> states[i + 1] == (#[trigger] states[i]).tried(ops[i], capacity),
    ensures
        states.last() == states[0].after(ops, capacity),
    decreases ops.len(),
{
    if ops.len() > 0 {
        let rest = states.drop_first();
        let later = ops.drop_first();
        assert forall|i: int| 0 <= i < later.len() implies rest[i + 1] == (
        #[trigger] rest[i]).tried(later[i], capacity) by {
            assert(states[i + 1 + 1] == states[i + 1].tried(ops[i + 1], capacity));
        }
        law_lazy_steps_make_a_course(rest, later, capacity);
        assert(states[1] == states[0].tried(ops[0], capacity));
    }
}

/// States that follow one another by things tried on an eager ring are a course
/// of that ring, so that what holds over any course holds of them.
pub proof fn law_eager_steps_make_a_course<T>(
    states: Seq<RingState<T>>,
    ops: Seq<Op<T>>,
    capacity: nat,
)
    requires
        states.len() == ops.len() + 1,
        forall|i: int|
            0 <= i < ops.len() ==> states[i + 1] == (#[trigger] states[i]).tried(
                ops[i],
                capacity,
                oldest_kept(states[i].tail(), capacity),
            ),
    ensures
        states.last() == states[0].after(ops, capacity),
    decreases ops.len(),
{
    if ops.len() > 0 {
        let rest = states.drop_first();
        let later = ops.drop_first();
        assert forall|i: int| 0 <= i < later.len() implies rest[i + 1] == (
        #[trigger] rest[i]).tried(later[i], capacity, oldest_kept(rest[i].tail(), capacity)) by {
            let s = states[i + 1];
            assert(states[i + 1 + 1] == s.tried(
                ops[i + 1],
                capacity,
                oldest_kept(s.tail(), capacity),
            ));
        }
        law_eager_steps_make_a_course(rest, later, capacity);
        assert(states[1] == states[0].tried(
            ops[0],
            capacity,
            oldest_kept(states[0].tail(), capacity),
        ));
    }
}

/// `rings` follow one another by `events` on one lazy buffer for `limit`
/// consumers.
pub open spec fn lazy_history<T: Clone, const CAPACITY: usize>(
    rings: Seq<LazyRing<T, CAPACITY>>,
    limit: usize,
    events: Seq<Event<T>>,
) -> bool {
    &&& rings.len() == events.len() + 1
    &&& forall|i: int|
        0 <= i < events.len() ==> spmc_ring_buffer::event_step(
            #[trigger] rings[i],
            rings[i + 1],
            limit,
            events[i],
        )
}

proof fn lemma_lazy_history<T: Clone, const CAPACITY: usize>(
    rings: Seq<LazyRing<T, CAPACITY>>,
    limit: usize,
    events: Seq<Event<T>>,
)
    requires
        lazy_history(rings, limit, events),
        rings[0].seats() == limit,
        rings[0]@ == LazyState::<T>::empty(),
    ensures
        rings.last().seats() == limit,
        rings.last()@.ring.heads.len() == registrations(events),
        rings.last()@.ring.heads.len() <= limit,
        grants(events) == if rings.last()@.ring.has_producer {
            1nat
        } else {
            0nat
        },
    decreases events.len(),
{
    if events.len() > 0 {
        let n = events.len() - 1;
        let front = rings.drop_last();
        let earlier = events.drop_last();
        assert forall|i: int| 0 <= i < earlier.len() implies spmc_ring_buffer::event_step(
            #[trigger] front[i],
            front[i + 1],
            limit,
            earlier[i],
        ) by {
            assert(spmc_ring_buffer::event_step(rings[i], rings[i + 1], limit, events[i]));
        }
        lemma_lazy_history(front, limit, earlier);
        assert(spmc_ring_buffer::event_step(rings[n], rings[n + 1], limit, events[n]));
    }
}

/// Exactly `limit` consumers can register with the lazy buffer, whatever
/// else happens: the next registration succeeds exactly if fewer have, it gets
/// the number of those before it, which no other has, and one that fails changes
/// nothing.
pub proof fn law_lazy_buffer_registers_exactly_its_limit<T: Clone, const CAPACITY: usize>(
    rings: Seq<LazyRing<T, CAPACITY>>,
    limit: usize,
    events: Seq<Event<T>>,
    after: LazyRing<T, CAPACITY>,
    r: Option<usize>,
)
    requires
        lazy_history(rings, limit, events),
        rings[0].seats() == limit,
        rings[0]@ == LazyState::<T>::empty(),
        spmc_ring_buffer::consumer_step(rings.last(), after, limit, r),
    ensures
        r is Some <==> registrations(events) < limit,
        r matches Some(c) ==> c == registrations(events),
        r is None ==> after@ == rings.last()@,
{
    lemma_lazy_history(rings, limit, events);
}

/// The producer of the lazy buffer is granted once, whatever else happens.
pub proof fn law_lazy_buffer_grants_one_producer<T: Clone, const CAPACITY: usize>(
    rings: Seq<LazyRing<T, CAPACITY>>,
    limit: usize,
    events: Seq<Event<T>>,
    after: LazyRing<T, CAPACITY>,
    granted: bool,
)
    requires
        lazy_history(rings, limit, events),
        rings[0].seats() == limit,
        rings[0]@ == LazyState::<T>::empty(),
        spmc_ring_buffer::producer_step(rings.last(), after, granted),
    ensures
        granted <==> grants(events) == 0,
        grants(events) <= 1,
        !granted ==> after@ == rings.last()@,
{
    lemma_lazy_history(rings, limit, events);
}

/// A push that was refused is refused again as long as nothing else happens, and
/// neither attempt changes anything.
pub proof fn law_lazy_refusal_lasts<T, const CAPACITY: usize>(
    before: LazyRing<T, CAPACITY>,
    after: LazyRing<T, CAPACITY>,
    later: LazyRing<T, CAPACITY>,
    item: T,
    other: T,
    first: Result<(), T>,
    second: Result<(), T>,
)
    requires
        spmc_ring_buffer::push_step(before, after, item, first),
        spmc_ring_buffer::push_step(after, later, other, second),
        first is Err,
    ensures
        first == Err::<(), T>(item),
        second == Err::<(), T>(other),
        after@ == before@,
        later@ == before@,
{
}

/// `rings` follow one another by `events` on one eager buffer for `limit`
/// consumers.
pub open spec fn eager_history<T: Clone, const CAPACITY: usize>(
    rings: Seq<EagerRing<T, CAPACITY>>,
    limit: usize,
    events: Seq<Event<T>>,
) -> bool {
    &&& rings.len() == events.len() + 1
    &&& forall|i: int|
        0 <= i < events.len() ==> sync_spmc_ring_buffer::event_step(
            #[trigger] rings[i],
            rings[i + 1],
            limit,
            events[i],
        )
}

proof fn lemma_eager_history<T: Clone, const CAPACITY: usize>(
    rings: Seq<EagerRing<T, CAPACITY>>,
    limit: usize,
    events: Seq<Event<T>>,
)
    requires
        eager_history(rings, limit, events),
        rings[0].seats() == limit,
        rings[0]@ == RingState::<T>::empty(),
    ensures
        rings.last().seats() == limit,
        rings.last()@.heads.len() == registrations(events),
        rings.last()@.heads.len() <= limit,
        grants(events) == if rings.last()@.has_producer {
            1nat
        } else {
            0nat
        },
    decreases events.len(),
{
    if events.len() > 0 {
        let n = events.len() - 1;
        let front = rings.drop_last();
        let earlier = events.drop_last();
        assert forall|i: int| 0 <= i < earlier.len() implies sync_spmc_ring_buffer::event_step(
            #[trigger] front[i],
            front[i + 1],
            limit,
            earlier[i],
        ) by {
            assert(sync_spmc_ring_buffer::event_step(rings[i], rings[i + 1], limit, events[i]));
        }
        lemma_eager_history(front, limit, earlier);
        assert(sync_spmc_ring_buffer::event_step(rings[n], rings[n + 1], limit, events[n]));
    }
}

/// Exactly `limit` consumers can register with the eager buffer, whatever
/// else happens: the next registration succeeds exactly if fewer have, it gets
/// the number of those before it, which no other has, and one that fails changes
/// nothing.
pub proof fn law_eager_buffer_registers_exactly_its_limit<T: Clone, const CAPACITY: usize>(
    rings: Seq<EagerRing<T, CAPACITY>>,
    limit: usize,
    events: Seq<Event<T>>,
    after: EagerRing<T, CAPACITY>,
    r: Option<usize>,
)
    requires
        eager_history(rings, limit, events),
        rings[0].seats() == limit,
        rings[0]@ == RingState::<T>::empty(),
        sync_spmc_ring_buffer::consumer_step(rings.last(), after, limit, r),
    ensures
        r is Some <==> registrations(events) < limit,
        r matches Some(c) ==> c == registrations(events),
        r is None ==> after@ == rings.last()@,
{
    lemma_eager_history(rings, limit, events);
}

/// The producer of the eager buffer is granted once, whatever else happens.
pub proof fn law_eager_buffer_grants_one_producer<T: Clone, const CAPACITY: usize>(
    rings: Seq<EagerRing<T, CAPACITY>>,
    limit: usize,
    events: Seq<Event<T>>,
    after: EagerRing<T, CAPACITY>,
    granted: bool,
)
    requires
        eager_history(rings, limit, events),
        rings[0].seats() == limit,
        rings[0]@ == RingState::<T>::empty(),
        sync_spmc_ring_buffer::producer_step(rings.last(), after, granted),
    ensures
        granted <==> grants(events) == 0,
        grants(events) <= 1,
        !granted ==> after@ == rings.last()@,
{
    lemma_eager_history(rings, limit, events);
}

/// A push that was refused is refused again as long as nothing else happens, and
/// neither attempt changes anything.
pub proof fn law_eager_refusal_lasts<T, const CAPACITY: usize>(
    before: EagerRing<T, CAPACITY>,
    after: EagerRing<T, CAPACITY>,
    later: EagerRing<T, CAPACITY>,
    item: T,
    other: T,
    first: Result<(), T>,
    second: Result<(), T>,
)
    requires
        sync_spmc_ring_buffer::push_step(before, after, item, first),
        sync_spmc_ring_buffer::push_step(after, later, other, second),
        first is Err,
    ensures
        first == Err::<(), T>(item),
        second == Err::<(), T>(other),
        after@ == before@,
        later@ == before@,
{
}

/// On rings in the same state both buffers answer a push alike, and their rings
/// stay in the same state.
pub proof fn law_buffers_agree_on_pushes<T, const CAPACITY: usize>(
    lazy: LazyRing<T, CAPACITY>,
    lazy_after: LazyRing<T, CAPACITY>,
    eager: EagerRing<T, CAPACITY>,
    eager_after: EagerRing<T, CAPACITY>,
    item: T,
    lazy_answer: Result<(), T>,
    eager_answer: Result<(), T>,
)
    requires
        lazy@.ring == eager@,
        spmc_ring_buffer::push_step(lazy, lazy_after, item, lazy_answer),
        sync_spmc_ring_buffer::push_step(eager, eager_after, item, eager_answer),
    ensures
        lazy_answer == eager_answer,
        lazy_after@.ring == eager_after@,
{
}

/// On rings in the same state both buffers answer a pop alike, by clones of the
/// same item, and their rings stay in the same state.
pub proof fn law_buffers_agree_on_pops<T: Clone, const CAPACITY: usize>(
    lazy: LazyRing<T, CAPACITY>,
    lazy_after: LazyRing<T, CAPACITY>,
    eager: EagerRing<T, CAPACITY>,
    eager_after: EagerRing<T, CAPACITY>,
    c: usize,
    lazy_answer: Option<T>,
    eager_answer: Option<T>,
)
    requires
        lazy@.ring == eager@,
        spmc_ring_buffer::pop_step(lazy, lazy_after, c, lazy_answer),
        sync_spmc_ring_buffer::pop_step(eager, eager_after, c, eager_answer),
    ensures
        match (lazy_answer, eager_answer) {
            (Some(a), Some(b)) => {
                &&& cloned(eager@.next(c as int), a)
                &&& cloned(eager@.next(c as int), b)
            },
            (None, None) => true,
            _ => false,
        },
        lazy_after@.ring == eager_after@,
{
}

/// On rings in the same state both buffers number a new consumer alike. It starts
/// at the same item too if the lazy producer has last seen the slowest consumer
/// at the oldest item kept, as is so throughout the first turn.
pub proof fn law_buffers_agree_on_registration<T, const CAPACITY: usize>(
    lazy: LazyRing<T, CAPACITY>,
    lazy_after: LazyRing<T, CAPACITY>,
    eager: EagerRing<T, CAPACITY>,
    eager_after: EagerRing<T, CAPACITY>,
    limit: usize,
    lazy_number: Option<usize>,
    eager_number: Option<usize>,
)
    requires
        lazy@.ring == eager@,
        lazy.seats() == eager.seats(),
        spmc_ring_buffer::consumer_step(lazy, lazy_after, limit, lazy_number),
        sync_spmc_ring_buffer::consumer_step(eager, eager_after, limit, eager_number),
    ensures
        lazy_number == eager_number,
        lazy@.cached == oldest_kept(eager@.tail(), CAPACITY as nat) ==> lazy_after@.ring
            == eager_after@,
{
}

/// On rings in the same state both buffers grant the producer alike.
pub proof fn law_buffers_agree_on_the_producer<T, const CAPACITY: usize>(
    lazy: LazyRing<T, CAPACITY>,
    lazy_after: LazyRing<T, CAPACITY>,
    eager: EagerRing<T, CAPACITY>,
    eager_after: EagerRing<T, CAPACITY>,
    lazy_granted: bool,
    eager_granted: bool,
)
    requires
        lazy@.ring == eager@,
        spmc_ring_buffer::producer_step(lazy, lazy_after, lazy_granted),
        sync_spmc_ring_buffer::producer_step(eager, eager_after, eager_granted),
    ensures
        lazy_granted == eager_granted,
        lazy_after@.ring == eager_after@,
{
}

} // verus!
