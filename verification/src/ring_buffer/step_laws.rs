//! What one step of a buffer does, and what any course of steps adds up to, in
//! terms of the stream and of the positions in it.

use crate::ring_buffer::buffer_laws::{eager_history, lazy_history};
use crate::ring_buffer::eager_ring::EagerRing;
use crate::ring_buffer::ends::{ConsumerOp, ProducerOp, RegistrarOp};
use crate::ring_buffer::lazy_ring::LazyRing;
use crate::ring_buffer::model::lemma_slowest_is_least;
use crate::ring_buffer::spmc_ring_buffer;
use crate::ring_buffer::steps::{Event, SharedRing};
use crate::ring_buffer::sync_spmc_ring_buffer;
use vstd::prelude::*;

verus! {

/// Whatever is run through a producer's end, no consumer moves, none comes, and
/// the stream stays as it is or grows by the one item that the operation carries.
pub proof fn law_producers_move_no_consumer<T, R: SharedRing<T>, O: ProducerOp<T, R>>(
    op: O,
    before: R,
    after: R,
    r: O::Answer,
)
    requires
        op.step(before, after, r),
    ensures
        after.state().heads == before.state().heads,
        after.state().has_producer == before.state().has_producer,
        after.state().stream.len() <= before.state().stream.len() + 1,
        before.state().stream.is_prefix_of(after.state().stream),
        after.state().stream.len() > before.state().stream.len() ==> op.carried() == Some(
            after.state().stream.last(),
        ),
{
    op.law_moves_no_consumer(before, after, r);
}

/// Whatever is run through the end of consumer `c`, nothing is published, no other
/// consumer moves, and `c` moves on by one item at most.
pub proof fn law_consumers_move_only_themselves<T, R: SharedRing<T>, O: ConsumerOp<T, R>>(
    op: O,
    c: usize,
    before: R,
    after: R,
    r: O::Answer,
    d: int,
)
    requires
        op.step(c, before, after, r),
        0 <= d < before.state().heads.len(),
    ensures
        after.state().stream == before.state().stream,
        after.state().has_producer == before.state().has_producer,
        after.state().heads.len() == before.state().heads.len(),
        d != c ==> after.state().heads[d] == before.state().heads[d],
        before.state().heads[d] <= after.state().heads[d] <= before.state().heads[d] + 1,
{
    op.law_moves_no_other_consumer(c, before, after, r);
    assert(d != c ==> after.state().heads[d] == before.state().heads[d]);
}

/// Whatever hands out a handle, nothing is published, and no consumer that was
/// registered moves.
pub proof fn law_handing_out_moves_no_consumer<T, R: SharedRing<T>, O: RegistrarOp<T, R>>(
    op: O,
    before: R,
    after: R,
    r: O::Answer,
    d: int,
)
    requires
        op.step(before, after, r),
        0 <= d < before.state().heads.len(),
    ensures
        after.state().stream == before.state().stream,
        after.state().heads.len() <= before.state().heads.len() + 1,
        after.state().heads[d] == before.state().heads[d],
        before.state().has_producer ==> after.state().has_producer,
{
    op.law_moves_no_registered_consumer(before, after, r);
}

/// The items that were accepted, in order.
pub open spec fn published<T>(events: Seq<Event<T>>) -> Seq<T>
    decreases events.len(),
{
    if events.len() == 0 {
        Seq::empty()
    } else {
        match events.last() {
            Event::Push(item, Ok(_)) => published(events.drop_last()).push(item),
            _ => published(events.drop_last()),
        }
    }
}

/// The items that consumer `c` was given, in order.
pub open spec fn given_to<T>(events: Seq<Event<T>>, c: usize) -> Seq<T>
    decreases events.len(),
{
    if events.len() == 0 {
        Seq::empty()
    } else {
        match events.last() {
            Event::Pop(d, Some(item)) if d == c => given_to(events.drop_last(), c).push(item),
            _ => given_to(events.drop_last(), c),
        }
    }
}

/// A push through the lazy buffer is refused exactly if some consumer is a full
/// ring behind, or the items can be counted no further. The item then comes back
/// and nothing has changed. Otherwise the stream has grown by the item, at its end,
/// and every consumer is where it was. The producer looks at the consumers only if
/// the position that it has cached makes the ring look full, and then sees the
/// slowest one.
pub proof fn law_lazy_push_publishes_the_item<T, const CAPACITY: usize>(
    before: LazyRing<T, CAPACITY>,
    after: LazyRing<T, CAPACITY>,
    item: T,
    r: Result<(), T>,
)
    requires
        spmc_ring_buffer::push_step(before, after, item, r),
    ensures
        r is Err <==> before@.ring.stream.len() >= usize::MAX || exists|c: int|
            0 <= c < before@.ring.heads.len() && before@.ring.stream.len() == #[trigger] before@.ring.heads[c] + CAPACITY,
        r is Err ==> r == Err::<(), T>(item) && after@ == before@,
        r is Ok ==> after@.ring.stream.len() == before@.ring.stream.len() + 1,
        r is Ok ==> after@.ring.stream.drop_last() == before@.ring.stream,
        r is Ok ==> after@.ring.stream.last() == item,
        after@.ring.heads == before@.ring.heads,
        after@.ring.has_producer == before@.ring.has_producer,
        after.seats() == before.seats(),
        before@.ring.stream.len() < before@.cached + CAPACITY ==> after@.cached == before@.cached,
        r is Ok && before@.ring.stream.len() == before@.cached + CAPACITY ==> after@.cached
            <= before@.ring.stream.len() && (forall|c: int|
            0 <= c < before@.ring.heads.len() ==> after@.cached <= #[trigger] before@.ring.heads[c])
            && (after@.cached == before@.ring.stream.len() || exists|c: int|
            0 <= c < before@.ring.heads.len() && #[trigger] before@.ring.heads[c] == after@.cached),
{
    before.lemma_capacity();
    lemma_slowest_is_least(before@.ring.heads, before@.ring.tail());
    if r is Ok {
        assert(after@.ring.stream.drop_last() =~= before@.ring.stream);
    }
}

/// A pop through the lazy buffer gives a clone of the item at the consumer's
/// position, and moves the consumer on by exactly one; if there is no such item it
/// gives nothing and moves nothing. Everything else stays.
pub proof fn law_lazy_pop_moves_on_by_one<T: Clone, const CAPACITY: usize>(
    before: LazyRing<T, CAPACITY>,
    after: LazyRing<T, CAPACITY>,
    c: usize,
    r: Option<T>,
    d: int,
)
    requires
        spmc_ring_buffer::pop_step(before, after, c, r),
        0 <= d < before@.ring.heads.len(),
    ensures
        r is Some <==> c < before@.ring.heads.len() && before@.ring.heads[c as int] < before@.ring.stream.len(),
        r matches Some(item) ==> cloned(before@.ring.stream[before@.ring.heads[c as int] as int], item),
        r is Some ==> after@.ring.heads[c as int] == before@.ring.heads[c as int] + 1,
        r is None ==> after@ == before@,
        d != c ==> after@.ring.heads[d] == before@.ring.heads[d],
        after@.ring.heads.len() == before@.ring.heads.len(),
        after@.ring.stream == before@.ring.stream,
        after@.ring.has_producer == before@.ring.has_producer,
        after.seats() == before.seats(),
        after@.cached == before@.cached,
{
}

/// The lazy buffer grants its producer exactly if it has not before, and touches
/// nothing else.
pub proof fn law_lazy_producer_is_granted_once<T, const CAPACITY: usize>(
    before: LazyRing<T, CAPACITY>,
    after: LazyRing<T, CAPACITY>,
    granted: bool,
)
    requires
        spmc_ring_buffer::producer_step(before, after, granted),
    ensures
        granted <==> !before@.ring.has_producer,
        after@.ring.has_producer,
        after@.ring.stream == before@.ring.stream,
        after@.ring.heads == before@.ring.heads,
        after.seats() == before.seats(),
        after@.cached == before@.cached,
{
}

/// A registration with the lazy buffer fails exactly if all places are taken.
/// Otherwise the new consumer gets the next number and starts at the position that
/// the producer has cached, which is not ahead of any other consumer and from which
/// on every item is still kept. Nothing else changes.
pub proof fn law_lazy_consumers_start_at_a_kept_item<T, const CAPACITY: usize>(
    before: LazyRing<T, CAPACITY>,
    after: LazyRing<T, CAPACITY>,
    limit: usize,
    r: Option<usize>,
)
    requires
        spmc_ring_buffer::consumer_step(before, after, limit, r),
    ensures
        r is None <==> before@.ring.heads.len() >= limit || before@.ring.heads.len() >= before.seats(),
        r is None ==> after@ == before@,
        r matches Some(c) ==> c == before@.ring.heads.len(),
        r is Some ==> after@.ring.heads.len() == before@.ring.heads.len() + 1,
        r is Some ==> after@.ring.heads.drop_last() == before@.ring.heads,
        r is Some ==> after@.ring.heads.last() <= after@.ring.stream.len() <= after@.ring.heads.last() + CAPACITY,
        r is Some ==> after@.ring.heads.last() == before@.cached,
        r is Some ==> forall|d: int|
            0 <= d < before@.ring.heads.len() ==> after@.ring.heads.last()
                <= #[trigger] before@.ring.heads[d],
        after@.ring.stream == before@.ring.stream,
        after@.ring.has_producer == before@.ring.has_producer,
        after.seats() == before.seats(),
        after@.cached == before@.cached,
{
    if r is Some {
        assert(after@.ring.heads.drop_last() =~= before@.ring.heads);
        assert(after@.ring.heads[after@.ring.heads.len() - 1] <= after@.ring.tail());
        lemma_slowest_is_least(before@.ring.heads, before@.ring.tail());
    }
}

/// Whatever happens on the lazy buffer, in whatever order: the stream grows by
/// exactly the accepted items, in order, and a consumer moves on by exactly as
/// many items as it was given, which are clones of those that it passed, in order.
pub proof fn law_lazy_course_accounts_for_every_item<T: Clone, const CAPACITY: usize>(
    rings: Seq<LazyRing<T, CAPACITY>>,
    limit: usize,
    events: Seq<Event<T>>,
    c: usize,
)
    requires
        lazy_history(rings, limit, events),
        c < rings[0]@.ring.heads.len(),
    ensures
        rings.last()@.ring.stream == rings[0]@.ring.stream + published(events),
        c < rings.last()@.ring.heads.len(),
        rings.last()@.ring.heads[c as int] == rings[0]@.ring.heads[c as int] + given_to(
            events,
            c,
        ).len(),
        forall|i: int|
            0 <= i < given_to(events, c).len() ==> cloned(
                rings.last()@.ring.stream[rings[0]@.ring.heads[c as int] + i],
                #[trigger] given_to(events, c)[i],
            ),
    decreases events.len(),
{
    let first = rings[0]@.ring;
    let last = rings.last()@.ring;
    if events.len() == 0 {
        assert(first.stream + published(events) =~= first.stream);
    } else {
        let n = events.len() - 1;
        let front = rings.drop_last();
        let earlier = events.drop_last();
        assert forall|i: int| 0 <= i < earlier.len() implies spmc_ring_buffer::event_step(
            #[trigger] front[i],
            front[i + 1],
            limit,
            earlier[i],
        ) by {
            assert(spmc_ring_buffer::event_step(rings[i], rings[i + 1], limit, events[i]));
        }
        law_lazy_course_accounts_for_every_item(front, limit, earlier, c);
        assert(spmc_ring_buffer::event_step(rings[n], rings[n + 1], limit, events[n]));
        let middle = rings[n]@.ring;
        assert(front.last() == rings[n] && rings.last() == rings[n + 1]);
        if let Event::Push(item, r) = events[n] {
            law_lazy_push_publishes_the_item(rings[n], rings[n + 1], item, r);
        }
        assert(last.stream =~= first.stream + published(events));
        let given = given_to(events, c);
        let sooner = given_to(earlier, c);
        assert forall|i: int| 0 <= i < given.len() implies cloned(
            last.stream[first.heads[c as int] + i],
            #[trigger] given[i],
        ) by {
            assert(middle.heads[c as int] == first.heads[c as int] + sooner.len());
            if i < sooner.len() {
                assert(given[i] == sooner[i]);
                assert(middle.heads[c as int] <= middle.tail());
                assert(last.stream[first.heads[c as int] + i] == middle.stream[first.heads[c as int]
                    + i]);
            }
        }
    }
}

/// A push through the eager buffer is refused exactly if some consumer is a full
/// ring behind, or the items can be counted no further. The item then comes back
/// and nothing has changed. Otherwise the stream has grown by the item, at its end,
/// and every consumer is where it was.
pub proof fn law_eager_push_publishes_the_item<T, const CAPACITY: usize>(
    before: EagerRing<T, CAPACITY>,
    after: EagerRing<T, CAPACITY>,
    item: T,
    r: Result<(), T>,
)
    requires
        sync_spmc_ring_buffer::push_step(before, after, item, r),
    ensures
        r is Err <==> before@.stream.len() >= usize::MAX || exists|c: int|
            0 <= c < before@.heads.len() && before@.stream.len() == #[trigger] before@.heads[c] + CAPACITY,
        r is Err ==> r == Err::<(), T>(item) && after@ == before@,
        r is Ok ==> after@.stream.len() == before@.stream.len() + 1,
        r is Ok ==> after@.stream.drop_last() == before@.stream,
        r is Ok ==> after@.stream.last() == item,
        after@.heads == before@.heads,
        after@.has_producer == before@.has_producer,
        after.seats() == before.seats(),
{
    before.lemma_capacity();
    lemma_slowest_is_least(before@.heads, before@.tail());
    if r is Ok {
        assert(after@.stream.drop_last() =~= before@.stream);
    }
}

/// A pop through the eager buffer gives a clone of the item at the consumer's
/// position, and moves the consumer on by exactly one; if there is no such item it
/// gives nothing and moves nothing. Everything else stays.
pub proof fn law_eager_pop_moves_on_by_one<T: Clone, const CAPACITY: usize>(
    before: EagerRing<T, CAPACITY>,
    after: EagerRing<T, CAPACITY>,
    c: usize,
    r: Option<T>,
    d: int,
)
    requires
        sync_spmc_ring_buffer::pop_step(before, after, c, r),
        0 <= d < before@.heads.len(),
    ensures
        r is Some <==> c < before@.heads.len() && before@.heads[c as int] < before@.stream.len(),
        r matches Some(item) ==> cloned(before@.stream[before@.heads[c as int] as int], item),
        r is Some ==> after@.heads[c as int] == before@.heads[c as int] + 1,
        r is None ==> after@ == before@,
        d != c ==> after@.heads[d] == before@.heads[d],
        after@.heads.len() == before@.heads.len(),
        after@.stream == before@.stream,
        after@.has_producer == before@.has_producer,
        after.seats() == before.seats(),
{
}

/// The eager buffer grants its producer exactly if it has not before, and touches
/// nothing else.
pub proof fn law_eager_producer_is_granted_once<T, const CAPACITY: usize>(
    before: EagerRing<T, CAPACITY>,
    after: EagerRing<T, CAPACITY>,
    granted: bool,
)
    requires
        sync_spmc_ring_buffer::producer_step(before, after, granted),
    ensures
        granted <==> !before@.has_producer,
        after@.has_producer,
        after@.stream == before@.stream,
        after@.heads == before@.heads,
        after.seats() == before.seats(),
{
}

/// A registration with the eager buffer fails exactly if all places are taken.
/// Otherwise the new consumer gets the next number and starts at the first item of
/// the stream, or a full ring behind its end if it is longer, so that every item
/// from there on is still kept. Nothing else changes.
pub proof fn law_eager_consumers_start_at_a_kept_item<T, const CAPACITY: usize>(
    before: EagerRing<T, CAPACITY>,
    after: EagerRing<T, CAPACITY>,
    limit: usize,
    r: Option<usize>,
)
    requires
        sync_spmc_ring_buffer::consumer_step(before, after, limit, r),
    ensures
        r is None <==> before@.heads.len() >= limit || before@.heads.len() >= before.seats(),
        r is None ==> after@ == before@,
        r matches Some(c) ==> c == before@.heads.len(),
        r is Some ==> after@.heads.len() == before@.heads.len() + 1,
        r is Some ==> after@.heads.drop_last() == before@.heads,
        r is Some ==> after@.heads.last() <= after@.stream.len() <= after@.heads.last() + CAPACITY,
        r is Some && before@.stream.len() <= CAPACITY ==> after@.heads.last() == 0,
        r is Some && before@.stream.len() >= CAPACITY ==> after@.heads.last() + CAPACITY
            == before@.stream.len(),
        after@.stream == before@.stream,
        after@.has_producer == before@.has_producer,
        after.seats() == before.seats(),
{
    if r is Some {
        assert(after@.heads.drop_last() =~= before@.heads);
        assert(after@.heads[after@.heads.len() - 1] <= after@.tail());
    }
}

/// Whatever happens on the eager buffer, in whatever order: the stream grows by
/// exactly the accepted items, in order, and a consumer moves on by exactly as
/// many items as it was given, which are clones of those that it passed, in order.
pub proof fn law_eager_course_accounts_for_every_item<T: Clone, const CAPACITY: usize>(
    rings: Seq<EagerRing<T, CAPACITY>>,
    limit: usize,
    events: Seq<Event<T>>,
    c: usize,
)
    requires
        eager_history(rings, limit, events),
        c < rings[0]@.heads.len(),
    ensures
        rings.last()@.stream == rings[0]@.stream + published(events),
        c < rings.last()@.heads.len(),
        rings.last()@.heads[c as int] == rings[0]@.heads[c as int] + given_to(
            events,
            c,
        ).len(),
        forall|i: int|
            0 <= i < given_to(events, c).len() ==> cloned(
                rings.last()@.stream[rings[0]@.heads[c as int] + i],
                #[trigger] given_to(events, c)[i],
            ),
    decreases events.len(),
{
    let first = rings[0]@;
    let last = rings.last()@;
    if events.len() == 0 {
        assert(first.stream + published(events) =~= first.stream);
    } else {
        let n = events.len() - 1;
        let front = rings.drop_last();
        let earlier = events.drop_last();
        assert forall|i: int| 0 <= i < earlier.len() implies sync_spmc_ring_buffer::event_step(
            #[trigger] front[i],
            front[i + 1],
            limit,
            earlier[i],
        ) by {
            assert(sync_spmc_ring_buffer::event_step(rings[i], rings[i + 1], limit, events[i]));
        }
        law_eager_course_accounts_for_every_item(front, limit, earlier, c);
        assert(sync_spmc_ring_buffer::event_step(rings[n], rings[n + 1], limit, events[n]));
        let middle = rings[n]@;
        assert(front.last() == rings[n] && rings.last() == rings[n + 1]);
        if let Event::Push(item, r) = events[n] {
            law_eager_push_publishes_the_item(rings[n], rings[n + 1], item, r);
        }
        assert(last.stream =~= first.stream + published(events));
        let given = given_to(events, c);
        let sooner = given_to(earlier, c);
        assert forall|i: int| 0 <= i < given.len() implies cloned(
            last.stream[first.heads[c as int] + i],
            #[trigger] given[i],
        ) by {
            assert(middle.heads[c as int] == first.heads[c as int] + sooner.len());
            if i < sooner.len() {
                assert(given[i] == sooner[i]);
                assert(middle.heads[c as int] <= middle.tail());
                assert(last.stream[first.heads[c as int] + i] == middle.stream[first.heads[c as int]
                    + i]);
            }
        }
    }
}

} // verus!
