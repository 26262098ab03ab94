//! What one operation on a shared ring does to it, whatever its producer keeps
//! besides.

use crate::ring_buffer::model::RingState;
use crate::ring_buffer::vault::Valid;
use vstd::prelude::*;

verus! {

/// One operation on a shared ring, and how it was answered.
pub enum Event<T> {
    /// A push of an item.
    Push(T, Result<(), T>),
    /// A pop of the consumer with a number.
    Pop(usize, Option<T>),
    /// Asking for the producer.
    Claim(bool),
    /// Registering a consumer.
    Register(Option<usize>),
}

/// How many consumers the events have registered.
pub open spec fn registrations<T>(events: Seq<Event<T>>) -> nat
    decreases events.len(),
{
    if events.len() == 0 {
        0
    } else {
        registrations(events.drop_last()) + if events.last() matches Event::Register(Some(_)) {
            1nat
        } else {
            0nat
        }
    }
}

/// How often the producer has been granted.
pub open spec fn grants<T>(events: Seq<Event<T>>) -> nat
    decreases events.len(),
{
    if events.len() == 0 {
        0
    } else {
        grants(events.drop_last()) + if events.last() matches Event::Claim(true) {
            1nat
        } else {
            0nat
        }
    }
}

/// A ring that can be shared.
pub trait SharedRing<T>: Valid {
    /// The stream, and where the consumers are in it.
    spec fn state(&self) -> RingState<T>;

    /// How many consumers can register.
    spec fn places(&self) -> nat;
}

/// An attempt to push `item` is answered by `r` and leaves `after`: the item is
/// published if there is room and positions can still be counted, and comes back
/// otherwise.
pub open spec fn pushes<T>(
    before: RingState<T>,
    after: RingState<T>,
    capacity: usize,
    item: T,
    r: Result<(), T>,
) -> bool {
    &&& before.inv(capacity as nat)
    &&& after.inv(capacity as nat)
    &&& if before.has_room(capacity as nat) && before.tail() < usize::MAX {
        r == Ok::<(), T>(()) && after == before.pushed(item)
    } else {
        r == Err::<(), T>(item) && after == before
    }
}

/// An attempt of consumer `c` to pop is answered by `r` and leaves `after`: it
/// gets a clone of its next item and moves past it, unless it has caught up.
pub open spec fn pops<T: Clone>(
    before: RingState<T>,
    after: RingState<T>,
    capacity: usize,
    c: usize,
    r: Option<T>,
) -> bool {
    &&& before.inv(capacity as nat)
    &&& after.inv(capacity as nat)
    &&& r is Some <==> c < before.heads.len() && before.has_next(c as int)
    &&& match r {
        Some(item) => cloned(before.next(c as int), item) && after == before.popped(c as int),
        None => after == before,
    }
}

/// Asking for the producer grants it, or not, and leaves `after`: it can be had
/// once.
pub open spec fn claims<T>(before: RingState<T>, after: RingState<T>, granted: bool) -> bool {
    &&& granted == !before.has_producer
    &&& after == before.with_producer()
}

/// Registering gives the consumer number `r`, or none, and leaves `after`.
/// Consumers are numbered in order, and there is none if `limit` consumers are
/// registered or all `places` are taken. A new consumer starts at an item that is
/// still kept.
pub open spec fn joins<T>(
    before: RingState<T>,
    after: RingState<T>,
    capacity: usize,
    limit: usize,
    places: nat,
    r: Option<usize>,
) -> bool {
    let registered = before.heads.len();
    &&& before.inv(capacity as nat)
    &&& after.inv(capacity as nat)
    &&& r is Some <==> registered < limit && registered < places
    &&& match r {
        Some(c) => c == registered && after == before.joined(after.heads.last()),
        None => after == before,
    }
}

} // verus!
