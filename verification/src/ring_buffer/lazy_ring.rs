//! A ring whose producer caches the position of the slowest consumer and looks
//! again only when the cached position says that the ring is full.

use crate::ring_buffer::cursors::Cursors;
use crate::ring_buffer::model::{
    law_join_keeps_ring_valid, law_pop_keeps_ring_valid, law_push_keeps_ring_valid,
    lemma_slowest_is_greatest_bound, lemma_slowest_is_least, RingState,
};
use crate::ring_buffer::slots::{is_power_of_two, Slots};
use vstd::prelude::*;

verus! {

/// The state of a ring with a lazy producer: the ring itself, and the last
/// position of the slowest consumer that the producer has seen.
pub struct LazyState<T> {
    pub ring: RingState<T>,
    pub cached: nat,
}

impl<T> LazyState<T> {
    /// A ring on which nothing has happened yet.
    pub open spec fn empty() -> Self {
        LazyState { ring: RingState::empty(), cached: 0 }
    }

    /// The cached position may lag behind the slowest consumer, but it is
    /// never ahead of it, and what lies between it and the tail fits the ring.
    pub open spec fn inv(self, capacity: nat) -> bool {
        &&& self.ring.inv(capacity)
        &&& self.cached <= self.ring.true_min()
        &&& self.ring.tail() <= self.cached + capacity
    }

    /// The cached position that an attempt to push leaves behind: if the ring
    /// looks full, the producer looks at the consumers again.
    pub open spec fn requeried(self, capacity: nat) -> nat {
        if self.ring.tail() - self.cached == capacity {
            self.ring.true_min()
        } else {
            self.cached
        }
    }

    /// The state after `item` was published.
    pub open spec fn pushed(self, item: T, capacity: nat) -> Self {
        LazyState { ring: self.ring.pushed(item), cached: self.requeried(capacity) }
    }

    /// The state after consumer `c` read its next item.
    pub open spec fn popped(self, c: int) -> Self {
        LazyState { ring: self.ring.popped(c), ..self }
    }

    /// The state after a further consumer registered. It starts at the oldest
    /// item that the producer still takes for unread, which is the first item
    /// of the stream as long as the producer has not gone once around.
    pub open spec fn joined(self) -> Self {
        LazyState { ring: self.ring.joined(self.cached), ..self }
    }

    /// The state after the producer was handed out.
    pub open spec fn with_producer(self) -> Self {
        LazyState { ring: self.ring.with_producer(), ..self }
    }
}

/// The producer's cached position is never ahead of the slowest consumer.
pub proof fn law_cache_is_never_ahead<T>(s: LazyState<T>, capacity: nat)
    requires
        s.inv(capacity),
    ensures
        s.cached <= s.ring.true_min(),
        forall|c: int| 0 <= c < s.ring.heads.len() ==> s.cached <= #[trigger] s.ring.heads[c],
{
    lemma_slowest_is_least(s.ring.heads, s.ring.tail());
}

/// Accepting a push keeps the state valid.
pub proof fn law_push_keeps_state_valid<T>(s: LazyState<T>, item: T, capacity: nat)
    requires
        s.inv(capacity),
        s.ring.has_room(capacity),
    ensures
        s.pushed(item, capacity).inv(capacity),
{
    lemma_slowest_is_least(s.ring.heads, s.ring.tail());
    let after = s.pushed(item, capacity);
    law_push_keeps_ring_valid(s.ring, item, capacity);
    lemma_slowest_is_greatest_bound(after.ring.heads, after.ring.tail(), after.cached);
}

/// Reading an item keeps the state valid.
pub proof fn law_pop_keeps_state_valid<T>(s: LazyState<T>, c: int, capacity: nat)
    requires
        s.inv(capacity),
        0 <= c < s.ring.heads.len(),
        s.ring.has_next(c),
    ensures
        s.popped(c).inv(capacity),
{
    lemma_slowest_is_least(s.ring.heads, s.ring.tail());
    let after = s.popped(c);
    law_pop_keeps_ring_valid(s.ring, c, capacity);
    lemma_slowest_is_greatest_bound(after.ring.heads, after.ring.tail(), after.cached);
}

/// Registering a consumer keeps the state valid.
pub proof fn law_join_keeps_state_valid<T>(s: LazyState<T>, capacity: nat)
    requires
        s.inv(capacity),
    ensures
        s.joined().inv(capacity),
{
    lemma_slowest_is_least(s.ring.heads, s.ring.tail());
    let after = s.joined();
    law_join_keeps_ring_valid(s.ring, s.cached, capacity);
    lemma_slowest_is_greatest_bound(after.ring.heads, after.ring.tail(), after.cached);
}

/// The ring behind one lazy producer.
pub struct LazyRing<T, const CAPACITY: usize> {
    slots: Slots<T, CAPACITY>,
    heads: Cursors,
    cached: usize,
    has_producer: bool,
}

impl<T, const CAPACITY: usize> View for LazyRing<T, CAPACITY> {
    type V = LazyState<T>;

    closed spec fn view(&self) -> LazyState<T> {
        LazyState {
            ring: RingState {
                stream: self.slots@,
                heads: self.heads@,
                has_producer: self.has_producer,
            },
            cached: self.cached as nat,
        }
    }
}

impl<T, const CAPACITY: usize> LazyRing<T, CAPACITY> {
    /// The slots hold the items of the stream, and the cursors are in order.
    pub closed spec fn stored(&self) -> bool {
        self.slots.wf() && self.heads.wf()
    }

    /// How many consumers can register.
    pub closed spec fn seats(&self) -> nat {
        self.heads.seats()
    }

    /// The state is valid, and the slots hold the items that it speaks of.
    pub open spec fn wf(&self) -> bool {
        &&& self.stored()
        &&& self@.inv(CAPACITY as nat)
    }

    /// A ring with no items, no producer and no consumers, but with seats for
    /// `seats` of them.
    pub fn new(seats: usize) -> (r: Self)
        requires
            is_power_of_two(CAPACITY as int),
        ensures
            r.wf(),
            r.seats() == seats,
            r@ == LazyState::<T>::empty(),
    {
        LazyRing {
            slots: Slots::new(),
            heads: Cursors::new(seats),
            cached: 0,
            has_producer: false,
        }
    }

    /// Only a power of two slots can be had.
    pub proof fn lemma_capacity(&self)
        requires
            self.wf(),
        ensures
            is_power_of_two(CAPACITY as int),
            CAPACITY > 0,
    {
        self.slots.lemma_capacity();
    }

    /// Hands out the producer. It can be had once.
    pub fn claim_producer(&mut self) -> (r: bool)
        requires
            old(self).wf(),
        ensures
            final(self).wf(),
            final(self).seats() == old(self).seats(),
            r == !old(self)@.ring.has_producer,
            final(self)@ == old(self)@.with_producer(),
        no_unwind
    {
        let r: bool = !self.has_producer;
        self.has_producer = true;
        r
    }

    /// Registers a consumer and returns its number, unless all seats are taken.
    pub fn claim_consumer(&mut self) -> (r: Option<usize>)
        requires
            old(self).wf(),
        ensures
            final(self).wf(),
            final(self).seats() == old(self).seats(),
            match r {
                Some(c) => {
                    &&& old(self)@.ring.heads.len() < old(self).seats()
                    &&& c == old(self)@.ring.heads.len()
                    &&& final(self)@ == old(self)@.joined()
                },
                None => old(self)@.ring.heads.len() >= old(self).seats() && final(self)@ == old(self)@,
            },
        no_unwind
    {
        if self.heads.len() >= self.heads.limit() {
            return None;
        }
        let c: usize = self.heads.len();
        self.heads.take_seat(self.cached);
        proof {
            law_join_keeps_state_valid(old(self)@, CAPACITY as nat);
            assert(self@ == old(self)@.joined());
        }
        Some(c)
    }

    /// How many consumers are registered.
    pub fn consumers(&self) -> (r: usize)
        ensures
            r == self@.ring.heads.len(),
        no_unwind
    {
        self.heads.len()
    }

    /// How many items have been published.
    pub fn tail(&self) -> (r: usize)
        requires
            self.wf(),
        ensures
            r == self@.ring.tail(),
        no_unwind
    {
        self.slots.tail()
    }

    /// Publishes `item`, or hands it back if the slowest consumer is a full
    /// ring behind.
    ///
    /// The consumers are looked at only if the cached position makes the ring
    /// look full. On success the caller gets what the slot held before.
    pub fn try_push(&mut self, item: T) -> (r: Result<Option<T>, T>)
        requires
            old(self).wf(),
            old(self)@.ring.tail() < usize::MAX,
        ensures
            final(self).wf(),
            final(self).seats() == old(self).seats(),
            r is Ok <==> old(self)@.ring.has_room(CAPACITY as nat),
            match r {
                Ok(displaced) => {
                    &&& final(self)@ == old(self)@.pushed(item, CAPACITY as nat)
                    &&& displaced == old(self).displaced_by_push()
                },
                Err(back) => back == item && final(self)@ == old(self)@,
            },
        no_unwind
    {
        let tail: usize = self.slots.tail();
        proof {
            lemma_slowest_is_least(self@.ring.heads, self@.ring.tail());
        }
        if tail - self.cached == CAPACITY {
            let current: usize = self.heads.slowest_head(tail);
            if current == self.cached {
                return Err(item);
            }
            self.cached = current;
        }
        proof {
            law_push_keeps_state_valid(old(self)@, item, CAPACITY as nat);
        }
        let displaced: Option<T> = self.slots.publish(item);
        Ok(displaced)
    }

    /// What the slot of the next item holds: the item published a full turn
    /// before, if there is one.
    pub open spec fn displaced_by_push(&self) -> Option<T> {
        if self@.ring.tail() >= CAPACITY {
            Some(self@.ring.stream[self@.ring.tail() - CAPACITY])
        } else {
            None
        }
    }

    /// The item that consumer `c` reads next, if it has not caught up.
    pub fn front(&self, c: usize) -> (r: Option<&T>)
        requires
            self.wf(),
            c < self@.ring.heads.len(),
        ensures
            match r {
                Some(item) => self@.ring.has_next(c as int) && *item == self@.ring.next(c as int),
                None => !self@.ring.has_next(c as int),
            },
        no_unwind
    {
        let head: usize = self.heads.get(c);
        if self.slots.tail() - head == 0 {
            return None;
        }
        Some(self.slots.get(head))
    }

    /// Moves consumer `c` past the item that it has read.
    pub fn advance(&mut self, c: usize)
        requires
            old(self).wf(),
            c < old(self)@.ring.heads.len(),
            old(self)@.ring.has_next(c as int),
        ensures
            final(self).wf(),
            final(self).seats() == old(self).seats(),
            final(self)@ == old(self)@.popped(c as int),
        no_unwind
    {
        let head: usize = self.heads.get(c);
        proof {
            law_pop_keeps_state_valid(self@, c as int, CAPACITY as nat);
            self.slots.lemma_length_fits();
        }
        self.heads.set(c, head + 1);
        proof {
            assert(self@ == old(self)@.popped(c as int));
        }
    }

    /// The position of the slowest consumer that the producer has last seen.
    pub fn cached_min(&self) -> (r: usize)
        ensures
            r == self@.cached,
        no_unwind
    {
        self.cached
    }

    /// The position of the slowest consumer.
    pub fn true_min(&self) -> (r: usize)
        requires
            self.wf(),
        ensures
            r == self@.ring.true_min(),
        no_unwind
    {
        self.heads.slowest_head(self.slots.tail())
    }
}

impl<T: Clone, const CAPACITY: usize> LazyRing<T, CAPACITY> {
    /// A clone of the item that consumer `c` reads next, if it has not caught
    /// up. The consumer stays where it is, also if the clone panics.
    pub fn read(&self, c: usize) -> (r: Option<T>)
        requires
            self.wf(),
            c < self@.ring.heads.len(),
        ensures
            match r {
                Some(item) => {
                    &&& self@.ring.has_next(c as int)
                    &&& cloned(self@.ring.next(c as int), item)
                },
                None => !self@.ring.has_next(c as int),
            },
    {
        match self.front(c) {
            Some(item) => Some(item.clone()),
            None => None,
        }
    }

    /// Reads the next item of consumer `c`, if it has not caught up. Other
    /// consumers still read the same item, so the caller gets a clone.
    pub fn try_pop(&mut self, c: usize) -> (r: Option<T>)
        requires
            old(self).wf(),
            c < old(self)@.ring.heads.len(),
        ensures
            final(self).wf(),
            final(self).seats() == old(self).seats(),
            match r {
                Some(item) => {
                    &&& old(self)@.ring.has_next(c as int)
                    &&& cloned(old(self)@.ring.next(c as int), item)
                    &&& final(self)@ == old(self)@.popped(c as int)
                },
                None => !old(self)@.ring.has_next(c as int) && final(self)@ == old(self)@,
            },
    {
        let r: Option<T> = self.read(c);
        if r.is_some() {
            self.advance(c);
        }
        r
    }
}

} // verus!
