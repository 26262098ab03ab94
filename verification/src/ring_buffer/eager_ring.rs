//! A ring whose producer looks at all consumers on every push.

use crate::ring_buffer::cursors::Cursors;
use crate::ring_buffer::model::{
    law_join_keeps_ring_valid, law_pop_keeps_ring_valid, law_push_keeps_ring_valid,
    lemma_slowest_is_least, RingState,
};
use crate::ring_buffer::slots::{is_power_of_two, Slots};
use vstd::prelude::*;

verus! {

/// Where a consumer that registers late starts: at the oldest item that the
/// slots still hold, which is the first item of the stream until the producer
/// has gone once around.
pub open spec fn oldest_kept(tail: nat, capacity: nat) -> nat {
    if tail > capacity {
        (tail - capacity) as nat
    } else {
        0
    }
}

/// The ring behind one eager producer.
pub struct EagerRing<T, const CAPACITY: usize> {
    slots: Slots<T, CAPACITY>,
    heads: Cursors,
    has_producer: bool,
}

impl<T, const CAPACITY: usize> View for EagerRing<T, CAPACITY> {
    type V = RingState<T>;

    closed spec fn view(&self) -> RingState<T> {
        RingState {
            stream: self.slots@,
            heads: self.heads@,
            has_producer: self.has_producer,
        }
    }
}

impl<T, const CAPACITY: usize> EagerRing<T, CAPACITY> {
    /// The slots hold the items of the stream, and the cursors are in order.
    pub closed spec fn stored(&self) -> bool {
        self.slots.wf() && self.heads.wf()
    }

    /// How many consumers can register.
    pub closed spec fn seats(&self) -> nat {
        self.heads.seats()
    }

    /// The state is valid, and the slots hold the items that it speaks of.
    pub open spec fn wf(&self) -> bool {
        &&& self.stored()
        &&& self@.inv(CAPACITY as nat)
    }

    /// A ring with no items, no producer and no consumers, but with seats for
    /// `seats` of them.
    pub fn new(seats: usize) -> (r: Self)
        requires
            is_power_of_two(CAPACITY as int),
        ensures
            r.wf(),
            r.seats() == seats,
            r@ == RingState::<T>::empty(),
    {
        EagerRing { slots: Slots::new(), heads: Cursors::new(seats), has_producer: false }
    }

    /// Only a power of two slots can be had.
    pub proof fn lemma_capacity(&self)
        requires
            self.wf(),
        ensures
            is_power_of_two(CAPACITY as int),
            CAPACITY > 0,
    {
        self.slots.lemma_capacity();
    }

    /// Hands out the producer. It can be had once.
    pub fn claim_producer(&mut self) -> (r: bool)
        requires
            old(self).wf(),
        ensures
            final(self).wf(),
            final(self).seats() == old(self).seats(),
            r == !old(self)@.has_producer,
            final(self)@ == old(self)@.with_producer(),
        no_unwind
    {
        let r: bool = !self.has_producer;
        self.has_producer = true;
        assert(self@ == old(self)@.with_producer());
        r
    }

    /// Registers a consumer and returns its number, unless all seats are taken.
    pub fn claim_consumer(&mut self) -> (r: Option<usize>)
        requires
            old(self).wf(),
        ensures
            final(self).wf(),
            final(self).seats() == old(self).seats(),
            match r {
                Some(c) => {
                    &&& old(self)@.heads.len() < old(self).seats()
                    &&& c == old(self)@.heads.len()
                    &&& final(self)@ == old(self)@.joined(
                        oldest_kept(old(self)@.tail(), CAPACITY as nat),
                    )
                },
                None => old(self)@.heads.len() >= old(self).seats() && final(self)@ == old(self)@,
            },
        no_unwind
    {
        if self.heads.len() >= self.heads.limit() {
            return None;
        }
        let c: usize = self.heads.len();
        let tail: usize = self.slots.tail();
        let start: usize = if tail > CAPACITY {
            tail - CAPACITY
        } else {
            0
        };
        self.heads.take_seat(start);
        proof {
            law_join_keeps_ring_valid(old(self)@, start as nat, CAPACITY as nat);
            assert(self@ == old(self)@.joined(start as nat));
        }
        Some(c)
    }

    /// How many consumers are registered.
    pub fn consumers(&self) -> (r: usize)
        ensures
            r == self@.heads.len(),
        no_unwind
    {
        self.heads.len()
    }

    /// How many items have been published.
    pub fn tail(&self) -> (r: usize)
        requires
            self.wf(),
        ensures
            r == self@.tail(),
        no_unwind
    {
        self.slots.tail()
    }

    /// Publishes `item`, or hands it back if the slowest consumer is a full
    /// ring behind. On success the caller gets what the slot held before.
    pub fn try_push(&mut self, item: T) -> (r: Result<Option<T>, T>)
        requires
            old(self).wf(),
            old(self)@.tail() < usize::MAX,
        ensures
            final(self).wf(),
            final(self).seats() == old(self).seats(),
            r is Ok <==> old(self)@.has_room(CAPACITY as nat),
            match r {
                Ok(displaced) => {
                    &&& final(self)@ == old(self)@.pushed(item)
                    &&& displaced == old(self).displaced_by_push()
                },
                Err(back) => back == item && final(self)@ == old(self)@,
            },
        no_unwind
    {
        let tail: usize = self.slots.tail();
        proof {
            lemma_slowest_is_least(self@.heads, self@.tail());
        }
        let slowest: usize = self.heads.slowest_head(tail);
        if tail - slowest == CAPACITY {
            return Err(item);
        }
        proof {
            law_push_keeps_ring_valid(old(self)@, item, CAPACITY as nat);
        }
        let displaced: Option<T> = self.slots.publish(item);
        Ok(displaced)
    }

    /// What the slot of the next item holds: the item published a full turn
    /// before, if there is one.
    pub open spec fn displaced_by_push(&self) -> Option<T> {
        if self@.tail() >= CAPACITY {
            Some(self@.stream[self@.tail() - CAPACITY])
        } else {
            None
        }
    }

    /// The item that consumer `c` reads next, if it has not caught up.
    pub fn front(&self, c: usize) -> (r: Option<&T>)
        requires
            self.wf(),
            c < self@.heads.len(),
        ensures
            match r {
                Some(item) => self@.has_next(c as int) && *item == self@.next(c as int),
                None => !self@.has_next(c as int),
            },
        no_unwind
    {
        let head: usize = self.heads.get(c);
        if self.slots.tail() - head == 0 {
            return None;
        }
        Some(self.slots.get(head))
    }

    /// Moves consumer `c` past the item that it has read.
    pub fn advance(&mut self, c: usize)
        requires
            old(self).wf(),
            c < old(self)@.heads.len(),
            old(self)@.has_next(c as int),
        ensures
            final(self).wf(),
            final(self).seats() == old(self).seats(),
            final(self)@ == old(self)@.popped(c as int),
        no_unwind
    {
        let head: usize = self.heads.get(c);
        proof {
            law_pop_keeps_ring_valid(self@, c as int, CAPACITY as nat);
            self.slots.lemma_length_fits();
        }
        self.heads.set(c, head + 1);
        proof {
            assert(self@ == old(self)@.popped(c as int));
        }
    }
}

impl<T: Clone, const CAPACITY: usize> EagerRing<T, CAPACITY> {
    /// A clone of the item that consumer `c` reads next, if it has not caught
    /// up. The consumer stays where it is, also if the clone panics.
    pub fn read(&self, c: usize) -> (r: Option<T>)
        requires
            self.wf(),
            c < self@.heads.len(),
        ensures
            match r {
                Some(item) => {
                    &&& self@.has_next(c as int)
                    &&& cloned(self@.next(c as int), item)
                },
                None => !self@.has_next(c as int),
            },
    {
        match self.front(c) {
            Some(item) => Some(item.clone()),
            None => None,
        }
    }

    /// Reads the next item of consumer `c`, if it has not caught up. Other
    /// consumers still read the same item, so the caller gets a clone.
    pub fn try_pop(&mut self, c: usize) -> (r: Option<T>)
        requires
            old(self).wf(),
            c < old(self)@.heads.len(),
        ensures
            final(self).wf(),
            final(self).seats() == old(self).seats(),
            match r {
                Some(item) => {
                    &&& old(self)@.has_next(c as int)
                    &&& cloned(old(self)@.next(c as int), item)
                    &&& final(self)@ == old(self)@.popped(c as int)
                },
                None => !old(self)@.has_next(c as int) && final(self)@ == old(self)@,
            },
    {
        let r: Option<T> = self.read(c);
        if r.is_some() {
            self.advance(c);
        }
        r
    }
}

} // verus!
