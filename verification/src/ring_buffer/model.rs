//! What a ring is, independent of how it is stored or shared: the stream of
//! items published so far and the position of every consumer in it.

use vstd::prelude::*;

verus! {

/// The smallest of `heads`, or `tail` if none is smaller. With no consumer at
/// all nothing is left unread, so the answer is `tail`.
pub open spec fn slowest(heads: Seq<nat>, tail: nat) -> nat
    decreases heads.len(),
{
    if heads.len() == 0 {
        tail
    } else {
        let rest = slowest(heads.drop_last(), tail);
        if heads.last() < rest {
            heads.last()
        } else {
            rest
        }
    }
}

/// `slowest` is a lower bound of the heads and of the tail, and it is one of
/// them.
pub proof fn lemma_slowest_is_least(heads: Seq<nat>, tail: nat)
    ensures
        slowest(heads, tail) <= tail,
        forall|c: int| 0 <= c < heads.len() ==> slowest(heads, tail) <= #[trigger] heads[c],
        slowest(heads, tail) == tail || exists|c: int|
            0 <= c < heads.len() && #[trigger] heads[c] == slowest(heads, tail),
    decreases heads.len(),
{
    if heads.len() > 0 {
        let front = heads.drop_last();
        lemma_slowest_is_least(front, tail);
        assert forall|c: int| 0 <= c < heads.len() implies slowest(heads, tail)
            <= #[trigger] heads[c] by {
            if c < front.len() {
                assert(front[c] == heads[c]);
            }
        }
        let rest = slowest(front, tail);
        if heads.last() < rest {
            assert(heads[heads.len() - 1] == slowest(heads, tail));
        } else if rest != tail {
            let c = choose|c: int| 0 <= c < front.len() && #[trigger] front[c] == rest;
            assert(heads[c] == slowest(heads, tail));
        }
    }
}

/// Every common lower bound of the heads and the tail is at most `slowest`.
pub proof fn lemma_slowest_is_greatest_bound(heads: Seq<nat>, tail: nat, bound: nat)
    requires
        bound <= tail,
        forall|c: int| 0 <= c < heads.len() ==> bound <= #[trigger] heads[c],
    ensures
        bound <= slowest(heads, tail),
{
    lemma_slowest_is_least(heads, tail);
}

/// The state of a ring.
///
/// `stream` holds every item ever published, oldest first. `heads[c]` is how
/// far into the stream consumer `c` has read: the index of the next item it
/// will see. Consumers are numbered in the order in which they registered.
pub struct RingState<T> {
    pub stream: Seq<T>,
    pub heads: Seq<nat>,
    pub has_producer: bool,
}

impl<T> RingState<T> {
    /// A ring on which nothing has happened yet.
    pub open spec fn empty() -> Self {
        RingState { stream: Seq::empty(), heads: Seq::empty(), has_producer: false }
    }

    /// How many items have been published.
    pub open spec fn tail(self) -> nat {
        self.stream.len()
    }

    /// The position of the slowest consumer.
    pub open spec fn true_min(self) -> nat {
        slowest(self.heads, self.tail())
    }

    /// No consumer is ahead of the stream, and none is more than a full ring
    /// behind it.
    pub open spec fn inv(self, capacity: nat) -> bool {
        forall|c: int|
            0 <= c < self.heads.len() ==> (#[trigger] self.heads[c]) <= self.tail()
                && self.tail() <= self.heads[c] + capacity
    }

    /// A push is accepted as long as the slowest consumer is less than a full
    /// ring behind.
    pub open spec fn has_room(self, capacity: nat) -> bool {
        self.tail() - self.true_min() < capacity
    }

    /// The ring after `item` was published.
    pub open spec fn pushed(self, item: T) -> Self {
        RingState { stream: self.stream.push(item), ..self }
    }

    /// Whether consumer `c` has something left to read.
    pub open spec fn has_next(self, c: int) -> bool {
        self.heads[c] < self.tail()
    }

    /// The item that consumer `c` reads next.
    pub open spec fn next(self, c: int) -> T
        recommends
            0 <= c < self.heads.len(),
            self.has_next(c),
    {
        self.stream[self.heads[c] as int]
    }

    /// What consumer `c` has yet to read, in order.
    pub open spec fn pending(self, c: int) -> Seq<T> {
        self.stream.subrange(self.heads[c] as int, self.tail() as int)
    }

    /// The ring after consumer `c` read its next item.
    pub open spec fn popped(self, c: int) -> Self {
        RingState { heads: self.heads.update(c, self.heads[c] + 1), ..self }
    }

    /// The ring after a further consumer registered at position `start`.
    pub open spec fn joined(self, start: nat) -> Self {
        RingState { heads: self.heads.push(start), ..self }
    }

    /// The ring after its producer was handed out.
    pub open spec fn with_producer(self) -> Self {
        RingState { has_producer: true, ..self }
    }
}

/// The ring is full exactly if some consumer is a full ring behind.
pub proof fn law_full_means_a_consumer_is_a_full_ring_behind<T>(s: RingState<T>, capacity: nat)
    requires
        s.inv(capacity),
        capacity > 0,
    ensures
        !s.has_room(capacity) <==> exists|c: int|
            0 <= c < s.heads.len() && s.tail() == #[trigger] s.heads[c] + capacity,
{
    lemma_slowest_is_least(s.heads, s.tail());
}

/// A ring is one queue for each consumer: a push adds the item at the back of
/// every queue, and a pop takes the item at the front of the consumer's own.
pub proof fn law_ring_is_a_queue_for_each_consumer<T>(
    s: RingState<T>,
    item: T,
    capacity: nat,
    c: int,
    d: int,
)
    requires
        s.inv(capacity),
        0 <= c < s.heads.len(),
        0 <= d < s.heads.len(),
    ensures
        s.pushed(item).pending(c) == s.pending(c).push(item),
        s.has_next(c) <==> s.pending(c).len() > 0,
        s.has_next(c) ==> s.next(c) == s.pending(c).first(),
        s.has_next(c) ==> s.popped(c).pending(d) == if c == d {
            s.pending(c).drop_first()
        } else {
            s.pending(d)
        },
{
    assert(s.heads[c] <= s.tail() && s.heads[d] <= s.tail());
    assert(s.pushed(item).pending(c) =~= s.pending(c).push(item));
    if s.has_next(c) {
        assert(s.popped(c).pending(d) =~= if c == d {
            s.pending(c).drop_first()
        } else {
            s.pending(d)
        });
    }
}

/// A push is refused exactly if some consumer's queue holds `capacity` items,
/// and no queue ever holds more.
pub proof fn law_queues_are_bounded<T>(s: RingState<T>, capacity: nat)
    requires
        s.inv(capacity),
        capacity > 0,
    ensures
        forall|c: int| 0 <= c < s.heads.len() ==> (#[trigger] s.pending(c)).len() <= capacity,
        !s.has_room(capacity) <==> exists|c: int|
            0 <= c < s.heads.len() && (#[trigger] s.pending(c)).len() == capacity,
{
    law_full_means_a_consumer_is_a_full_ring_behind(s, capacity);
    assert forall|c: int| 0 <= c < s.heads.len() implies (#[trigger] s.pending(c)).len()
        == s.tail() - s.heads[c] && s.pending(c).len() <= capacity by {
        assert(s.heads[c] <= s.tail());
    }
    if !s.has_room(capacity) {
        let c = choose|c: int|
            0 <= c < s.heads.len() && s.tail() == #[trigger] s.heads[c] + capacity;
        assert(s.pending(c).len() == capacity);
    }
}

/// No item that some consumer has yet to read is older than the last
/// `capacity` items, which are the ones that the slots keep.
pub proof fn law_unread_items_are_kept<T>(s: RingState<T>, capacity: nat, c: int, index: int)
    requires
        s.inv(capacity),
        0 <= c < s.heads.len(),
        s.heads[c] <= index < s.tail(),
    ensures
        s.tail() - capacity <= index,
{
}

/// Nothing unread is overwritten: the item whose slot an accepted push takes,
/// the one published a full turn before, has been read by every consumer.
pub proof fn law_push_replaces_only_what_all_have_read<T>(s: RingState<T>, capacity: nat, c: int)
    requires
        s.inv(capacity),
        s.has_room(capacity),
        0 <= c < s.heads.len(),
    ensures
        s.tail() - capacity < s.heads[c],
{
    lemma_slowest_is_least(s.heads, s.tail());
}

/// Accepting a push keeps the state valid.
pub proof fn law_push_keeps_ring_valid<T>(s: RingState<T>, item: T, capacity: nat)
    requires
        s.inv(capacity),
        s.has_room(capacity),
    ensures
        s.pushed(item).inv(capacity),
{
    lemma_slowest_is_least(s.heads, s.tail());
    let after = s.pushed(item);
    assert forall|c: int| 0 <= c < after.heads.len() implies (#[trigger] after.heads[c])
        <= after.tail() && after.tail() <= after.heads[c] + capacity by {
        assert(s.heads[c] <= s.tail());
    }
}

/// Reading an item keeps the state valid.
pub proof fn law_pop_keeps_ring_valid<T>(s: RingState<T>, c: int, capacity: nat)
    requires
        s.inv(capacity),
        0 <= c < s.heads.len(),
        s.has_next(c),
    ensures
        s.popped(c).inv(capacity),
{
    let after = s.popped(c);
    assert forall|d: int| 0 <= d < after.heads.len() implies (#[trigger] after.heads[d])
        <= after.tail() && after.tail() <= after.heads[d] + capacity by {
        assert(s.heads[d] <= s.tail());
    }
}

/// Registering a consumer at an item that is still kept keeps the state valid.
pub proof fn law_join_keeps_ring_valid<T>(s: RingState<T>, start: nat, capacity: nat)
    requires
        s.inv(capacity),
        start <= s.tail() <= start + capacity,
    ensures
        s.joined(start).inv(capacity),
{
    let after = s.joined(start);
    assert forall|c: int| 0 <= c < after.heads.len() implies (#[trigger] after.heads[c])
        <= after.tail() && after.tail() <= after.heads[c] + capacity by {
        if c < s.heads.len() {
            assert(s.heads[c] <= s.tail());
        }
    }
}

} // verus!
