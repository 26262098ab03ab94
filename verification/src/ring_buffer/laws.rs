//! What holds of a ring over any course of pushes, pops and registrations.

use crate::ring_buffer::eager_ring::oldest_kept;
use crate::ring_buffer::lazy_ring::{
    law_join_keeps_state_valid, law_pop_keeps_state_valid, law_push_keeps_state_valid, LazyState,
};
use crate::ring_buffer::model::{
    law_join_keeps_ring_valid, law_pop_keeps_ring_valid, law_push_keeps_ring_valid,
    lemma_slowest_is_least, RingState,
};
use vstd::prelude::*;

verus! {

/// One thing that can be tried on a ring: push an item, let a consumer pop, or
/// register a consumer.
pub enum Op<T> {
    Push(T),
    Pop(nat),
    Join,
}

impl<T> RingState<T> {
    /// Whether consumer `c` is registered and has something left to read.
    pub open spec fn can_pop(self, c: nat) -> bool {
        c < self.heads.len() && self.has_next(c as int)
    }

    /// The ring after `op` was tried. A refused push and an unsuccessful pop
    /// leave it as it was; a new consumer starts at `start`.
    pub open spec fn tried(self, op: Op<T>, capacity: nat, start: nat) -> Self {
        match op {
            Op::Push(item) => if self.has_room(capacity) {
                self.pushed(item)
            } else {
                self
            },
            Op::Pop(c) => if self.can_pop(c) {
                self.popped(c as int)
            } else {
                self
            },
            Op::Join => self.joined(start),
        }
    }

    /// What consumer `c` gets when `op` is tried: one item, or nothing.
    pub open spec fn gets(self, op: Op<T>, c: nat) -> Seq<T> {
        if op == Op::<T>::Pop(c) && self.can_pop(c) {
            seq![self.next(c as int)]
        } else {
            Seq::empty()
        }
    }

    /// The ring of an eager producer after all of `ops` were tried, in order.
    pub open spec fn after(self, ops: Seq<Op<T>>, capacity: nat) -> Self
        decreases ops.len(),
    {
        if ops.len() == 0 {
            self
        } else {
            self.tried(ops[0], capacity, oldest_kept(self.tail(), capacity)).after(
                ops.drop_first(),
                capacity,
            )
        }
    }

    /// Everything that consumer `c` gets while `ops` are tried, in order.
    pub open spec fn received(self, ops: Seq<Op<T>>, capacity: nat, c: nat) -> Seq<T>
        decreases ops.len(),
    {
        if ops.len() == 0 {
            Seq::empty()
        } else {
            self.gets(ops[0], c) + self.tried(
                ops[0],
                capacity,
                oldest_kept(self.tail(), capacity),
            ).received(ops.drop_first(), capacity, c)
        }
    }
}

impl<T> LazyState<T> {
    /// The state after `op` was tried.
    pub open spec fn tried(self, op: Op<T>, capacity: nat) -> Self {
        match op {
            Op::Push(item) => if self.ring.has_room(capacity) {
                self.pushed(item, capacity)
            } else {
                self
            },
            Op::Pop(c) => if self.ring.can_pop(c) {
                self.popped(c as int)
            } else {
                self
            },
            Op::Join => self.joined(),
        }
    }

    /// The state after all of `ops` were tried, in order.
    pub open spec fn after(self, ops: Seq<Op<T>>, capacity: nat) -> Self
        decreases ops.len(),
    {
        if ops.len() == 0 {
            self
        } else {
            self.tried(ops[0], capacity).after(ops.drop_first(), capacity)
        }
    }

    /// Everything that consumer `c` gets while `ops` are tried, in order.
    pub open spec fn received(self, ops: Seq<Op<T>>, capacity: nat, c: nat) -> Seq<T>
        decreases ops.len(),
    {
        if ops.len() == 0 {
            Seq::empty()
        } else {
            self.ring.gets(ops[0], c) + self.tried(ops[0], capacity).received(
                ops.drop_first(),
                capacity,
                c,
            )
        }
    }
}

/// Whatever is tried on a valid ring, it stays valid, its stream only grows,
/// and no consumer moves backwards.
proof fn lemma_tried<T>(s: RingState<T>, op: Op<T>, capacity: nat, start: nat)
    requires
        s.inv(capacity),
        start <= s.tail() <= start + capacity,
    ensures
        s.tried(op, capacity, start).inv(capacity),
        s.stream.is_prefix_of(s.tried(op, capacity, start).stream),
        s.heads.len() <= s.tried(op, capacity, start).heads.len(),
        forall|c: int|
            0 <= c < s.heads.len() ==> #[trigger] s.tried(op, capacity, start).heads[c]
                == s.heads[c] + s.gets(op, c as nat).len(),
{
    match op {
        Op::Push(item) => {
            if s.has_room(capacity) {
                law_push_keeps_ring_valid(s, item, capacity);
            }
        },
        Op::Pop(c) => {
            if s.can_pop(c) {
                law_pop_keeps_ring_valid(s, c as int, capacity);
            }
        },
        Op::Join => {
            law_join_keeps_ring_valid(s, start, capacity);
        },
    }
}

/// What a consumer gets first, followed by what it gets later, is a stretch of
/// the stream.
proof fn lemma_stretch<T>(s: RingState<T>, op: Op<T>, c: nat, last: Seq<T>, from: nat, upto: nat)
    requires
        c < s.heads.len(),
        from == s.heads[c as int] + s.gets(op, c).len(),
        from <= upto <= last.len(),
        s.stream.is_prefix_of(last),
    ensures
        s.gets(op, c) + last.subrange(from as int, upto as int) == last.subrange(
            s.heads[c as int] as int,
            upto as int,
        ),
{
    let head = s.heads[c as int];
    let whole = last.subrange(head as int, upto as int);
    let parts = s.gets(op, c) + last.subrange(from as int, upto as int);
    if op == Op::<T>::Pop(c) && s.can_pop(c) {
        assert(s.stream[head as int] == last[head as int]);
    }
    assert(parts =~= whole);
}

/// Every state that an eager ring reaches is valid, and its stream only ever
/// grows.
pub proof fn law_eager_ring_stays_valid<T>(s: RingState<T>, ops: Seq<Op<T>>, capacity: nat)
    requires
        s.inv(capacity),
    ensures
        s.after(ops, capacity).inv(capacity),
        s.stream.is_prefix_of(s.after(ops, capacity).stream),
        s.heads.len() <= s.after(ops, capacity).heads.len(),
    decreases ops.len(),
{
    if ops.len() > 0 {
        let start = oldest_kept(s.tail(), capacity);
        lemma_tried(s, ops[0], capacity, start);
        law_eager_ring_stays_valid(s.tried(ops[0], capacity, start), ops.drop_first(), capacity);
    }
}

/// Every state that a lazy ring reaches is valid: in particular the producer's
/// cached position is never ahead of the slowest consumer. Its stream only ever
/// grows.
pub proof fn law_lazy_ring_stays_valid<T>(s: LazyState<T>, ops: Seq<Op<T>>, capacity: nat)
    requires
        s.inv(capacity),
    ensures
        s.after(ops, capacity).inv(capacity),
        s.after(ops, capacity).cached <= s.after(ops, capacity).ring.true_min(),
        s.ring.stream.is_prefix_of(s.after(ops, capacity).ring.stream),
        s.ring.heads.len() <= s.after(ops, capacity).ring.heads.len(),
    decreases ops.len(),
{
    if ops.len() > 0 {
        lemma_lazy_tried(s, ops[0], capacity);
        law_lazy_ring_stays_valid(s.tried(ops[0], capacity), ops.drop_first(), capacity);
    }
}

/// What is tried on a lazy ring does to its stream and its consumers what it
/// does to any ring.
proof fn lemma_lazy_tried<T>(s: LazyState<T>, op: Op<T>, capacity: nat)
    requires
        s.inv(capacity),
    ensures
        s.tried(op, capacity).inv(capacity),
        s.tried(op, capacity).ring == s.ring.tried(op, capacity, s.cached),
        s.cached <= s.ring.tail() <= s.cached + capacity,
        s.ring.stream.is_prefix_of(s.tried(op, capacity).ring.stream),
        s.ring.heads.len() <= s.tried(op, capacity).ring.heads.len(),
        forall|c: int|
            0 <= c < s.ring.heads.len() ==> #[trigger] s.tried(op, capacity).ring.heads[c]
                == s.ring.heads[c] + s.ring.gets(op, c as nat).len(),
{
    lemma_slowest_is_least(s.ring.heads, s.ring.tail());
    lemma_tried(s.ring, op, capacity, s.cached);
    match op {
        Op::Push(item) => {
            if s.ring.has_room(capacity) {
                law_push_keeps_state_valid(s, item, capacity);
            }
        },
        Op::Pop(c) => {
            if s.ring.can_pop(c) {
                law_pop_keeps_state_valid(s, c as int, capacity);
            }
        },
        Op::Join => {
            law_join_keeps_state_valid(s, capacity);
        },
    }
}

/// Fan-out: whatever is tried on an eager ring, a consumer receives exactly the
/// items of the stream from where it stood to where it stands, each once and in
/// order, whatever the other consumers do.
pub proof fn law_eager_fan_out<T>(s: RingState<T>, ops: Seq<Op<T>>, capacity: nat, c: nat)
    requires
        s.inv(capacity),
        c < s.heads.len(),
    ensures
        s.heads[c as int] <= s.after(ops, capacity).heads[c as int] <= s.after(
            ops,
            capacity,
        ).tail(),
        s.received(ops, capacity, c) == s.after(ops, capacity).stream.subrange(
            s.heads[c as int] as int,
            s.after(ops, capacity).heads[c as int] as int,
        ),
    decreases ops.len(),
{
    law_eager_ring_stays_valid(s, ops, capacity);
    if ops.len() > 0 {
        let start = oldest_kept(s.tail(), capacity);
        let next = s.tried(ops[0], capacity, start);
        lemma_tried(s, ops[0], capacity, start);
        assert(next.heads[c as int] == s.heads[c as int] + s.gets(ops[0], c).len());
        law_eager_fan_out(next, ops.drop_first(), capacity, c);
        let last = s.after(ops, capacity);
        lemma_stretch(s, ops[0], c, last.stream, next.heads[c as int], last.heads[c as int]);
    } else {
        assert(s.received(ops, capacity, c) =~= s.stream.subrange(
            s.heads[c as int] as int,
            s.heads[c as int] as int,
        ));
    }
}

/// Fan-out: whatever is tried on a lazy ring, a consumer receives exactly the
/// items of the stream from where it stood to where it stands, each once and in
/// order, whatever the other consumers do.
pub proof fn law_lazy_fan_out<T>(s: LazyState<T>, ops: Seq<Op<T>>, capacity: nat, c: nat)
    requires
        s.inv(capacity),
        c < s.ring.heads.len(),
    ensures
        s.ring.heads[c as int] <= s.after(ops, capacity).ring.heads[c as int] <= s.after(
            ops,
            capacity,
        ).ring.tail(),
        s.received(ops, capacity, c) == s.after(ops, capacity).ring.stream.subrange(
            s.ring.heads[c as int] as int,
            s.after(ops, capacity).ring.heads[c as int] as int,
        ),
    decreases ops.len(),
{
    law_lazy_ring_stays_valid(s, ops, capacity);
    if ops.len() > 0 {
        let next = s.tried(ops[0], capacity);
        lemma_lazy_tried(s, ops[0], capacity);
        assert(next.ring.heads[c as int] == s.ring.heads[c as int] + s.ring.gets(ops[0], c).len());
        law_lazy_fan_out(next, ops.drop_first(), capacity, c);
        let last = s.after(ops, capacity);
        lemma_stretch(
            s.ring,
            ops[0],
            c,
            last.ring.stream,
            next.ring.heads[c as int],
            last.ring.heads[c as int],
        );
    } else {
        assert(s.received(ops, capacity, c) =~= s.ring.stream.subrange(
            s.ring.heads[c as int] as int,
            s.ring.heads[c as int] as int,
        ));
    }
}

/// Consumers that registered before anything was published and have both caught
/// up have received the same items: the whole stream.
pub proof fn law_lazy_consumers_agree<T>(
    s: LazyState<T>,
    ops: Seq<Op<T>>,
    capacity: nat,
    c: nat,
    d: nat,
)
    requires
        s.inv(capacity),
        s.ring.tail() == 0,
        c < s.ring.heads.len(),
        d < s.ring.heads.len(),
        !s.after(ops, capacity).ring.has_next(c as int),
        !s.after(ops, capacity).ring.has_next(d as int),
    ensures
        s.received(ops, capacity, c) == s.after(ops, capacity).ring.stream,
        s.received(ops, capacity, c) == s.received(ops, capacity, d),
{
    law_lazy_fan_out(s, ops, capacity, c);
    law_lazy_fan_out(s, ops, capacity, d);
    let last = s.after(ops, capacity).ring.stream;
    assert(s.ring.heads[c as int] == 0 && s.ring.heads[d as int] == 0);
    assert(last.subrange(0, last.len() as int) =~= last);
}

/// A consumer that stops reading stalls the producer for good: once it is a
/// full ring behind, no push is accepted as long as it does not pop.
pub proof fn law_dead_consumer_stalls_the_producer<T>(
    s: LazyState<T>,
    ops: Seq<Op<T>>,
    capacity: nat,
    c: nat,
)
    requires
        s.inv(capacity),
        c < s.ring.heads.len(),
        s.ring.tail() == s.ring.heads[c as int] + capacity,
        forall|i: int| 0 <= i < ops.len() ==> #[trigger] ops[i] != Op::<T>::Pop(c),
    ensures
        !s.ring.has_room(capacity),
        s.after(ops, capacity).ring.stream == s.ring.stream,
        !s.after(ops, capacity).ring.has_room(capacity),
    decreases ops.len(),
{
    lemma_slowest_is_least(s.ring.heads, s.ring.tail());
    if ops.len() > 0 {
        let next = s.tried(ops[0], capacity);
        lemma_lazy_tried(s, ops[0], capacity);
        assert(ops[0] != Op::<T>::Pop(c));
        assert(next.ring.heads[c as int] == s.ring.heads[c as int]);
        let rest = ops.drop_first();
        assert forall|i: int| 0 <= i < rest.len() implies #[trigger] rest[i] != Op::<T>::Pop(c) by {
            assert(rest[i] == ops[i + 1]);
        }
        law_dead_consumer_stalls_the_producer(next, rest, capacity, c);
    }
}

/// A consumer that pops `n` times while nothing else happens receives the first
/// `n` of the items that it had yet to read, or all of them if there are fewer.
pub proof fn law_consumer_can_catch_up<T>(s: RingState<T>, capacity: nat, c: nat, n: nat)
    requires
        s.inv(capacity),
        c < s.heads.len(),
    ensures
        ({
            let ops = Seq::new(n, |i: int| Op::<T>::Pop(c));
            let unread = s.pending(c as int);
            let taken = if n < unread.len() {
                n
            } else {
                unread.len()
            };
            &&& s.received(ops, capacity, c) == unread.take(taken as int)
            &&& s.after(ops, capacity).pending(c as int) == unread.skip(taken as int)
            &&& s.after(ops, capacity).stream == s.stream
        }),
    decreases n,
{
    let ops = Seq::new(n, |i: int| Op::<T>::Pop(c));
    let unread = s.pending(c as int);
    assert(s.heads[c as int] <= s.tail());
    if n == 0 {
        assert(s.received(ops, capacity, c) =~= unread.take(0));
        assert(s.pending(c as int) =~= unread.skip(0));
    } else {
        let less = (n - 1) as nat;
        let start = oldest_kept(s.tail(), capacity);
        let next = s.tried(ops[0], capacity, start);
        lemma_tried(s, ops[0], capacity, start);
        assert(ops.drop_first() =~= Seq::new(less, |i: int| Op::<T>::Pop(c)));
        law_consumer_can_catch_up(next, capacity, c, less);
        let later = next.pending(c as int);
        let taken: int = if less < later.len() {
            less as int
        } else {
            later.len() as int
        };
        if s.can_pop(c) {
            assert(later =~= unread.drop_first());
            assert(seq![unread[0]] + later.take(taken) =~= unread.take(taken + 1));
            assert(later.skip(taken) =~= unread.skip(taken + 1));
        } else {
            assert(Seq::<T>::empty() + later.take(taken) =~= unread.take(taken));
        }
    }
}

/// Exactly the free slots can be filled: of the items that are pushed while no
/// consumer reads, as many are accepted as the slowest consumer leaves room for,
/// and they are the first ones.
pub proof fn law_exactly_the_free_slots_are_filled<T>(
    s: RingState<T>,
    items: Seq<T>,
    capacity: nat,
)
    requires
        s.inv(capacity),
        s.heads.len() > 0,
    ensures
        ({
            let free = capacity - (s.tail() - s.true_min());
            let accepted = if items.len() < free {
                items.len() as int
            } else {
                free
            };
            s.after(items.map_values(|item: T| Op::Push(item)), capacity).stream == s.stream
                + items.take(accepted)
        }),
    decreases items.len(),
{
    let ops = items.map_values(|item: T| Op::Push(item));
    lemma_slowest_is_least(s.heads, s.tail());
    assert(s.heads[0] <= s.tail());
    if items.len() == 0 {
        assert(s.stream + items.take(0) =~= s.stream);
    } else {
        let start = oldest_kept(s.tail(), capacity);
        let next = s.tried(ops[0], capacity, start);
        let rest = items.drop_first();
        lemma_tried(s, ops[0], capacity, start);
        assert(ops.drop_first() =~= rest.map_values(|item: T| Op::Push(item)));
        law_exactly_the_free_slots_are_filled(next, rest, capacity);
        lemma_slowest_is_least(next.heads, next.tail());
        let free = capacity - (s.tail() - s.true_min());
        if s.has_room(capacity) {
            assert(next.true_min() == s.true_min());
            let more: int = if rest.len() < free - 1 {
                rest.len() as int
            } else {
                free - 1
            };
            assert(s.stream.push(items[0]) + rest.take(more) =~= s.stream + items.take(more + 1));
        } else {
            assert(free == 0);
            assert(s.stream + rest.take(0) =~= s.stream + items.take(0));
        }
    }
}

/// A published item is there for every consumer at once: one that had caught up
/// reads it next, and one that had not reads on where it was.
pub proof fn law_push_is_visible_at_once<T>(s: RingState<T>, item: T, capacity: nat, c: int)
    requires
        s.inv(capacity),
        0 <= c < s.heads.len(),
    ensures
        s.pushed(item).has_next(c),
        s.pushed(item).next(c) == if s.has_next(c) {
            s.next(c)
        } else {
            item
        },
{
}

/// What one consumer reads is no concern of another.
pub proof fn law_pops_are_independent<T>(s: RingState<T>, c: int, d: int)
    requires
        0 <= c < s.heads.len(),
        0 <= d < s.heads.len(),
        c != d,
    ensures
        s.popped(c).has_next(d) == s.has_next(d),
        s.popped(c).next(d) == s.next(d),
        s.popped(c).popped(d) == s.popped(d).popped(c),
{
    assert(s.popped(c).popped(d).heads =~= s.popped(d).popped(c).heads);
}

/// The producer does not notice that a consumer moves on, and it looks again
/// only if its cached position makes the ring look full. Then it sees exactly
/// where the slowest consumer is.
pub proof fn law_consumer_progress_is_seen_late<T>(
    s: LazyState<T>,
    item: T,
    capacity: nat,
    c: int,
)
    requires
        s.inv(capacity),
    ensures
        s.popped(c).cached == s.cached,
        s.joined().cached == s.cached,
        s.ring.tail() - s.cached < capacity ==> s.pushed(item, capacity).cached == s.cached,
        s.ring.tail() - s.cached == capacity ==> s.pushed(item, capacity).cached
            == s.ring.true_min(),
{
}

/// Judging by the cached position and looking again only if it says "full"
/// accepts the same pushes as looking at the consumers every time.
pub proof fn law_lazy_producer_decides_like_an_eager_one<T>(s: LazyState<T>, capacity: nat)
    requires
        s.inv(capacity),
        capacity > 0,
    ensures
        s.ring.tail() - s.requeried(capacity) < capacity <==> s.ring.has_room(capacity),
{
    lemma_slowest_is_least(s.ring.heads, s.ring.tail());
}

/// Whatever is tried on a lazy ring and on an eager ring in the same state, no
/// consumer registering meanwhile, their streams, their consumers and what
/// every consumer receives stay the same.
pub proof fn law_lazy_and_eager_rings_agree<T>(
    s: LazyState<T>,
    ops: Seq<Op<T>>,
    capacity: nat,
    c: nat,
)
    requires
        s.inv(capacity),
        forall|i: int| 0 <= i < ops.len() ==> !(#[trigger] ops[i] is Join),
    ensures
        s.after(ops, capacity).ring == s.ring.after(ops, capacity),
        s.received(ops, capacity, c) == s.ring.received(ops, capacity, c),
    decreases ops.len(),
{
    if ops.len() > 0 {
        assert(!(ops[0] is Join));
        lemma_lazy_tried(s, ops[0], capacity);
        let rest = ops.drop_first();
        assert forall|i: int| 0 <= i < rest.len() implies !(#[trigger] rest[i] is Join) by {
            assert(rest[i] == ops[i + 1]);
        }
        law_lazy_and_eager_rings_agree(s.tried(ops[0], capacity), rest, capacity, c);
    }
}

/// As long as the producer has not gone once around, a consumer that registers
/// starts at the first item of the stream, on either kind of ring.
pub proof fn law_first_turn_consumers_start_at_zero<T>(ops: Seq<Op<T>>, capacity: nat)
    requires
        capacity > 0,
        LazyState::<T>::empty().after(ops, capacity).ring.tail() <= capacity,
    ensures
        LazyState::<T>::empty().after(ops, capacity).cached == 0,
        oldest_kept(LazyState::<T>::empty().after(ops, capacity).ring.tail(), capacity) == 0,
{
    lemma_cached_is_zero_in_the_first_turn(LazyState::<T>::empty(), ops, capacity);
}

proof fn lemma_cached_is_zero_in_the_first_turn<T>(s: LazyState<T>, ops: Seq<Op<T>>, capacity: nat)
    requires
        s.inv(capacity),
        s.ring.tail() <= capacity ==> s.cached == 0,
        s.after(ops, capacity).ring.tail() <= capacity,
    ensures
        s.after(ops, capacity).cached == 0,
    decreases ops.len(),
{
    law_lazy_ring_stays_valid(s, ops, capacity);
    if ops.len() > 0 {
        lemma_lazy_tried(s, ops[0], capacity);
        lemma_cached_is_zero_in_the_first_turn(s.tried(ops[0], capacity), ops.drop_first(), capacity);
    }
}

} // verus!
