//! The slots of a ring: the last `CAPACITY` items of an ever growing stream.
//!
//! Item number `i` of the stream lives in slot `i & (CAPACITY - 1)`, so a new
//! item takes the slot of the one published `CAPACITY` items before it.

use vstd::arithmetic::power2::{lemma2_to64, lemma2_to64_rest, lemma_pow2_strictly_increases, pow2};
use vstd::bits::{lemma_usize_low_bits_mask_is_mod, low_bits_mask};
use vstd::prelude::*;

verus! {

/// Whether `n` is a power of two that a 64-bit word can hold. The powers are
/// written out so that a concrete capacity is recognised without a proof.
pub open spec fn is_power_of_two(n: int) -> bool {
    ||| n == 0x1 ||| n == 0x2 ||| n == 0x4 ||| n == 0x8
    ||| n == 0x10 ||| n == 0x20 ||| n == 0x40 ||| n == 0x80
    ||| n == 0x100 ||| n == 0x200 ||| n == 0x400 ||| n == 0x800
    ||| n == 0x1000 ||| n == 0x2000 ||| n == 0x4000 ||| n == 0x8000
    ||| n == 0x10000 ||| n == 0x20000 ||| n == 0x40000 ||| n == 0x80000
    ||| n == 0x100000 ||| n == 0x200000 ||| n == 0x400000 ||| n == 0x800000
    ||| n == 0x1000000 ||| n == 0x2000000 ||| n == 0x4000000 ||| n == 0x8000000
    ||| n == 0x10000000 ||| n == 0x20000000 ||| n == 0x40000000 ||| n == 0x80000000
    ||| n == 0x100000000 ||| n == 0x200000000 ||| n == 0x400000000 ||| n == 0x800000000
    ||| n == 0x1000000000 ||| n == 0x2000000000 ||| n == 0x4000000000 ||| n == 0x8000000000
    ||| n == 0x10000000000 ||| n == 0x20000000000 ||| n == 0x40000000000 ||| n == 0x80000000000
    ||| n == 0x100000000000 ||| n == 0x200000000000 ||| n == 0x400000000000 ||| n == 0x800000000000
    ||| n == 0x1000000000000 ||| n == 0x2000000000000 ||| n == 0x4000000000000 ||| n == 0x8000000000000
    ||| n == 0x10000000000000 ||| n == 0x20000000000000 ||| n == 0x40000000000000 ||| n == 0x80000000000000
    ||| n == 0x100000000000000 ||| n == 0x200000000000000 ||| n == 0x400000000000000 ||| n == 0x800000000000000
    ||| n == 0x1000000000000000 ||| n == 0x2000000000000000 ||| n == 0x4000000000000000 ||| n == 0x8000000000000000
}

/// All powers of two that a 64-bit word can hold are listed.
pub proof fn law_powers_of_two_are_listed(k: nat)
    requires
        k < 64,
    ensures
        is_power_of_two(pow2(k) as int),
{
    lemma2_to64();
    lemma2_to64_rest();
}

/// Nothing else is listed.
pub proof fn lemma_power_of_two_exponent(n: int) -> (k: nat)
    requires
        is_power_of_two(n),
    ensures
        k < 64,
        n == pow2(k),
{
    lemma2_to64();
    lemma2_to64_rest();
    choose|k: nat| k < 64 && n == #[trigger] pow2(k)
}

/// For a power of two, masking an index with `capacity - 1` is the remainder
/// of its division by `capacity`.
pub proof fn lemma_mask_is_remainder(index: usize, capacity: usize)
    requires
        is_power_of_two(capacity as int),
    ensures
        index & ((capacity - 1) as usize) == index % capacity,
{
    let k = lemma_power_of_two_exponent(capacity as int);
    lemma2_to64();
    if k >= usize::BITS {
        if k > 32 {
            lemma_pow2_strictly_increases(32, k);
        }
        assert(false);
    }
    lemma_usize_low_bits_mask_is_mod(index, k);
    assert(low_bits_mask(k) == capacity - 1);
}

/// Two indices less than a full turn apart never share a slot.
pub proof fn lemma_window_slots_distinct(i: int, j: int, capacity: int)
    requires
        0 <= i < j,
        j - i < capacity,
    ensures
        i % capacity != j % capacity,
{
    if i % capacity == j % capacity {
        vstd::arithmetic::div_mod::lemma_fundamental_div_mod(i, capacity);
        vstd::arithmetic::div_mod::lemma_fundamental_div_mod(j, capacity);
        let a = i / capacity;
        let b = j / capacity;
        assert(j - i == capacity * (b - a)) by (nonlinear_arith)
            requires
                i == capacity * a + i % capacity,
                j == capacity * b + j % capacity,
                i % capacity == j % capacity,
        ;
        assert(false) by (nonlinear_arith)
            requires
                0 < j - i < capacity,
                j - i == capacity * (b - a),
        ;
    }
}

/// An index within the first turn is its own slot; later ones share the slot
/// of the index one turn before.
proof fn lemma_slot_of_tail(tail: int, capacity: int)
    requires
        0 <= tail,
        0 < capacity,
    ensures
        0 <= tail % capacity < capacity,
        tail < capacity ==> tail % capacity == tail,
        tail >= capacity ==> (tail - capacity) % capacity == tail % capacity,
{
    if tail < capacity {
        vstd::arithmetic::div_mod::lemma_small_mod(tail as nat, capacity as nat);
    } else {
        vstd::arithmetic::div_mod::lemma_mod_add_multiples_vanish(tail - capacity, capacity);
    }
}

/// The slot that item number `index` takes.
pub fn slot_of(index: usize, capacity: usize) -> (slot: usize)
    requires
        is_power_of_two(capacity as int),
    ensures
        slot == index % capacity,
        slot < capacity,
    no_unwind
{
    proof {
        lemma_mask_is_remainder(index, capacity);
    }
    index & (capacity - 1)
}

/// A stream of items of which the last `CAPACITY` are kept.
///
/// The view is the whole stream, from the first item published to the latest.
pub struct Slots<T, const CAPACITY: usize> {
    slots: Vec<Option<T>>,
    tail: usize,
    stream: Ghost<Seq<T>>,
}

impl<T, const CAPACITY: usize> View for Slots<T, CAPACITY> {
    type V = Seq<T>;

    closed spec fn view(&self) -> Seq<T> {
        self.stream@
    }
}

impl<T, const CAPACITY: usize> Slots<T, CAPACITY> {
    /// Every item of the last turn sits in its slot, and a slot that no item
    /// has reached yet is empty.
    pub closed spec fn wf(&self) -> bool {
        &&& is_power_of_two(CAPACITY as int)
        &&& self.slots@.len() == CAPACITY
        &&& self.tail == self.stream@.len()
        &&& forall|i: int|
            0 <= i < self.tail && self.tail - CAPACITY <= i ==> self.slots@[i % CAPACITY as int]
                == Some(#[trigger] self.stream@[i])
        &&& forall|i: int| self.tail <= i < CAPACITY ==> (#[trigger] self.slots@[i]) is None
    }

    /// An empty stream.
    pub fn new() -> (r: Self)
        requires
            is_power_of_two(CAPACITY as int),
        ensures
            r.wf(),
            r@ == Seq::<T>::empty(),
    {
        let mut slots: Vec<Option<T>> = Vec::with_capacity(CAPACITY);
        let mut i: usize = 0;
        while i < CAPACITY
            invariant
                i <= CAPACITY,
                slots@.len() == i,
                forall|j: int| 0 <= j < i ==> (#[trigger] slots@[j]) is None,
            decreases CAPACITY - i,
        {
            slots.push(None);
            i += 1;
        }
        Slots { slots, tail: 0, stream: Ghost(Seq::empty()) }
    }

    /// How many items have been published.
    pub fn tail(&self) -> (r: usize)
        requires
            self.wf(),
        ensures
            r == self@.len(),
        no_unwind
    {
        self.tail
    }

    /// The items are counted in a machine word.
    pub proof fn lemma_length_fits(&self)
        requires
            self.wf(),
        ensures
            self@.len() <= usize::MAX,
    {
    }

    /// Only a power of two slots can be had.
    pub proof fn lemma_capacity(&self)
        requires
            self.wf(),
        ensures
            is_power_of_two(CAPACITY as int),
            CAPACITY > 0,
    {
    }

    /// Publishes `item`. What its slot held before comes back, so that the
    /// caller decides when it is dropped.
    pub fn publish(&mut self, item: T) -> (displaced: Option<T>)
        requires
            old(self).wf(),
            old(self)@.len() < usize::MAX,
        ensures
            final(self).wf(),
            final(self)@ == old(self)@.push(item),
            displaced == if old(self)@.len() >= CAPACITY {
                Some(old(self)@[old(self)@.len() - CAPACITY])
            } else {
                None
            },
        no_unwind
    {
        let slot: usize = slot_of(self.tail, CAPACITY);
        let mut cell: Option<T> = Some(item);
        std::mem::swap(&mut self.slots[slot], &mut cell);
        self.tail = self.tail + 1;
        self.stream = Ghost(self.stream@.push(item));
        proof {
            let before = old(self);
            lemma_slot_of_tail(before.tail as int, CAPACITY as int);
            assert forall|i: int| 0 <= i < self.tail && self.tail - CAPACITY <= i implies self.slots@[i
                % CAPACITY as int] == Some(#[trigger] self.stream@[i]) by {
                if i < before.tail {
                    assert(before.slots@[i % CAPACITY as int] == Some(before.stream@[i]));
                    lemma_window_slots_distinct(i, before.tail as int, CAPACITY as int);
                }
            }
        }
        cell
    }

    /// The item published as number `index`, which must be one of the last
    /// `CAPACITY`.
    pub fn get(&self, index: usize) -> (r: &T)
        requires
            self.wf(),
            index < self@.len(),
            self@.len() <= index + CAPACITY,
        ensures
            *r == self@[index as int],
        no_unwind
    {
        let slot: usize = slot_of(index, CAPACITY);
        assert(self.slots@[index as int % CAPACITY as int] == Some(self.stream@[index as int]));
        match &self.slots[slot] {
            Some(item) => item,
            None => vstd::pervasive::unreached(),
        }
    }
}

} // verus!
