//! The positions of the consumers.

use crate::ring_buffer::model::slowest;
use vstd::prelude::*;

verus! {

/// Seats for a fixed number of consumers. Seats are taken in order; the view
/// holds the position of every consumer that has taken one.
pub struct Cursors {
    heads: Vec<usize>,
    taken: usize,
}

impl View for Cursors {
    type V = Seq<nat>;

    closed spec fn view(&self) -> Seq<nat> {
        Seq::new(self.taken as nat, |c: int| self.heads@[c] as nat)
    }
}

impl Cursors {
    /// No more seats are taken than there are.
    pub closed spec fn wf(&self) -> bool {
        self.taken <= self.heads@.len()
    }

    /// How many consumers there is room for.
    pub closed spec fn seats(&self) -> nat {
        self.heads@.len()
    }

    /// `seats` free seats.
    pub fn new(seats: usize) -> (r: Self)
        ensures
            r.wf(),
            r.seats() == seats,
            r@ == Seq::<nat>::empty(),
    {
        let mut heads: Vec<usize> = Vec::with_capacity(seats);
        let mut c: usize = 0;
        while c < seats
            invariant
                c <= seats,
                heads@.len() == c,
            decreases seats - c,
        {
            heads.push(0);
            c += 1;
        }
        let r = Cursors { heads, taken: 0 };
        assert(r@ =~= Seq::<nat>::empty());
        r
    }

    /// How many consumers there is room for.
    pub fn limit(&self) -> (r: usize)
        ensures
            r == self.seats(),
        no_unwind
    {
        self.heads.len()
    }

    /// How many seats are taken.
    pub fn len(&self) -> (r: usize)
        ensures
            r == self@.len(),
        no_unwind
    {
        self.taken
    }

    /// A consumer takes the next seat, at position `start`.
    pub fn take_seat(&mut self, start: usize)
        requires
            old(self).wf(),
            old(self)@.len() < old(self).seats(),
        ensures
            final(self).wf(),
            final(self).seats() == old(self).seats(),
            final(self)@ == old(self)@.push(start as nat),
        no_unwind
    {
        assert(self.taken < self.heads.len());
        self.heads[self.taken] = start;
        self.taken = self.taken + 1;
        assert(self@ =~= old(self)@.push(start as nat));
    }

    /// The position of consumer `c`.
    pub fn get(&self, c: usize) -> (r: usize)
        requires
            self.wf(),
            c < self@.len(),
        ensures
            r == self@[c as int],
        no_unwind
    {
        self.heads[c]
    }

    /// Moves consumer `c` to `position`.
    pub fn set(&mut self, c: usize, position: usize)
        requires
            old(self).wf(),
            c < old(self)@.len(),
        ensures
            final(self).wf(),
            final(self).seats() == old(self).seats(),
            final(self)@ == old(self)@.update(c as int, position as nat),
        no_unwind
    {
        self.heads[c] = position;
        assert(self@ =~= old(self)@.update(c as int, position as nat));
    }

    /// The position of the slowest consumer, or `tail` if no consumer is behind
    /// it.
    pub fn slowest_head(&self, tail: usize) -> (r: usize)
        requires
            self.wf(),
        ensures
            r == slowest(self@, tail as nat),
        no_unwind
    {
        let mut least: usize = tail;
        let mut c: usize = 0;
        while c < self.taken
            invariant
                self.wf(),
                c <= self.taken,
                least == slowest(self@.take(c as int), tail as nat),
            decreases self.taken - c,
        {
            proof {
                let longer = self@.take(c + 1);
                assert(longer.drop_last() =~= self@.take(c as int));
                assert(longer.last() == self.heads@[c as int]);
            }
            if self.heads[c] < least {
                least = self.heads[c];
            }
            c += 1;
        }
        assert(self@.take(self@.len() as int) =~= self@);
        least
    }
}

} // verus!
