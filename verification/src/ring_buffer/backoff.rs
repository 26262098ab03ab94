//! Waiting a little longer after every failed attempt.

use vstd::prelude::*;

verus! {

/// `std::hint::spin_loop` tells the processor that the caller is waiting. It
/// returns nothing and nothing is claimed of it.
pub assume_specification[ std::hint::spin_loop ]();

/// How long the next wait is: one spin after the first failed attempt, and one
/// more after each further one.
pub struct Backoff {
    spins: i32,
}

impl Backoff {
    /// The length of the next wait.
    pub closed spec fn spins(&self) -> int {
        self.spins as int
    }

    pub open spec fn wf(&self) -> bool {
        1 <= self.spins() <= i32::MAX
    }

    /// How many waits are left until the counter is exhausted.
    pub open spec fn left(&self) -> int {
        i32::MAX - self.spins()
    }

    /// A counter that starts with a single spin.
    pub fn new() -> (r: Self)
        ensures
            r.wf(),
            r.spins() == 1,
    {
        Backoff { spins: 1 }
    }

    /// One spin of a wait, with its number.
    pub fn spin(_turn: i32)
        ensures
            call_ensures(std::hint::spin_loop, (), ()),
    {
        std::hint::spin_loop();
    }

    /// Waits, and makes the next wait one spin longer. Returns `false` if the
    /// counter cannot grow any further.
    pub fn wait(&mut self) -> (r: bool)
        requires
            old(self).wf(),
        ensures
            final(self).wf(),
            forall|turn: i32|
                0 <= turn < old(self).spins() ==> #[trigger] call_ensures(Self::spin, (turn,), ()),
            r == (old(self).spins() < i32::MAX),
            final(self).spins() == old(self).spins() + if r {
                1int
            } else {
                0
            },
    {
        let mut i: i32 = 0;
        while i < self.spins
            invariant
                0 <= i <= self.spins,
                *self == *old(self),
                forall|turn: i32| 0 <= turn < i ==> #[trigger] call_ensures(Self::spin, (turn,), ()),
            decreases self.spins - i,
        {
            Self::spin(i);
            i += 1;
        }
        if self.spins == i32::MAX {
            return false;
        }
        self.spins = self.spins + 1;
        true
    }
}

} // verus!
