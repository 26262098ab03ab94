//! What the harness needs of a ring buffer, and the two ring buffers that have
//! it.

use crate::bench::text::{ascii_lower, same_text};
use crate::ring_buffer::eager_ring::EagerRing;
use crate::ring_buffer::lazy_ring::LazyRing;
use crate::ring_buffer::model::RingState;
use crate::ring_buffer::slots::is_power_of_two;
use crate::ring_buffer::spmc_ring_buffer::{
    SpmcRingBuffer, SpmcRingBufferConsumer, SpmcRingBufferProducer,
};
use crate::ring_buffer::steps::{claims, joins, pops, pushes, SharedRing};
use crate::ring_buffer::sync_spmc_ring_buffer::{
    all_sound, found, one_harmed, SyncRingBuffer, SyncRingBufferConsumer, SyncRingBufferProducer,
};
use crate::ring_buffer::vault::{made_around, opened, Valid, Vault};
use std::sync::{Arc, Mutex};
use vstd::prelude::*;
use vstd::string::StringExecFns;

verus! {

/// The producer's side of a ring buffer.
pub trait RbProducer<T> {
    /// The ring that is shared.
    type Ring: SharedRing<T>;

    /// The lock that the ring is behind.
    spec fn ring_lock(&self) -> Arc<Mutex<Vault<Self::Ring>>>;

    /// How many items the ring keeps.
    spec fn capacity(&self) -> usize;

    /// Whether something besides the ring was found to stand in the way.
    spec fn hindered(&self) -> bool;

    /// Whether nothing besides the ring was found to stand in the way.
    spec fn unhindered(&self) -> bool;

    /// Whether an attempt to push `item` was refused when the next wait was
    /// `spins` long.
    spec fn handed_back_at(&self, item: T, spins: int) -> bool;

    /// How many pushes were asked for.
    spec fn calls(&self) -> nat;

    /// Publishes `item`, or hands it back if the buffer is full. Nothing is
    /// ever overwritten.
    fn try_push(&mut self, item: T) -> (r: Result<(), T>)
        ensures
            final(self).ring_lock() == old(self).ring_lock(),
            final(self).capacity() == old(self).capacity(),
            final(self).calls() == old(self).calls() + 1,
            (old(self).hindered() && r == Err::<(), T>(item)) || (old(self).unhindered() && exists|
                vault: &mut Vault<Self::Ring>,
            | #[trigger]
                opened(&*old(self).ring_lock(), vault) && pushes(
                    vault.held().state(),
                    final(vault).held().state(),
                    old(self).capacity(),
                    item,
                    r,
                )),
    ;

    /// Tries again until `item` is published. It comes back only if an attempt
    /// was refused at every length of wait that can be counted. What is stated of
    /// the ring is what the last attempt did.
    fn push(&mut self, item: T) -> (r: Result<(), T>)
        ensures
            r is Err ==> forall|s: int|
                1 <= s <= i32::MAX ==> #[trigger] old(self).handed_back_at(item, s),
            final(self).ring_lock() == old(self).ring_lock(),
            final(self).capacity() == old(self).capacity(),
            final(self).calls() == old(self).calls() + 1,
            (old(self).hindered() && r == Err::<(), T>(item)) || (old(self).unhindered() && exists|
                vault: &mut Vault<Self::Ring>,
            | #[trigger]
                opened(&*old(self).ring_lock(), vault) && pushes(
                    vault.held().state(),
                    final(vault).held().state(),
                    old(self).capacity(),
                    item,
                    r,
                )),
    ;
}

/// One consumer's side of a ring buffer: each consumer sees every item, in
/// order, whatever the others do.
pub trait RbConsumer<T: Clone> {
    /// The ring that is shared.
    type Ring: SharedRing<T>;

    /// The lock that the ring is behind.
    spec fn ring_lock(&self) -> Arc<Mutex<Vault<Self::Ring>>>;

    /// How many items the ring keeps.
    spec fn capacity(&self) -> usize;

    /// The consumer's number.
    spec fn place(&self) -> usize;

    /// Whether something besides the ring was found to stand in the way.
    spec fn hindered(&self) -> bool;

    /// Whether nothing besides the ring was found to stand in the way.
    spec fn unhindered(&self) -> bool;

    /// Whether an attempt to pop gave nothing when the next wait was `spins` long.
    spec fn empty_at(&self, spins: int) -> bool;

    /// The next item, or `None` if this consumer has caught up.
    fn try_pop(&self) -> (r: Option<T>)
        ensures
            (self.hindered() && r is None) || (self.unhindered() && exists|
                vault: &mut Vault<Self::Ring>,
            | #[trigger]
                opened(&*self.ring_lock(), vault) && pops(
                    vault.held().state(),
                    final(vault).held().state(),
                    self.capacity(),
                    self.place(),
                    r,
                )),
    ;

    /// Tries again until there is an item. `None` only if there was none at every
    /// length of wait that can be counted. What is stated of the ring is what the
    /// last attempt did.
    fn pop(&self) -> (r: Option<T>)
        ensures
            r is None ==> forall|s: int| 1 <= s <= i32::MAX ==> #[trigger] self.empty_at(s),
            (self.hindered() && r is None) || (self.unhindered() && exists|
                vault: &mut Vault<Self::Ring>,
            | #[trigger]
                opened(&*self.ring_lock(), vault) && pops(
                    vault.held().state(),
                    final(vault).held().state(),
                    self.capacity(),
                    self.place(),
                    r,
                )),
    ;
}

/// A ring buffer of `CAP` items for up to `N` consumers, whose handles can be
/// moved to other threads.
pub trait RingBuffer<T: Clone, const CAP: usize, const N: usize>: Sized + Send + Sync {
    /// The ring that the buffer and its handles share.
    type Ring: SharedRing<T>;

    type Producer: RbProducer<T, Ring = Self::Ring> + Send;

    type Consumer: RbConsumer<T, Ring = Self::Ring> + Send + Sync;

    /// The lock that the ring is behind.
    spec fn lock_of_ring(&self) -> Arc<Mutex<Vault<Self::Ring>>>;

    /// Whether the buffer was made empty, with all handles still to be had.
    spec fn made_empty(&self) -> bool;

    /// An empty buffer.
    fn new() -> (r: Self)
        requires
            is_power_of_two(CAP as int),
        ensures
            r.made_empty(),
            exists|vault: Vault<Self::Ring>| #[trigger]
                made_around(*r.lock_of_ring(), vault) && vault.held().valid()
                    && vault.held().places() == N && vault.held().state() == RingState::<
                    T,
                >::empty(),
    ;

    /// The producer's handle, for the first caller only.
    fn get_new_producer(&self) -> (r: Option<Self::Producer>)
        ensures
            r matches Some(p) ==> p.ring_lock() == self.lock_of_ring() && p.capacity() == CAP,
            exists|vault: &mut Vault<Self::Ring>| #[trigger]
                opened(&*self.lock_of_ring(), vault) && claims(
                    vault.held().state(),
                    final(vault).held().state(),
                    r is Some,
                ),
    ;

    /// The handle of a new consumer, or `None` if all `N` are taken.
    fn get_new_consumer(&self) -> (r: Option<Self::Consumer>)
        ensures
            r matches Some(c) ==> c.ring_lock() == self.lock_of_ring() && c.capacity() == CAP,
            exists|vault: &mut Vault<Self::Ring>| #[trigger]
                opened(&*self.lock_of_ring(), vault) && joins(
                    vault.held().state(),
                    final(vault).held().state(),
                    CAP,
                    N,
                    vault.held().places(),
                    match r {
                        Some(c) => Some(c.place()),
                        None => None,
                    },
                ),
    ;
}

impl<T: Clone + Send, const CAP: usize, const N: usize> RingBuffer<T, CAP, N> for SpmcRingBuffer<
    T,
    CAP,
    N,
> {
    type Ring = LazyRing<T, CAP>;

    type Producer = SpmcRingBufferProducer<T, CAP, N>;

    type Consumer = SpmcRingBufferConsumer<T, CAP>;

    open spec fn lock_of_ring(&self) -> Arc<Mutex<Vault<LazyRing<T, CAP>>>> {
        self.shared()
    }

    open spec fn made_empty(&self) -> bool {
        self.starts_empty()
    }

    fn new() -> (r: Self) {
        let r = SpmcRingBuffer::<T, CAP, N>::new();
        assert(r.lock_of_ring() == r.shared());
        r
    }

    fn get_new_producer(&self) -> (r: Option<Self::Producer>) {
        assert(self.lock_of_ring() == self.shared());
        SpmcRingBuffer::<T, CAP, N>::get_new_producer(self)
    }

    fn get_new_consumer(&self) -> (r: Option<Self::Consumer>) {
        assert(self.lock_of_ring() == self.shared());
        SpmcRingBuffer::<T, CAP, N>::get_new_consumer(self)
    }
}

impl<T, const CAP: usize, const N: usize> RbProducer<T> for SpmcRingBufferProducer<
    T,
    CAP,
    N,
> {
    type Ring = LazyRing<T, CAP>;

    open spec fn ring_lock(&self) -> Arc<Mutex<Vault<LazyRing<T, CAP>>>> {
        self.shared()
    }

    open spec fn capacity(&self) -> usize {
        CAP
    }

    open spec fn hindered(&self) -> bool {
        false
    }

    open spec fn unhindered(&self) -> bool {
        true
    }

    open spec fn handed_back_at(&self, item: T, spins: int) -> bool {
        self.refused_at(item, spins)
    }

    open spec fn calls(&self) -> nat {
        SpmcRingBufferProducer::<T, CAP, N>::calls(self)
    }

    fn try_push(&mut self, item: T) -> (r: Result<(), T>) {
        assert(self.ring_lock() == self.shared());
        let r: Result<(), T> = SpmcRingBufferProducer::<T, CAP, N>::try_push(self, item);
        self.count_call();
        r
    }

    fn push(&mut self, item: T) -> (r: Result<(), T>) {
        assert(self.ring_lock() == self.shared());
        let r: Result<(), T> = SpmcRingBufferProducer::<T, CAP, N>::push(self, item);
        self.count_call();
        r
    }
}

impl<T: Clone, const CAP: usize> RbConsumer<T> for SpmcRingBufferConsumer<T, CAP> {
    type Ring = LazyRing<T, CAP>;

    open spec fn ring_lock(&self) -> Arc<Mutex<Vault<LazyRing<T, CAP>>>> {
        self.shared()
    }

    open spec fn capacity(&self) -> usize {
        CAP
    }

    open spec fn place(&self) -> usize {
        self.number()
    }

    open spec fn hindered(&self) -> bool {
        false
    }

    open spec fn unhindered(&self) -> bool {
        true
    }

    open spec fn empty_at(&self, spins: int) -> bool {
        self.nothing_at(spins)
    }

    fn try_pop(&self) -> (r: Option<T>) {
        assert(self.ring_lock() == self.shared());
        SpmcRingBufferConsumer::<T, CAP>::try_pop(self)
    }

    fn pop(&self) -> (r: Option<T>) {
        assert(self.ring_lock() == self.shared());
        SpmcRingBufferConsumer::<T, CAP>::pop(self)
    }
}

impl<T: Clone + Send, const CAP: usize, const N: usize> RingBuffer<T, CAP, N> for SyncRingBuffer<
    T,
    CAP,
    N,
> {
    type Ring = EagerRing<T, CAP>;

    type Producer = SyncRingBufferProducer<T, CAP, N>;

    type Consumer = SyncRingBufferConsumer<T, CAP>;

    open spec fn lock_of_ring(&self) -> Arc<Mutex<Vault<EagerRing<T, CAP>>>> {
        self.shared()
    }

    open spec fn made_empty(&self) -> bool {
        self.starts_empty()
    }

    fn new() -> (r: Self) {
        let r = SyncRingBuffer::<T, CAP, N>::new();
        assert(r.lock_of_ring() == r.shared());
        r
    }

    fn get_new_producer(&self) -> (r: Option<Self::Producer>) {
        assert(self.lock_of_ring() == self.shared());
        SyncRingBuffer::<T, CAP, N>::get_new_producer(self)
    }

    fn get_new_consumer(&self) -> (r: Option<Self::Consumer>) {
        assert(self.lock_of_ring() == self.shared());
        SyncRingBuffer::<T, CAP, N>::get_new_consumer(self)
    }
}

impl<T, const CAP: usize, const N: usize> RbProducer<T> for SyncRingBufferProducer<
    T,
    CAP,
    N,
> {
    type Ring = EagerRing<T, CAP>;

    open spec fn ring_lock(&self) -> Arc<Mutex<Vault<EagerRing<T, CAP>>>> {
        self.shared()
    }

    open spec fn capacity(&self) -> usize {
        CAP
    }

    open spec fn hindered(&self) -> bool {
        exists|counted: &mut Vault<EagerRing<T, CAP>>| #[trigger]
            opened(&*self.shared(), counted) && one_harmed(
                self.turns(),
                counted.held()@.heads.len(),
            )
    }

    open spec fn unhindered(&self) -> bool {
        exists|counted: &mut Vault<EagerRing<T, CAP>>| #[trigger]
            opened(&*self.shared(), counted) && all_sound(self.turns(), counted.held()@.heads.len())
    }

    open spec fn handed_back_at(&self, item: T, spins: int) -> bool {
        self.refused_at(item, spins)
    }

    open spec fn calls(&self) -> nat {
        SyncRingBufferProducer::<T, CAP, N>::calls(self)
    }

    fn try_push(&mut self, item: T) -> (r: Result<(), T>) {
        assert(self.ring_lock() == self.shared());
        let r: Result<(), T> = SyncRingBufferProducer::<T, CAP, N>::try_push(self, item);
        self.count_call();
        r
    }

    fn push(&mut self, item: T) -> (r: Result<(), T>) {
        assert(self.ring_lock() == self.shared());
        let r: Result<(), T> = SyncRingBufferProducer::<T, CAP, N>::push(self, item);
        self.count_call();
        r
    }
}

impl<T: Clone, const CAP: usize> RbConsumer<T> for SyncRingBufferConsumer<T, CAP> {
    type Ring = EagerRing<T, CAP>;

    open spec fn ring_lock(&self) -> Arc<Mutex<Vault<EagerRing<T, CAP>>>> {
        self.shared()
    }

    open spec fn capacity(&self) -> usize {
        CAP
    }

    open spec fn place(&self) -> usize {
        self.number()
    }

    open spec fn hindered(&self) -> bool {
        found(self.turn(), true)
    }

    open spec fn unhindered(&self) -> bool {
        found(self.turn(), false)
    }

    open spec fn empty_at(&self, spins: int) -> bool {
        self.nothing_at(spins)
    }

    fn try_pop(&self) -> (r: Option<T>) {
        assert(self.ring_lock() == self.shared());
        SyncRingBufferConsumer::<T, CAP>::try_pop(self)
    }

    fn pop(&self) -> (r: Option<T>) {
        assert(self.ring_lock() == self.shared());
        SyncRingBufferConsumer::<T, CAP>::pop(self)
    }
}

/// Which ring buffer to drive.
#[derive(Copy, Clone, Debug, PartialEq, Eq, Structural)]
pub enum Backend {
    /// The buffer with a lazy producer, [`SpmcRingBuffer`].
    Spmc,
    /// The buffer with an eager producer, [`SyncRingBuffer`].
    Sync,
}

/// The name of a backend in results and on the command line.
pub open spec fn backend_name(b: Backend) -> Seq<char> {
    match b {
        Backend::Spmc => "spmc"@,
        Backend::Sync => "sync"@,
    }
}

/// What is said of a text that names no backend.
pub open spec fn unknown_backend(lowered: Seq<char>) -> Seq<char> {
    "unknown backend `"@ + lowered + "` (expected `spmc`, `sync`, or `both`)"@
}

/// What the text `s` reads as: the backend that it names, whatever the case of
/// its letters, or a message if it names none.
pub open spec fn reads_as(s: Seq<char>, r: Result<Backend, String>) -> bool {
    let lowered = s.map_values(|c: char| ascii_lower(c));
    match r {
        Ok(b) => lowered == backend_name(b),
        Err(message) => {
            &&& forall|b: Backend| lowered != #[trigger] backend_name(b)
            &&& message@ == unknown_backend(lowered)
        },
    }
}

impl Backend {
    /// The name of the backend in results and on the command line.
    pub fn name(self) -> (r: &'static str)
        ensures
            r@ == backend_name(self),
    {
        match self {
            Backend::Spmc => "spmc",
            Backend::Sync => "sync",
        }
    }

    /// All backends, in a stable order.
    pub fn all() -> (r: &'static [Backend])
        ensures
            r@ == seq![Backend::Spmc, Backend::Sync],
    {
        &[Backend::Spmc, Backend::Sync]
    }

    /// The backend that `s` names, whatever the case of its letters.
    pub fn parse(s: &str) -> (r: Result<Backend, String>)
        ensures
            reads_as(s@, r),
    {
        let lowered: String = s.to_ascii_lowercase();
        if same_text(&lowered, "spmc") {
            Ok(Backend::Spmc)
        } else if same_text(&lowered, "sync") {
            Ok(Backend::Sync)
        } else {
            let mut message: String = String::from_str("unknown backend `");
            message.append(lowered.as_str());
            message.append("` (expected `spmc`, `sync`, or `both`)");
            Err(message)
        }
    }
}

impl std::str::FromStr for Backend {
    type Err = String;

    fn from_str(s: &str) -> (r: Result<Self, Self::Err>)
        ensures
            reads_as(s@, r),
    {
        Backend::parse(s)
    }
}

/// A text names a backend exactly if it is the backend's name in lower case, upper
/// case or any mixture. Any other text is repeated in the message, in lower case.
pub proof fn law_backends_are_named_in_any_case(s: &str, r: Result<Backend, String>)
    requires
        call_ensures(Backend::parse, (s,), r),
    ensures
        ({
            let lowered = s@.map_values(|c: char| ascii_lower(c));
            &&& lowered == "spmc"@ <==> (r matches Ok(b) && b == Backend::Spmc)
            &&& lowered == "sync"@ <==> (r matches Ok(b) && b == Backend::Sync)
            &&& r is Err <==> lowered != "spmc"@ && lowered != "sync"@
            &&& r matches Err(message) ==> message@ == "unknown backend `"@ + lowered
                + "` (expected `spmc`, `sync`, or `both`)"@
        }),
{
    let lowered = s@.map_values(|c: char| ascii_lower(c));
    assert(reads_as(s@, r));
    law_backend_names_read_back(Backend::Spmc, Backend::Sync);
    if r is Err {
        assert(lowered != backend_name(Backend::Spmc));
        assert(lowered != backend_name(Backend::Sync));
    }
}

/// All backends are listed, each once.
pub proof fn law_all_backends_are_listed(r: &'static [Backend], b: Backend)
    requires
        call_ensures(Backend::all, (), r),
    ensures
        r@.contains(b),
        r@.no_duplicates(),
{
    assert(r@[0] == Backend::Spmc && r@[1] == Backend::Sync);
}

/// The name of a backend reads as that backend and as no other.
pub proof fn law_backend_names_read_back(b: Backend, other: Backend)
    ensures
        backend_name(b).map_values(|c: char| ascii_lower(c)) == backend_name(b),
        backend_name(b).map_values(|c: char| ascii_lower(c)) == backend_name(other) ==> b == other,
{
    reveal_strlit("spmc");
    reveal_strlit("sync");
    assert(backend_name(b).map_values(|c: char| ascii_lower(c)) =~= backend_name(b));
    assert(backend_name(Backend::Spmc)[1] != backend_name(Backend::Sync)[1]);
}

} // verus!
