//! Sharing one value between threads behind `std::sync::Mutex`.
//!
//! Nothing is claimed of what a lock hands out: what is known of the value is
//! the type invariant of [`Vault`], which Verus holds every vault to. What an
//! operation on a shared value promises is which lock it locked, and what it did
//! with the value that the lock handed out.

use std::sync::{LockResult, Mutex, MutexGuard, PoisonError};
use vstd::prelude::*;

verus! {

/// `std::sync::Mutex`, as an opaque type.
#[verifier::external_type_specification]
#[verifier::external_body]
#[verifier::reject_recursive_types(T)]
pub struct ExMutex<T: ?Sized>(Mutex<T>);

/// `std::sync::MutexGuard`, as an opaque type.
#[verifier::external_type_specification]
#[verifier::external_body]
#[verifier::reject_recursive_types(T)]
pub struct ExMutexGuard<'a, T: ?Sized + 'a>(MutexGuard<'a, T>);

/// `std::sync::PoisonError`, as an opaque type.
#[verifier::external_type_specification]
#[verifier::external_body]
#[verifier::reject_recursive_types(T)]
pub struct ExPoisonError<T>(PoisonError<T>);

/// `Mutex::new` makes a lock around the value. Nothing is claimed of it.
#[verifier::external_body]
pub(crate) fn new_lock<T>(value: T) -> (lock: Mutex<T>) {
    Mutex::new(value)
}

/// `Mutex::lock` waits for the lock. Nothing is claimed of what it returns.
pub assume_specification<'a, T: ?Sized>[ Mutex::<T>::lock ](m: &'a Mutex<T>) -> (r: LockResult<
    MutexGuard<'a, T>,
>);

/// `PoisonError::into_inner` gives the guard of a lock whose last owner
/// panicked. Nothing is claimed of what it returns.
pub assume_specification<T>[ PoisonError::<T>::into_inner ](e: PoisonError<T>) -> (r: T);

/// `MutexGuard::deref_mut` gives access to the locked value. Nothing is claimed
/// of the value.
#[verifier::external_body]
pub(crate) fn locked_value<'b, T>(guard: &'b mut MutexGuard<'_, T>) -> (r: &'b mut T) {
    &mut *guard
}

/// A value with an invariant.
pub trait Valid {
    spec fn valid(&self) -> bool;
}

/// Holds a valid value. Verus checks the invariant after every change, and a
/// change is a single call that cannot unwind, so the value is valid also for
/// the thread that locks a vault after another thread panicked.
pub struct Vault<R: Valid> {
    pub(crate) value: R,
}

impl<R: Valid> Vault<R> {
    #[verifier::type_invariant]
    pub(crate) open spec fn keeps_valid(self) -> bool {
        self.value.valid()
    }

    /// The value in the vault.
    pub closed spec fn held(&self) -> R {
        self.value
    }

    pub(crate) proof fn lemma_held(&self)
        ensures
            self.held() == self.value,
    {
    }

    /// A vault is the value in it.
    pub(crate) proof fn lemma_same_held()
        ensures
            forall|a: Self, b: Self| #[trigger] a.held() == #[trigger] b.held() ==> a == b,
    {
    }

    /// A vault that holds `value`.
    pub(crate) fn new(value: R) -> (vault: Self)
        requires
            value.valid(),
        ensures
            vault.held() == value,
    {
        Vault { value }
    }
}

/// `lock` was made around `value`.
pub closed spec fn made_around<T>(lock: Mutex<T>, value: T) -> bool {
    call_ensures(new_lock::<T>, (value,), lock)
}

/// `guard` came from locking `lock`, whether or not the lock was poisoned.
pub open spec fn locked_from<'a, T>(lock: &'a Mutex<T>, guard: MutexGuard<'a, T>) -> bool {
    exists|outcome: LockResult<MutexGuard<'a, T>>| #[trigger]
        call_ensures(Mutex::<T>::lock, (lock,), outcome) && match outcome {
            Ok(unharmed) => guard == unharmed,
            Err(poisoned) => call_ensures(
                PoisonError::<MutexGuard<'a, T>>::into_inner,
                (poisoned,),
                guard,
            ),
        }
}

/// `value` is the access that `guard` gives.
pub closed spec fn given_by<'a, 'b, T>(guard: MutexGuard<'a, T>, value: &'b mut T) -> bool {
    exists|holder: &'b mut MutexGuard<'a, T>| #[trigger]
        call_ensures(locked_value::<T>, (holder,), value) && *holder == guard
}

/// `value` is the access to what is behind `lock` that locking it gave: its
/// value then, and its final value when the lock was released.
pub open spec fn opened<'a, 'b, T>(lock: &'a Mutex<T>, value: &'b mut T) -> bool {
    exists|guard: MutexGuard<'a, T>| #[trigger] locked_from(lock, guard) && given_by(guard, value)
}

/// Makes a lock around `value`.
pub(crate) fn lock_around<T>(value: T) -> (lock: Mutex<T>)
    ensures
        made_around(lock, value),
{
    new_lock(value)
}

/// Gives access to what is locked.
pub(crate) fn open_locked<'b, T>(guard: &'b mut MutexGuard<'_, T>) -> (value: &'b mut T)
    ensures
        given_by(*old(guard), value),
{
    locked_value(guard)
}

/// Locks `vault`, also after a thread panicked while it held the lock.
pub(crate) fn lock_always<R: Valid>(vault: &Mutex<Vault<R>>) -> (guard: MutexGuard<'_, Vault<R>>)
    ensures
        locked_from(vault, guard),
{
    match vault.lock() {
        Ok(guard) => guard,
        Err(poisoned) => poisoned.into_inner(),
    }
}

} // verus!
