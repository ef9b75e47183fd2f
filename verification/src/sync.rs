//! The blocking primitives of std that the queue uses, declared for Verus.
//!
//! Nothing here promises anything about what a lock protects: its contents
//! change under other threads, so the queue's code is verified for every
//! value that comes back.
use vstd::prelude::*;
use std::sync::{Condvar, Mutex, MutexGuard, TryLockError};

verus! {

#[verifier::external_type_specification]
#[verifier::external_body]
#[verifier::reject_recursive_types(T)]
pub struct ExMutex<T: ?Sized>(Mutex<T>);

#[verifier::external_type_specification]
#[verifier::external_body]
#[verifier::reject_recursive_types(T)]
pub struct ExMutexGuard<'a, T: ?Sized + 'a>(MutexGuard<'a, T>);

#[verifier::external_type_specification]
#[verifier::external_body]
pub struct ExCondvar(Condvar);

/// `Mutex::new` creates an unlocked mutex around `t`; nothing is stated of
/// the mutex, whose contents verified code never reads directly.
pub assume_specification<T>[ Mutex::<T>::new ](t: T) -> Mutex<T>;

/// `Condvar::new` creates a condition variable with no waiters.
pub assume_specification[ Condvar::new ]() -> Condvar;

/// Calls `Mutex::try_lock`, which never blocks: `None` when the lock is
/// held (`TryLockError::WouldBlock`), the guard otherwise; a lock poisoned by
/// a thread that panicked while holding it is taken all the same, through
/// `PoisonError::into_inner`. Nothing is stated of the outcome: it depends
/// on other threads.
#[verifier::external_body]
pub(crate) fn try_lock_mutex<'a, U>(m: &'a Mutex<U>) -> Option<MutexGuard<'a, U>> {
    match m.try_lock() {
        Ok(guard) => Some(guard),
        Err(TryLockError::Poisoned(poisoned)) => Some(poisoned.into_inner()),
        Err(TryLockError::WouldBlock) => None,
    }
}

/// Calls `std::mem::replace` on the value behind `guard` (reached through
/// `MutexGuard`'s `DerefMut`): stores `value` and returns what was there.
/// What was there is left unsaid: other threads write it.
#[verifier::external_body]
pub(crate) fn replace_guarded<'a, U>(guard: &mut MutexGuard<'a, U>, value: U) -> U {
    std::mem::replace(&mut **guard, value)
}

} // verus!
