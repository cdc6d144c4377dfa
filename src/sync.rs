//! The spin lock that guards each hardware singleton: `spin::Mutex`, whose
//! guard gives exclusive access to the value and releases the lock when it
//! is dropped, on every path.
use vstd::prelude::*;
use spin::{Mutex, MutexGuard};

verus! {

/// `spin::Mutex`: a value behind a lock that busy-waits to be taken.
#[verifier::external_type_specification]
#[verifier::external_body]
#[verifier::reject_recursive_types(T)]
pub struct ExMutex<T: ?Sized>(Mutex<T>);

/// `spin::MutexGuard`: the proof of holding a `spin::Mutex`; dropping it
/// releases the lock.
#[verifier::external_type_specification]
#[verifier::external_body]
#[verifier::reject_recursive_types(T)]
pub struct ExMutexGuard<'a, T: ?Sized + 'a>(MutexGuard<'a, T>);

/// Relies on `spin::Mutex::lock`: spins until the lock is free, takes it,
/// and returns the guard that holds it. Nothing is known of the value.
pub assume_specification<T: ?Sized>[ Mutex::<T>::lock ](m: &Mutex<T>) -> MutexGuard<'_, T>;

/// Relies on `DerefMut for spin::MutexGuard`: the value the guard holds the
/// lock of, for as long as the guard is borrowed.
#[verifier::external_body]
pub(crate) fn guarded<'a, 'b, T>(guard: &'a mut MutexGuard<'b, T>) -> &'a mut T {
    &mut **guard
}

} // verus!
