use parking_lot::lock_api;
use vstd::prelude::*;

verus! {

/// `parking_lot`'s raw reader/writer lock, carried opaquely.
#[verifier::external_type_specification]
#[verifier::external_body]
pub struct ExRawRwLock(parking_lot::RawRwLock);

/// `lock_api`'s lock around a value, carried opaquely.
#[verifier::external_type_specification]
#[verifier::external_body]
#[verifier::reject_recursive_types(R)]
#[verifier::reject_recursive_types(T)]
pub struct ExLockApiRwLock<R, T: ?Sized>(lock_api::RwLock<R, T>);

/// Relies on `lock_api::RwLock::new`: builds an unlocked lock around `value`.
#[verifier::external_body]
fn new_lock<T>(value: T) -> parking_lot::RwLock<T> {
    parking_lot::RwLock::new(value)
}

/// Relies on `lock_api::RwLock::read`: blocks until shared access is granted,
/// then runs `f` on the protected value while holding it.
#[verifier::external_body]
fn with_shared<T, R, F: FnOnce(&T) -> R>(lock: &parking_lot::RwLock<T>, f: F) -> (r: R)
    requires
        forall|v: &T| f.requires((v,)),
    ensures
        exists|v: &T| f.ensures((v,), r),
{
    f(&*lock.read())
}

/// Relies on `lock_api::RwLock::write`: blocks until exclusive access is granted,
/// then runs `f` on the protected value while holding it.
#[verifier::external_body]
fn with_exclusive<T, R, F: FnOnce(&mut T) -> R>(lock: &parking_lot::RwLock<T>, f: F) -> (r: R)
    requires
        forall|v: &mut T| f.requires((v,)),
    ensures
        exists|v: &mut T| f.ensures((v,), r),
{
    f(&mut *lock.write())
}

/// A reader/writer lock.
///
/// Any number of readers share it, or one writer holds it alone. A holder that
/// panics does not poison it: the next caller gets the value as it was left.
#[verifier::reject_recursive_types(T)]
pub struct Lock<T> {
    inner: parking_lot::RwLock<T>,
}

impl<T> Lock<T> {
    /// An unlocked lock holding `t`.
    pub fn new(t: T) -> Self {
        Lock { inner: new_lock(t) }
    }

    /// Runs `f` with shared access; blocks while a writer holds the lock.
    pub fn read<R, F: FnOnce(&T) -> R>(&self, f: F) -> (r: R)
        requires
            forall|v: &T| f.requires((v,)),
        ensures
            exists|v: &T| f.ensures((v,), r),
    {
        with_shared(&self.inner, f)
    }

    /// Runs `f` with exclusive access; blocks while anyone else holds the lock.
    pub fn write<R, F: FnOnce(&mut T) -> R>(&self, f: F) -> (r: R)
        requires
            forall|v: &mut T| f.requires((v,)),
        ensures
            exists|v: &mut T| f.ensures((v,), r),
    {
        with_exclusive(&self.inner, f)
    }
}

} // verus!
