use parking_lot::RwLock;
use vstd::prelude::*;

verus! {

/// parking_lot's raw reader-writer lock, carried through opaquely.
#[verifier::external_type_specification]
#[verifier::external_body]
pub struct ExRawRwLock(parking_lot::RawRwLock);

/// lock_api's reader-writer lock (parking_lot::RwLock), carried through opaquely.
#[verifier::external_type_specification]
#[verifier::external_body]
#[verifier::reject_recursive_types(R)]
#[verifier::reject_recursive_types(T)]
pub struct ExRwLock<R, T: ?Sized>(parking_lot::lock_api::RwLock<R, T>);

/// Relies on parking_lot::RwLock::new: an unlocked lock that owns `value`.
#[verifier::external_body]
pub(crate) fn new_lock<T>(value: T) -> (r: RwLock<T>) {
    RwLock::new(value)
}

/// Relies on parking_lot::RwLock::read: blocks until no writer holds the
/// lock, then runs `f` on the value inside while read access is shared,
/// and releases the lock when `f` returns. `f` must not lock the same lock
/// again: that may deadlock.
#[verifier::external_body]
pub(crate) fn with_read<T, U, F: FnOnce(&T) -> U>(lock: &RwLock<T>, f: F) -> (r: U)
    requires
        forall|v: &T| f.requires((v,)),
    ensures
        exists|v: &T| f.ensures((v,), r),
{
    let guard = lock.read();
    f(&*guard)
}

/// Relies on parking_lot::RwLock::write: blocks until no reader or writer
/// holds the lock, then runs `f` on the value inside with exclusive access,
/// and releases the lock when `f` returns. `f` must not lock the same lock
/// again: that deadlocks.
#[verifier::external_body]
pub(crate) fn with_write<T, U, F: FnOnce(&mut T) -> U>(lock: &RwLock<T>, f: F) -> (r: U)
    requires
        forall|v: &mut T| f.requires((v,)),
    ensures
        exists|v: &mut T| f.ensures((v,), r),
{
    let mut guard = lock.write();
    f(&mut *guard)
}

} // verus!
