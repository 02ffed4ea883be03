//! The generation as it is shared between the thread that computes and the
//! thread that draws: behind a reader-writer lock of `parking_lot`.
//!
//! Nothing in this crate can say what the lock holds at a given moment: the
//! value is whatever was last stored, by whichever holder of the handle. The
//! two functions below therefore promise nothing of the value read, and the
//! verified code around them is proved for every value that may come back.

use crate::generation::Generation;
use parking_lot::RwLock;
use std::sync::Arc;
use vstd::prelude::*;

verus! {

/// `lock_api::RwLock`, the lock type behind `parking_lot::RwLock`. Verus
/// carries values of it through and sees nothing inside.
#[verifier::external_type_specification]
#[verifier::external_body]
#[verifier::reject_recursive_types(R)]
#[verifier::reject_recursive_types(T)]
pub struct ExRwLock<R, T: ?Sized>(parking_lot::lock_api::RwLock<R, T>);

/// `parking_lot::RawRwLock`, the raw lock that `parking_lot::RwLock` is built on.
#[verifier::external_type_specification]
#[verifier::external_body]
pub struct ExRawRwLock(parking_lot::RawRwLock);

/// Takes the lock for reading with `RwLock::read`, copies the generation out
/// and releases the lock. Nothing is claimed of the copy: it is the frame that
/// the lock held at that moment.
#[verifier::external_body]
pub(crate) fn load(shared: &Arc<RwLock<Generation>>) -> Generation {
    shared.read().clone()
}

/// Takes the lock for writing with `RwLock::write`, puts `value` in place of
/// the generation held so far and releases the lock. This is the moment at
/// which readers begin to see `value`.
#[verifier::external_body]
pub(crate) fn store(shared: &Arc<RwLock<Generation>>, value: Generation) {
    *shared.write() = value;
}

} // verus!
