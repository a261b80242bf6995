//! The asynchronous locks of `tokio` that guard the shards.
//!
//! Verus sees a lock as an opaque value: what a lock holds is reached only by
//! locking it, which awaits and so happens outside the verified code.
use tokio::sync::{Mutex, RwLock};
use vstd::prelude::*;

verus! {

/// `tokio::sync::Mutex`, an opaque type to Verus.
#[verifier::external_type_specification]
#[verifier::external_body]
#[verifier::reject_recursive_types(T)]
pub struct ExMutex<T: ?Sized>(Mutex<T>);

/// `tokio::sync::RwLock`, an opaque type to Verus.
#[verifier::external_type_specification]
#[verifier::external_body]
#[verifier::reject_recursive_types(T)]
pub struct ExRwLock<T: ?Sized>(RwLock<T>);

/// Calls `tokio::sync::Mutex::new`, which makes an unlocked mutex that holds
/// `value`. Nothing is claimed of the result: Verus cannot see into it.
#[verifier::external_body]
pub(crate) fn new_mutex<T>(value: T) -> Mutex<T> {
    Mutex::new(value)
}

/// Calls `tokio::sync::RwLock::new`, which makes an unlocked read-write lock
/// that holds `value`. Nothing is claimed of the result: Verus cannot see into
/// it.
#[verifier::external_body]
pub(crate) fn new_rwlock<T>(value: T) -> RwLock<T> {
    RwLock::new(value)
}

} // verus!
