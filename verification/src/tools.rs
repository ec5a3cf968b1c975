//! Sharing an object between the game loop and its parts.
use vstd::prelude::*;
use std::sync::{Arc, Mutex};

verus! {

/// `std::sync::Mutex`, carried through unseen.
#[verifier::external_type_specification]
#[verifier::external_body]
#[verifier::reject_recursive_types(T)]
pub struct ExMutex<T: ?Sized>(Mutex<T>);

/// `std::sync::Mutex::new`: a lock holding `x`. A `Mutex` is opaque here,
/// so nothing is claimed of what the result holds.
#[verifier::external_body]
fn mutex_new<T>(x: T) -> Mutex<T> {
    Mutex::new(x)
}

/// A shared, lockable handle on `x`.
pub fn arc_mut<T>(x: T) -> Arc<Mutex<T>> {
    Arc::new(mutex_new(x))
}

} // verus!
