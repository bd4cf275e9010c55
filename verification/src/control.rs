//! Locks shared between the player and its worker threads.
use vstd::prelude::*;
use std::sync::Mutex;

verus! {

/// `std::sync::Mutex`, held opaquely: its contents change under other
/// threads, so only what a lock was created holding is known of it.
#[verifier::external_type_specification]
#[verifier::external_body]
#[verifier::reject_recursive_types(T)]
pub struct ExMutex<T: ?Sized>(Mutex<T>);

} // verus!
