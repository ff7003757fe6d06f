//! The shared handle the host layer holds on the ledger.  Concurrency
//! guarding is the host's concern: this crate only constructs the handle, and
//! the host locks it from outside.

use vstd::prelude::*;
use crate::chain::Blockchain;

verus! {

#[verifier::external_type_specification]
#[verifier::external_body]
#[verifier::reject_recursive_types(T)]
pub struct ExMutex<T: ?Sized>(std::sync::Mutex<T>);

/// Relies on std::sync::Mutex::new: wraps the ledger so the host layer can
/// serialize its accesses.  The contents are opaque here; nothing is claimed
/// of them.
#[verifier::external_body]
fn new_ledger_mutex(ledger: Blockchain) -> std::sync::Mutex<Blockchain> {
    std::sync::Mutex::new(ledger)
}

/// The state the host layer shares: one ledger behind a lock.
pub struct AppState {
    pub blockchain: std::sync::Mutex<Blockchain>,
}

impl AppState {
    /// Builds the shared state around a fresh ledger with the given
    /// difficulty.
    pub fn new(difficulty: usize) -> AppState
        requires
            difficulty <= 64,
    {
        AppState { blockchain: new_ledger_mutex(Blockchain::new(difficulty)) }
    }
}

} // verus!
