//! The one reading the ledger takes from its environment: the time a block
//! was constructed.

use vstd::prelude::*;

verus! {

/// Relies on chrono's `From<SystemTime>` conversion and
/// `DateTime::timestamp`: seconds since the Unix epoch at the moment of the
/// call, negative for a clock set before the epoch.  The value depends on the
/// clock, so nothing is assumed of it.
#[verifier::external_body]
pub(crate) fn current_timestamp() -> i64 {
    chrono::DateTime::<chrono::Utc>::from(std::time::SystemTime::now()).timestamp()
}

} // verus!
