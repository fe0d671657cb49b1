//! The current time, which the journal and the cache stamp entries with.

use vstd::prelude::*;

verus! {

/// Calls `std::time::SystemTime::now` and gives the whole seconds since
/// the Unix epoch (0 for a clock set before it). The answer depends on the
/// machine's clock, so nothing is promised of it.
#[verifier::external_body]
pub(crate) fn unix_time_secs() -> u64 {
    std::time::SystemTime::now().duration_since(std::time::UNIX_EPOCH).unwrap_or_default().as_secs()
}

} // verus!
