//! The one clock read the capture loop needs.
use vstd::prelude::*;

verus! {

/// Relies on std::time::SystemTime: seconds of the system clock since the
/// Unix epoch, zero when the clock reads before the epoch.  The clock is the
/// machine's, so nothing is promised of the value.
#[verifier::external_body]
pub fn now_timestamp() -> u64 {
    std::time::SystemTime::now().duration_since(std::time::UNIX_EPOCH).unwrap_or_default().as_secs()
}

} // verus!
