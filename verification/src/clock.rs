//! The one place where the library reads the time of day.

use crate::todo::Timestamp;
use vstd::prelude::*;

verus! {

/// Reads the clock: `chrono::Utc::now`, taken apart into the seconds since
/// the epoch (`timestamp`) and the nanoseconds into the second
/// (`timestamp_subsec_nanos`). Nothing is claimed of the instant.
#[verifier::external_body]
pub(crate) fn current_time() -> (now: Timestamp) {
    let now = chrono::Utc::now();
    Timestamp { secs: now.timestamp(), nanos: now.timestamp_subsec_nanos() }
}

} // verus!
