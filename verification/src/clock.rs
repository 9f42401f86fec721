//! The clock. What it shows depends on when it is read, so nothing is claimed
//! of a reading; the functions that use one are stated for every reading.

use crate::types::Millis;
use vstd::prelude::*;

verus! {

/// One reading of the clock.
#[derive(Debug)]
pub struct Now {
    /// Milliseconds since 1970-01-01T00:00:00Z.
    pub millis: Millis,
    /// Whole seconds since 1970-01-01T00:00:00Z.
    pub seconds: i64,
    /// The instant as RFC 3339 text, with the fraction of the second that
    /// the clock gave.
    pub rfc3339: String,
}

/// Calls `chrono::Utc::now` and takes from the instant its
/// `timestamp_millis`, its `timestamp` and its `to_rfc3339`. `Utc::now`
/// panics on a machine whose clock stands before 1970.
#[verifier::external_body]
pub(crate) fn read_clock() -> Now {
    let now = chrono::Utc::now();
    Now { millis: now.timestamp_millis(), seconds: now.timestamp(), rfc3339: now.to_rfc3339() }
}

} // verus!
