//! The upload timestamp: a reading of the server clock, taken once per
//! upload and stored with the record.

use vstd::prelude::*;

verus! {

/// Relies on chrono's `Utc::now`: a reading of the system clock in
/// milliseconds since the epoch.  Nothing is assumed of the value.
#[verifier::external_body]
pub(crate) fn now_timestamp_millis() -> i64 {
    chrono::Utc::now().timestamp_millis()
}

} // verus!
