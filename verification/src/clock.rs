//! The wall clock, read through the `chrono` crate.

use vstd::prelude::*;
use crate::types::Timestamp;

verus! {

/// Relies on `chrono::Utc::now` and `DateTime::timestamp_millis`: the current
/// time in milliseconds since the Unix epoch.  Nothing is assumed of its
/// value; every caller must be correct for an arbitrary reading.
#[verifier::external_body]
pub fn now_millis() -> Timestamp {
    Timestamp(chrono::Utc::now().timestamp_millis())
}

} // verus!
