//! The time of day, as the store records it.

use crate::record::Timestamp;
use vstd::prelude::*;

verus! {

/// `chrono::Utc::now`, as the seconds since 1970 that `timestamp` gives
/// and the nanoseconds that `timestamp_subsec_nanos` gives. Nothing is
/// claimed of the instant.
#[verifier::external_body]
pub(crate) fn now() -> Timestamp {
    let t = chrono::Utc::now();
    Timestamp { secs: t.timestamp(), nanos: t.timestamp_subsec_nanos() }
}

} // verus!
