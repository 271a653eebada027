//! The wall clock, read through `chrono`.

use vstd::prelude::*;

verus! {

/// The current instant in UTC, in milliseconds since the Unix epoch.
///
/// Reads `std::time::SystemTime::now`, turns it into a `chrono::DateTime<Utc>`
/// by chrono's `From<SystemTime>` and takes `timestamp_millis` of that.
/// Nothing is claimed of the value: it depends on the machine's clock, which
/// may stand still or step backwards between two calls. A clock that reads a
/// time before 1970 gives a negative value. The conversion gives up only on
/// a clock beyond the years that `chrono` can represent, some 262,000 years
/// from now; no argument of this function can exclude that.
#[verifier::external_body]
pub(crate) fn utc_now_millis() -> (millis: i64) {
    chrono::DateTime::<chrono::Utc>::from(std::time::SystemTime::now()).timestamp_millis()
}

} // verus!
