//! The wall clock, read once for each accepted batch.

use vstd::prelude::*;

verus! {

/// The system clock, `SystemTime::now` of the standard library, taken as a
/// `chrono::DateTime<Utc>` by chrono's `From<SystemTime>` and read as
/// milliseconds since the Unix epoch by `DateTime::timestamp_millis`. Nothing
/// is claimed of the value: it is whatever the system clock says. A clock set
/// before 1970 gives a negative number.
#[verifier::external_body]
pub(crate) fn current_millis() -> i64 {
    chrono::DateTime::<chrono::Utc>::from(std::time::SystemTime::now()).timestamp_millis()
}

} // verus!
