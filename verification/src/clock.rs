//! The clocks the library reads.

use vstd::prelude::*;

verus! {

/// The current wall-clock instant in milliseconds since the Unix epoch.
///
/// The reading of `std::time::SystemTime::now` is turned into a date by
/// chrono's `From<SystemTime> for DateTime<Utc>` and read with
/// `DateTime::timestamp_millis`. A clock that stands before 1970 gives a
/// negative number; the conversion serves every instant within the years
/// that chrono has, some 262 000 on either side of 1970. Nothing is claimed
/// of the value: it is whatever the system clock says.
#[verifier::external_body]
pub(crate) fn now_millis() -> (now: i64) {
    chrono::DateTime::<chrono::Utc>::from(std::time::SystemTime::now()).timestamp_millis()
}

/// `std::time::Instant`: a reading of the monotonic clock, carried as it is.
#[verifier::external_type_specification]
#[verifier::external_body]
pub struct ExInstant(std::time::Instant);

/// A reading of the monotonic clock, by `std::time::Instant::now`.
#[verifier::external_body]
pub(crate) fn start_clock() -> (origin: std::time::Instant) {
    std::time::Instant::now()
}

/// The nanoseconds that have passed on the monotonic clock since `origin`,
/// by `std::time::Instant::elapsed`. Nothing is claimed of the value.
#[verifier::external_body]
pub(crate) fn nanos_since(origin: &std::time::Instant) -> (nanos: u128) {
    origin.elapsed().as_nanos()
}

} // verus!
