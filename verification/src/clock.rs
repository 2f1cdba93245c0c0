//! Clocks and identifiers that come from outside the library.
//!
//! Nothing is known of what a clock reads; the logic that depends on time
//! takes the reading as an argument and is verified for every value of it.
use vstd::prelude::*;
use std::time::Instant;

verus! {

/// `std::time::Instant`, carried through the library as an opaque value.
#[verifier::external_type_specification]
#[verifier::external_body]
pub struct ExInstant(Instant);

/// Calls `std::time::Instant::now`; nothing is claimed of the reading.
#[verifier::external_body]
pub(crate) fn monotonic_origin() -> (r: Instant) {
    Instant::now()
}

/// Calls `Instant::elapsed` on `origin` and returns the whole nanoseconds,
/// converted to `u64`; nothing is claimed of the reading.
#[verifier::external_body]
pub(crate) fn nanos_since(origin: &Instant) -> (r: u64) {
    origin.elapsed().as_nanos() as u64
}

/// Calls `chrono::Utc::now` and returns `timestamp_millis`; nothing is
/// claimed of the reading.
#[verifier::external_body]
pub(crate) fn utc_now_millis() -> (r: i64) {
    chrono::Utc::now().timestamp_millis()
}

/// Calls `uuid::Uuid::new_v4` and returns `as_u128`; nothing is claimed
/// of the value.
#[verifier::external_body]
pub(crate) fn random_uuid() -> (r: u128) {
    uuid::Uuid::new_v4().as_u128()
}

/// Whole seconds from `from` to `to` (both milliseconds since the Unix
/// epoch), truncated toward zero as `chrono::TimeDelta::num_seconds`
/// truncates.
pub open spec fn whole_seconds(from: i64, to: i64) -> int {
    let d = to - from;
    if d >= 0 { d / 1000 } else { -((-d) / 1000) }
}

/// Whole seconds from `from` to `to` (milliseconds), truncated toward zero.
pub fn seconds_between(from: i64, to: i64) -> (r: i128)
    ensures
        r == whole_seconds(from, to),
{
    let d: i128 = (to as i128) - (from as i128);
    if d >= 0 {
        d / 1000
    } else {
        -((-d) / 1000)
    }
}

} // verus!
