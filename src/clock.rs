//! The monotonic clock that times a bar's steps.
use vstd::prelude::*;
use std::time::Instant;

verus! {

#[verifier::external_type_specification]
#[verifier::external_body]
pub struct ExInstant(std::time::Instant);

/// Relies on `std::time::Instant::now`: a reading of the monotonic clock.
#[verifier::external_body]
pub(crate) fn start_clock() -> (r: Instant) {
    Instant::now()
}

/// Relies on `std::time::Instant::elapsed`: whole milliseconds since `origin`.
/// Nothing is promised of the value, which depends on the time of the call.
#[verifier::external_body]
pub(crate) fn millis_since(origin: &Instant) -> (r: u64) {
    origin.elapsed().as_millis() as u64
}

} // verus!
