//! The local monotonic clock.

use std::time::{Duration, Instant};
use vstd::prelude::*;

verus! {

/// `std::time::Instant`: a reading of the monotonic clock. Nothing is known
/// of what a value holds.
#[verifier::external_type_specification]
#[verifier::external_body]
pub struct ExInstant(std::time::Instant);

/// `Instant::now`: reads the monotonic clock. Nothing is claimed of the
/// reading.
#[verifier::external_body]
pub(crate) fn instant_now() -> (r: Instant) {
    Instant::now()
}

/// `Instant::elapsed`: the time since the reading `reference` was taken.
/// Nothing is claimed of the result.
#[verifier::external_body]
pub(crate) fn instant_elapsed(reference: &Instant) -> (r: Duration) {
    reference.elapsed()
}

/// `Duration::as_micros`: the whole microseconds in a span of time. Nothing
/// is claimed of the result.
#[verifier::external_body]
pub(crate) fn duration_as_micros(span: &Duration) -> (r: u128) {
    span.as_micros()
}

/// The whole microseconds since `reference` was taken, as far as 64 bits
/// count.
pub fn micros_since(reference: &Instant) -> (r: u64) {
    let span = instant_elapsed(reference);
    let micros = duration_as_micros(&span);
    crate::fixed::saturate_to_u64(micros)
}

} // verus!
