use vstd::prelude::*;
use std::time::Duration;
use std::time::Instant;

verus! {

/// `std::time::Instant`, a point on the monotonic clock. Nothing is known of
/// what it holds.
#[verifier::external_type_specification]
#[verifier::external_body]
pub struct ExInstant(Instant);

/// `Instant::now` reads the clock. Its result depends on the moment of the
/// call, so nothing is claimed of it.
pub assume_specification[ Instant::now ]() -> (now: Instant);

/// `Instant::elapsed` gives the time that has passed since the instant was
/// taken. It depends on the moment of the call, so nothing is claimed of it.
pub assume_specification[ Instant::elapsed ](start: &Instant) -> (passed: Duration);

/// `Duration::as_millis` gives the whole milliseconds of a duration. A
/// duration is opaque here, so nothing is claimed of the number.
pub assume_specification[ Duration::as_millis ](span: &Duration) -> (millis: u128);

} // verus!
