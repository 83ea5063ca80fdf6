use vstd::prelude::*;
use std::time::Instant;

verus! {

/// `std::time::Instant`: a reading of the monotonic clock.
#[verifier::external_type_specification]
#[verifier::external_body]
pub struct ExInstant(std::time::Instant);

/// `Instant::now` reads the clock; nothing is known of the reading.
pub assume_specification[ Instant::now ]() -> Instant;

/// The time since `epoch` in nanoseconds, by `Instant::elapsed` and
/// `Duration::as_nanos`. It is a reading of the clock: nothing is known of it.
#[verifier::external_body]
pub(crate) fn nanos_since(epoch: &Instant) -> u128 {
    epoch.elapsed().as_nanos()
}

} // verus!
