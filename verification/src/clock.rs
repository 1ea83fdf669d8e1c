//! The wall-clock reading that bounds the extraction walk. A clock reading
//! is opaque: nothing is promised of how much time has passed, so whatever
//! the clock answers, the walk's callers are told only that some prefix of
//! the containers was processed.

use vstd::prelude::*;

verus! {

#[verifier::external_type_specification]
#[verifier::external_body]
pub struct ExInstant(std::time::Instant);

/// Relies on `std::time::Instant::now`: an opaque reading of the monotonic
/// clock, about which nothing is assumed.
#[verifier::external_body]
pub(crate) fn instant_now() -> (r: std::time::Instant) {
    std::time::Instant::now()
}

/// Relies on `std::time::Instant::elapsed` and
/// `std::time::Duration::from_secs`: whether at least `secs` seconds have
/// passed since `start`. The result depends on the clock and nothing is
/// promised of it.
#[verifier::external_body]
pub(crate) fn elapsed_at_least(start: &std::time::Instant, secs: u64) -> bool {
    start.elapsed() >= std::time::Duration::from_secs(secs)
}

} // verus!
