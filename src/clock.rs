//! Readings of the system's clocks.

use vstd::prelude::*;

verus! {

/// A reading of the monotonic clock, carried without looking inside.
#[verifier::external_type_specification]
#[verifier::external_body]
pub struct ExInstant(std::time::Instant);

/// Relies on std::time::Instant::now: a reading of the monotonic clock.
#[verifier::external_body]
pub(crate) fn instant_now() -> (r: std::time::Instant)
{
    std::time::Instant::now()
}

/// Relies on std::time::Instant::elapsed: nanoseconds since `start`.
#[verifier::external_body]
pub(crate) fn nanos_since(start: &std::time::Instant) -> (r: u128)
{
    start.elapsed().as_nanos()
}

/// Relies on std::time::SystemTime::elapsed, on the Unix epoch: the current
/// Unix time in seconds, zero for a clock set before 1970.
#[verifier::external_body]
pub(crate) fn unix_now() -> (r: u64)
{
    std::time::UNIX_EPOCH.elapsed().map(|d| d.as_secs()).unwrap_or(0)
}

} // verus!
