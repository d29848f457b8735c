//! Readings of the monotonic clock, as whole nanoseconds since a reference
//! instant.
use std::time::{Duration, Instant};
use vstd::prelude::*;

verus! {

/// `std::time::Instant`, a reading of the monotonic clock.
#[verifier::external_type_specification]
#[verifier::external_body]
pub struct ExInstant(Instant);

/// Calls `Instant::now`. Nothing is stated of the result: it is a reading of
/// the machine's clock.
#[verifier::external_body]
fn instant_now() -> Instant {
    Instant::now()
}

/// Calls `Instant::elapsed`. Nothing is stated of the result: it depends on
/// the machine's clock at the moment of the call.
#[verifier::external_body]
fn instant_elapsed(since: &Instant) -> Duration {
    since.elapsed()
}

/// Calls `Duration::as_nanos`. Nothing is stated of the result: a `Duration`
/// is opaque here.
#[verifier::external_body]
fn duration_nanos(d: &Duration) -> u128 {
    d.as_nanos()
}

/// A reference instant: now.
pub fn reference_now() -> Instant {
    instant_now()
}

/// The nanoseconds elapsed since `since`, on the monotonic clock.
pub fn nanos_since(since: &Instant) -> u128 {
    let d = instant_elapsed(since);
    duration_nanos(&d)
}

} // verus!
