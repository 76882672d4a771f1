//! Trusted readings of the system clocks.

use crate::time::{Duration, Timestamp};
use vstd::prelude::*;

verus! {

/// A reading of the monotonic clock, used to measure how long a span was
/// open. The value is opaque; only the elapsed time since it is read.
#[verifier::external_type_specification]
#[verifier::external_body]
pub struct ExInstant(std::time::Instant);

/// Relies on `std::time::Instant::now`: a reading of the monotonic clock.
/// Nothing is promised of the value.
#[verifier::external_body]
pub fn monotonic_now() -> std::time::Instant {
    std::time::Instant::now()
}

/// Relies on `std::time::Instant::elapsed`: the time since the reading
/// was taken. Nothing is promised of the amount.
#[verifier::external_body]
pub fn elapsed_since(start: &std::time::Instant) -> Duration {
    let d = start.elapsed();
    Duration::new(d.as_secs(), d.subsec_nanos())
}

/// Relies on `std::time::SystemTime::now`: the wall clock, read as the
/// duration since the Unix epoch, or the epoch itself for a clock set
/// before it. Nothing is promised of the value.
#[verifier::external_body]
pub fn wall_now() -> Timestamp {
    let d = std::time::SystemTime::now()
        .duration_since(std::time::UNIX_EPOCH)
        .unwrap_or(std::time::Duration::from_secs(0));
    Timestamp::new(Duration::new(d.as_secs(), d.subsec_nanos()))
}

} // verus!
