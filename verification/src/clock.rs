//! The wall clock.

use vstd::prelude::*;

verus! {

/// A point in time of the standard library.  The proofs see nothing inside
/// it.
#[verifier::external_type_specification]
#[verifier::external_body]
pub struct ExInstant(std::time::Instant);

/// Trusted: `Instant::now` of the standard library reads the clock.  Nothing
/// is claimed of the instant.
pub assume_specification[ std::time::Instant::now ]() -> (now: std::time::Instant);

/// Trusted: `Instant::elapsed` of the standard library gives the time since
/// the instant.  Nothing is claimed of the duration.
pub assume_specification[ std::time::Instant::elapsed ](start: &std::time::Instant) -> (passed:
    std::time::Duration);

/// Trusted: `Duration::as_millis` of the standard library gives a duration in
/// whole milliseconds.  Nothing is claimed of the number.
pub assume_specification[ std::time::Duration::as_millis ](passed: &std::time::Duration) -> (ms:
    u128);

/// A running stopwatch.
pub struct Stopwatch {
    start: std::time::Instant,
}

impl Stopwatch {
    /// Starts a stopwatch.
    pub fn start() -> Stopwatch {
        Stopwatch { start: std::time::Instant::now() }
    }

    /// The milliseconds since the stopwatch was started.
    pub fn elapsed_ms(&self) -> u128 {
        self.start.elapsed().as_millis()
    }
}

} // verus!
