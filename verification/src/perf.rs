//! A small stopwatch for coarse timing of library operations.

use vstd::prelude::*;

verus! {

#[verifier::external_type_specification]
#[verifier::external_body]
pub struct ExInstant(std::time::Instant);

/// Relies on std::time::Instant::now: an opaque reading of the
/// monotonic clock.
#[verifier::external_body]
fn instant_now() -> std::time::Instant {
    std::time::Instant::now()
}

/// Relies on std::time::Instant::elapsed and Duration::as_millis: the
/// milliseconds since the reading was taken.
#[verifier::external_body]
fn elapsed_ms(initial: &std::time::Instant) -> u128 {
    initial.elapsed().as_millis()
}

/// A running stopwatch, started when constructed.
pub struct Performance {
    pub initial: std::time::Instant,
}

impl Performance {
    /// Starts the stopwatch at the present moment.
    pub fn new() -> Self {
        Performance { initial: instant_now() }
    }

    /// The milliseconds elapsed since the start. A clock reading: two
    /// calls may differ.
    pub fn get_ms(&self) -> u128 {
        elapsed_ms(&self.initial)
    }
}

} // verus!
