//! Standard-library values that pass through the library: I/O errors and
//! the clocks.

use std::io;

use vstd::prelude::*;

verus! {

#[verifier::external_type_specification]
#[verifier::external_body]
pub struct ExIoError(io::Error);

/// The text `io::Error`'s `Display` produces (`ToString::to_string`).
///
/// Nothing is stated of the text: it depends on the operating system's
/// error messages.
#[verifier::external_body]
pub fn io_error_text(e: &io::Error) -> String {
    e.to_string()
}

/// Seconds since the Unix epoch from the system clock, or 0 when the clock
/// reads before the epoch (`SystemTime::now` measured against `UNIX_EPOCH`).
///
/// Nothing is stated of the value: it is the time.
#[verifier::external_body]
pub fn unix_now_secs() -> u64 {
    std::time::SystemTime::now().duration_since(std::time::UNIX_EPOCH).unwrap_or_default().as_secs()
}

#[verifier::external_type_specification]
#[verifier::external_body]
pub struct ExInstant(std::time::Instant);

/// The current moment of the monotonic clock (`Instant::now`).
#[verifier::external_body]
pub fn instant_now() -> std::time::Instant {
    std::time::Instant::now()
}

/// Seconds elapsed since `start`, as the bit pattern of an `f64`
/// (`Instant::elapsed`, then `Duration::as_secs_f64`).
///
/// Nothing is stated of the value: it is the time.
#[verifier::external_body]
pub fn seconds_since_bits(start: &std::time::Instant) -> u64 {
    start.elapsed().as_secs_f64().to_bits()
}

} // verus!
