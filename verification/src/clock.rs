//! Readings of the system clock and of the monotonic clock.
use vstd::prelude::*;

verus! {

/// `SystemTime::now()` measured from the Unix epoch, in milliseconds
/// (0 when the clock reads earlier than the epoch).  The reading depends on
/// the machine and the moment: nothing is stated of it.
#[verifier::external_body]
pub(crate) fn unix_time_millis() -> i64 {
    match std::time::SystemTime::now().duration_since(std::time::UNIX_EPOCH) {
        Ok(d) => d.as_millis() as i64,
        Err(_) => 0,
    }
}

/// `Instant::now()`: the monotonic clock now.  The reading depends on the
/// machine and the moment: nothing is stated of it.
#[verifier::external_body]
pub(crate) fn instant_now() -> std::time::Instant {
    std::time::Instant::now()
}

/// `Instant::elapsed` of `start`, in whole milliseconds
/// (`Duration::as_millis`).  It depends on the moment: nothing is stated of
/// it.
#[verifier::external_body]
pub(crate) fn millis_since(start: &std::time::Instant) -> u128 {
    start.elapsed().as_millis()
}

} // verus!
