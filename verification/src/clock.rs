use vstd::prelude::*;

verus! {

/// Reads the system clock: calls `SystemTime::elapsed` on the Unix epoch and gives the
/// milliseconds since then, truncated to 64 bits, or `None` where the clock is set before
/// the epoch. Nothing is stated of the value: it depends on the machine's clock.
#[verifier::external_body]
pub fn read_clock_millis() -> Option<u64> {
    match std::time::UNIX_EPOCH.elapsed() {
        Ok(elapsed) => Some(elapsed.as_millis() as u64),
        Err(_) => None,
    }
}

/// The current time in milliseconds since the Unix epoch. A clock set before the epoch
/// reads as the epoch itself (0): the library's functions do not fail on a wrong clock.
pub fn now_millis() -> (r: u64) {
    match read_clock_millis() {
        Some(t) => t,
        None => 0,
    }
}

} // verus!
