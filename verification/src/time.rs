use vstd::prelude::*;

verus! {

/// A source of the current time, for callers that want to inject one.
pub trait Clock {
    /// Milliseconds since the Unix epoch.
    fn now_millis(&self) -> u64;
}

/// The process's wall clock.
pub struct SystemClock;

/// Relies on `std::time::SystemTime::now` for the wall clock, read as
/// milliseconds since `UNIX_EPOCH`; nothing is assumed of the value.
/// A clock before the epoch reads as zero.
#[verifier::external_body]
fn system_now_millis() -> u64 {
    std::time::SystemTime::now()
        .duration_since(std::time::UNIX_EPOCH)
        .map(|d| d.as_millis() as u64)
        .unwrap_or(0)
}

impl Clock for SystemClock {
    fn now_millis(&self) -> u64 {
        system_now_millis()
    }
}

/// The wall clock now, in milliseconds since the Unix epoch.
pub fn now() -> u64 {
    SystemClock.now_millis()
}

} // verus!
