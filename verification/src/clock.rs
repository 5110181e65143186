//! Readings of the system's clocks. Nothing is proved of a reading: the
//! functions that use one state what holds whatever it is, and verified
//! functions that take a reading as an argument say what comes of it.

use vstd::prelude::*;

verus! {

#[verifier::external_type_specification]
#[verifier::external_body]
pub struct ExInstant(std::time::Instant);

#[verifier::external_type_specification]
#[verifier::external_body]
pub struct ExSystemTime(std::time::SystemTime);

/// `Instant::now()`: a reading of the monotonic clock. Nothing is stated of it.
#[verifier::external_body]
fn monotonic_now() -> (t: std::time::Instant) {
    std::time::Instant::now()
}

/// `Instant::elapsed()` on `origin`: the time since it, read from the clock
/// again, so nothing is stated of it.
#[verifier::external_body]
fn elapsed_since(origin: &std::time::Instant) -> (d: std::time::Duration) {
    origin.elapsed()
}

/// `Duration::as_nanos()`, narrowed to `u64` (enough for 584 years). A
/// `Duration` is opaque here, so nothing is stated of the number.
#[verifier::external_body]
fn whole_nanos(d: &std::time::Duration) -> (ns: u64) {
    d.as_nanos() as u64
}

/// `SystemTime::now()`: a reading of the wall clock. Nothing is stated of it.
#[verifier::external_body]
fn wall_clock_now() -> (t: std::time::SystemTime) {
    std::time::SystemTime::now()
}

/// `SystemTime::duration_since(UNIX_EPOCH)`; `None` where the call returns its
/// error, a reading before the epoch. The reading is opaque, so nothing more
/// is stated.
#[verifier::external_body]
fn since_unix_epoch(t: &std::time::SystemTime) -> (d: Option<std::time::Duration>) {
    match t.duration_since(std::time::UNIX_EPOCH) {
        Ok(d) => Some(d),
        Err(_) => None,
    }
}

/// `Duration::as_secs()`: the whole seconds of a duration. A `Duration` is
/// opaque here, so nothing is stated of the number.
#[verifier::external_body]
fn whole_secs(d: &std::time::Duration) -> (s: u64) {
    d.as_secs()
}

/// The current Unix time in whole seconds, or `None` where the wall clock
/// is set before 1970.
pub(crate) fn unix_time_secs() -> Option<u64> {
    let now = wall_clock_now();
    match since_unix_epoch(&now) {
        Some(d) => Some(whole_secs(&d)),
        None => None,
    }
}

/// A monotonic clock that counts nanoseconds from the moment it was started.
pub struct Clock {
    origin: std::time::Instant,
}

impl Clock {
    /// A clock that starts now.
    pub fn start() -> Clock {
        Clock { origin: monotonic_now() }
    }

    /// Nanoseconds since the clock was started.
    pub fn now_ns(&self) -> u64 {
        let d = elapsed_since(&self.origin);
        whole_nanos(&d)
    }
}

} // verus!
