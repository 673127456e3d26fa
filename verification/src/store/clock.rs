//! Time as the store sees it: whole nanoseconds on a monotonic clock.

use vstd::prelude::*;
use std::time::Instant;
use std::time::SystemTime;
use std::time::UNIX_EPOCH;

verus! {

/// Nanoseconds in one second.
pub const NANOS_PER_SEC: u64 = 1_000_000_000;

/// `std::time::Instant`: a reading of the monotonic clock, held as an opaque
/// value.
#[verifier::external_type_specification]
#[verifier::external_body]
pub struct ExInstant(Instant);

/// The instant a command runs at, read once per command.
#[derive(Clone, Copy, Debug, PartialEq, Eq)]
pub struct Moment {
    /// Nanoseconds on the monotonic clock, counted from the clock's origin.
    pub monotonic: u64,
    /// Milliseconds of wall-clock time since the Unix epoch.
    pub wall_millis: u64,
}

/// A monotonic clock that counts nanoseconds from the moment it was made.
pub struct Clock {
    origin: Instant,
}

/// `std::time::Instant::now`: the present instant of the monotonic clock.
/// Nothing is claimed of the result.
#[verifier::external_body]
fn instant_now() -> Instant {
    Instant::now()
}

/// `std::time::Instant::elapsed`, as whole nanoseconds. The reading depends
/// on when the call is made, so nothing is claimed of it.
#[verifier::external_body]
fn nanos_since(origin: &Instant) -> u64 {
    origin.elapsed().as_nanos() as u64
}

/// `std::time::SystemTime::now`, as milliseconds since the Unix epoch, and 0
/// where the system clock stands before the epoch. The reading depends on
/// when the call is made, so nothing is claimed of it.
#[verifier::external_body]
fn unix_millis() -> u64 {
    match SystemTime::now().duration_since(UNIX_EPOCH) {
        Ok(d) => d.as_millis() as u64,
        Err(_) => 0,
    }
}

impl Clock {
    /// A clock whose origin is now.
    pub fn new() -> Self {
        Clock { origin: instant_now() }
    }

    /// Nanoseconds since the clock's origin.
    pub fn now(&self) -> u64 {
        nanos_since(&self.origin)
    }

    /// Milliseconds of wall-clock time since the Unix epoch.
    pub fn wall_millis() -> u64 {
        unix_millis()
    }

    /// Reads both the monotonic and the wall clock.
    pub fn moment(&self) -> Moment {
        Moment { monotonic: nanos_since(&self.origin), wall_millis: unix_millis() }
    }
}

} // verus!
