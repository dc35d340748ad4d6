//! Spans of time, and the clock that a run is timed by.

use std::time::Instant;
use vstd::prelude::*;

verus! {

/// The nanoseconds in a millisecond.
pub const NANOS_PER_MILLI: u128 = 1_000_000;

/// The nanoseconds in a second.
pub const NANOS_PER_SEC: u128 = 1_000_000_000;

/// A span of time in whole nanoseconds.
#[derive(Clone, Copy, Debug, PartialEq, Eq, Structural)]
pub struct Duration {
    pub nanos: u128,
}

impl View for Duration {
    type V = nat;

    open spec fn view(&self) -> nat {
        self.nanos as nat
    }
}

/// The whole milliseconds in a span of `nanos` nanoseconds.
pub open spec fn millis_of(nanos: nat) -> nat {
    nanos / (NANOS_PER_MILLI as nat)
}

/// The whole seconds in a span of `nanos` nanoseconds.
pub open spec fn secs_of(nanos: nat) -> nat {
    nanos / (NANOS_PER_SEC as nat)
}

impl Duration {
    /// A span of `nanos` nanoseconds.
    pub fn from_nanos(nanos: u128) -> (d: Duration)
        ensures
            d@ == nanos,
    {
        Duration { nanos }
    }

    /// A span of `millis` milliseconds.
    pub fn from_millis(millis: u64) -> (d: Duration)
        ensures
            d@ == millis * NANOS_PER_MILLI,
            millis_of(d@) == millis,
    {
        Duration { nanos: millis as u128 * NANOS_PER_MILLI }
    }

    /// A span of `secs` seconds.
    pub fn from_secs(secs: u64) -> (d: Duration)
        ensures
            d@ == secs * NANOS_PER_SEC,
            secs_of(d@) == secs,
    {
        Duration { nanos: secs as u128 * NANOS_PER_SEC }
    }

    /// The nanoseconds in this span.
    pub fn as_nanos(&self) -> (n: u128)
        ensures
            n == self@,
    {
        self.nanos
    }

    /// The whole milliseconds in this span.
    pub fn as_millis(&self) -> (n: u128)
        ensures
            n == millis_of(self@),
    {
        self.nanos / NANOS_PER_MILLI
    }

    /// The whole seconds in this span.
    pub fn as_secs(&self) -> (n: u128)
        ensures
            n == secs_of(self@),
    {
        self.nanos / NANOS_PER_SEC
    }

    /// The time from `earlier` to `self`; none where `earlier` is the later one.
    pub fn saturating_sub(&self, earlier: &Duration) -> (d: Duration)
        ensures
            d@ == since(self@, earlier@),
    {
        if self.nanos >= earlier.nanos {
            Duration { nanos: self.nanos - earlier.nanos }
        } else {
            Duration { nanos: 0 }
        }
    }
}

/// The time from the reading `earlier` to the reading `later` of one clock;
/// none where the clock is read as having gone back.
pub open spec fn since(later: nat, earlier: nat) -> nat {
    if later >= earlier {
        (later - earlier) as nat
    } else {
        0
    }
}

/// `std::time::Instant`, a reading of the monotonic clock. Nothing of
/// what it holds is known here: it is kept to read the clock against.
#[verifier::external_type_specification]
#[verifier::external_body]
pub struct ExInstant(Instant);

/// Reads the monotonic clock, by `std::time::Instant::now`. Nothing is
/// claimed of the reading.
#[verifier::external_body]
pub(crate) fn clock_now() -> (now: Instant) {
    Instant::now()
}

/// The time that has passed on the monotonic clock since `start`, by
/// `std::time::Instant::elapsed`, in nanoseconds. Nothing is claimed of
/// the reading.
#[verifier::external_body]
pub(crate) fn clock_elapsed(start: &Instant) -> (elapsed: u128) {
    start.elapsed().as_nanos()
}

} // verus!
