//! Readings of a monotonic clock and the lengths of time between them, both
//! counted in whole nanoseconds.

use vstd::prelude::*;

verus! {

/// Nanoseconds in one second.
pub const NANOS_PER_SECOND: u128 = 1_000_000_000;

/// Nanoseconds in one millisecond.
pub const NANOS_PER_MILLI: u128 = 1_000_000;

/// A length of time.
#[derive(Clone, Copy, Debug, PartialEq, Eq, Structural)]
pub struct Span {
    nanos: u128,
}

/// A reading of a monotonic clock: the time that has passed since the clock's
/// origin.
#[derive(Clone, Copy, Debug, PartialEq, Eq, Structural)]
pub struct Moment {
    nanos: u128,
}

impl View for Span {
    type V = nat;

    /// The length in nanoseconds.
    closed spec fn view(&self) -> nat {
        self.nanos as nat
    }
}

impl View for Moment {
    type V = nat;

    /// The nanoseconds since the clock's origin.
    closed spec fn view(&self) -> nat {
        self.nanos as nat
    }
}

/// The time from `earlier` to `later`, and nothing where `later` is not after
/// `earlier`: a monotonic clock does not run backwards, so a reading that
/// seems to lie in the past counts as no time passed.
pub open spec fn elapsed(earlier: nat, later: nat) -> nat {
    if later >= earlier {
        (later - earlier) as nat
    } else {
        0
    }
}

impl Span {
    /// A span of `nanos` nanoseconds.
    pub fn from_nanos(nanos: u128) -> (span: Span)
        ensures
            span@ == nanos,
    {
        Span { nanos }
    }

    /// A span of `millis` milliseconds.
    pub fn from_millis(millis: u64) -> (span: Span)
        ensures
            span@ == millis * NANOS_PER_MILLI,
    {
        Span { nanos: millis as u128 * NANOS_PER_MILLI }
    }

    /// A span of `secs` seconds.
    pub fn from_secs(secs: u64) -> (span: Span)
        ensures
            span@ == secs * NANOS_PER_SECOND,
    {
        Span { nanos: secs as u128 * NANOS_PER_SECOND }
    }

    /// A span of `minutes` minutes.
    pub fn from_minutes(minutes: u64) -> (span: Span)
        ensures
            span@ == minutes * 60 * NANOS_PER_SECOND,
    {
        Span { nanos: minutes as u128 * 60 * NANOS_PER_SECOND }
    }

    /// The length in nanoseconds.
    pub fn as_nanos(&self) -> (nanos: u128)
        ensures
            nanos == self@,
    {
        self.nanos
    }

    /// Whether this span is at least as long as `other`.
    pub fn at_least(&self, other: Span) -> (longer: bool)
        ensures
            longer == (self@ >= other@),
    {
        self.nanos >= other.nanos
    }
}

impl Moment {
    /// The reading `nanos` nanoseconds after the clock's origin.
    pub fn from_nanos(nanos: u128) -> (moment: Moment)
        ensures
            moment@ == nanos,
    {
        Moment { nanos }
    }

    /// The reading `millis` milliseconds after the clock's origin.
    pub fn from_millis(millis: u64) -> (moment: Moment)
        ensures
            moment@ == millis * NANOS_PER_MILLI,
    {
        Moment { nanos: millis as u128 * NANOS_PER_MILLI }
    }

    /// The reading `secs` seconds after the clock's origin.
    pub fn from_secs(secs: u64) -> (moment: Moment)
        ensures
            moment@ == secs * NANOS_PER_SECOND,
    {
        Moment { nanos: secs as u128 * NANOS_PER_SECOND }
    }

    /// The nanoseconds since the clock's origin.
    pub fn as_nanos(&self) -> (nanos: u128)
        ensures
            nanos == self@,
    {
        self.nanos
    }

    /// The time that has passed at this reading since `earlier`.
    pub fn since(&self, earlier: Moment) -> (span: Span)
        ensures
            span@ == elapsed(earlier@, self@),
    {
        if self.nanos >= earlier.nanos {
            Span { nanos: self.nanos - earlier.nanos }
        } else {
            Span { nanos: 0 }
        }
    }
}

} // verus!
