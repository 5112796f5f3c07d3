//! Spans of time in whole nanoseconds.
use vstd::prelude::*;

verus! {

/// A span of time.
#[derive(Clone, Copy, Debug, PartialEq, Eq, Structural)]
pub struct Duration {
    /// The length of the span in nanoseconds.
    pub nanos: u128,
}

impl Duration {
    /// A span of whole seconds.
    pub fn from_secs(secs: u64) -> (r: Self)
        ensures
            r.nanos == secs * 1_000_000_000,
    {
        Duration { nanos: secs as u128 * 1_000_000_000 }
    }

    /// A span of whole milliseconds.
    pub fn from_millis(millis: u64) -> (r: Self)
        ensures
            r.nanos == millis * 1_000_000,
    {
        Duration { nanos: millis as u128 * 1_000_000 }
    }

    /// A span of nanoseconds.
    pub fn from_nanos(nanos: u64) -> (r: Self)
        ensures
            r.nanos == nanos,
    {
        Duration { nanos: nanos as u128 }
    }

    /// The whole span in nanoseconds.
    pub fn as_nanos(&self) -> (r: u128)
        ensures
            r == self.nanos,
    {
        self.nanos
    }

    /// The whole milliseconds in the span, cut to the low 64 bits.
    pub fn as_millis_u64(&self) -> (r: u64)
        ensures
            r == (self.nanos / 1_000_000) as u64,
    {
        (self.nanos / 1_000_000) as u64
    }

    /// The whole seconds in the span.
    pub fn as_secs(&self) -> (r: u128)
        ensures
            r == self.nanos / 1_000_000_000,
    {
        self.nanos / 1_000_000_000
    }
}

} // verus!
