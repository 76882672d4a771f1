//! Plain-value models of instants and durations.
//!
//! The library keeps wall-clock instants as a duration since the Unix
//! epoch and durations as seconds plus a sub-second nanosecond part, so
//! that the wire arithmetic on them can be verified. The view of either
//! type is its total length in nanoseconds.

use vstd::prelude::*;

verus! {

/// Nanoseconds per second.
pub const NANOS_PER_SEC: u32 = 1_000_000_000;

/// A span of time: whole seconds and a sub-second nanosecond part below
/// one second. The view is the total number of nanoseconds.
#[derive(Debug, Copy, Clone, PartialEq, Eq)]
pub struct Duration {
    secs: u64,
    nanos: u32,
}

impl View for Duration {
    type V = nat;

    closed spec fn view(&self) -> nat {
        (self.secs * 1_000_000_000 + self.nanos) as nat
    }
}

impl Duration {
    #[verifier::type_invariant]
    closed spec fn inv(self) -> bool {
        self.nanos < 1_000_000_000
    }

    /// Builds a duration from whole seconds and a nanosecond remainder.
    pub fn new(secs: u64, nanos: u32) -> (r: Duration)
        requires
            nanos < 1_000_000_000,
        ensures
            r@ == secs * 1_000_000_000 + nanos,
    {
        Duration { secs, nanos }
    }

    /// Builds a duration of whole seconds.
    pub fn from_secs(secs: u64) -> (r: Duration)
        ensures
            r@ == secs * 1_000_000_000,
    {
        Duration { secs, nanos: 0 }
    }

    /// Builds a duration of whole microseconds.
    pub fn from_micros(micros: u64) -> (r: Duration)
        ensures
            r@ == micros * 1000,
    {
        let secs = micros / 1_000_000;
        let nanos = (micros % 1_000_000) as u32 * 1000;
        proof {
            assert(secs * 1_000_000_000 + nanos == micros * 1000) by (nonlinear_arith)
                requires
                    secs == micros / 1_000_000,
                    nanos == (micros % 1_000_000) * 1000,
            ;
        }
        Duration { secs, nanos }
    }

    /// The whole seconds of the duration.
    pub fn as_secs(&self) -> (r: u64)
        ensures
            r == self@ / 1_000_000_000,
    {
        proof {
            use_type_invariant(self);
            lemma_parts_of_view(self.secs, self.nanos);
        }
        self.secs
    }

    /// Whether the duration's whole microseconds, rounded down, fit the
    /// wire's 64-bit integer. This is the bound instants need.
    pub fn fits_wire(&self) -> (r: bool)
        ensures
            r == (self@ / 1000 <= u64::MAX),
    {
        proof {
            use_type_invariant(self);
            lemma_parts_of_view(self.secs, self.nanos);
        }
        let micros: u128 = self.secs as u128 * 1_000_000 + (self.nanos / 1000) as u128;
        proof {
            assert(micros == self@ / 1000) by (nonlinear_arith)
                requires
                    micros == (self@ / 1_000_000_000) * 1_000_000 + (self@ % 1_000_000_000) / 1000,
            ;
        }
        micros <= u64::MAX as u128
    }

    /// Whether the duration's whole microseconds, rounded up, fit the
    /// wire's 64-bit integer. This is the bound durations need.
    pub fn fits_wire_up(&self) -> (r: bool)
        ensures
            r == ((self@ + 999) / 1000 <= u64::MAX),
    {
        proof {
            use_type_invariant(self);
            lemma_parts_of_view(self.secs, self.nanos);
        }
        let micros: u128 = self.secs as u128 * 1_000_000 + ((self.nanos + 999) / 1000) as u128;
        proof {
            assert(micros == (self@ + 999) / 1000) by (nonlinear_arith)
                requires
                    micros == (self@ / 1_000_000_000) * 1_000_000 + ((self@ % 1_000_000_000)
                        + 999) / 1000,
            ;
        }
        micros <= u64::MAX as u128
    }

    /// The sub-second part of the duration, in nanoseconds.
    pub fn subsec_nanos(&self) -> (r: u32)
        ensures
            r == self@ % 1_000_000_000,
    {
        proof {
            use_type_invariant(self);
            lemma_parts_of_view(self.secs, self.nanos);
        }
        self.nanos
    }

}

/// Seconds and nanosecond remainder are recoverable from the total.
proof fn lemma_parts_of_view(secs: u64, nanos: u32)
    requires
        nanos < 1_000_000_000,
    ensures
        (secs * 1_000_000_000 + nanos) as nat / 1_000_000_000 == secs,
        (secs * 1_000_000_000 + nanos) as nat % 1_000_000_000 == nanos,
{
    assert((secs * 1_000_000_000 + nanos) / 1_000_000_000 == secs && (secs * 1_000_000_000
        + nanos) % 1_000_000_000 == nanos) by (nonlinear_arith)
        requires
            nanos < 1_000_000_000,
    ;
}

/// A wall-clock instant, held as the duration since the Unix epoch.
/// Instants before the epoch cannot be represented; the clock hands such
/// a reading in as the epoch itself. The view is nanoseconds since the
/// epoch.
#[derive(Debug, Copy, Clone, PartialEq, Eq)]
pub struct Timestamp {
    since_epoch: Duration,
}

impl View for Timestamp {
    type V = nat;

    closed spec fn view(&self) -> nat {
        self.since_epoch@
    }
}

impl Timestamp {
    /// Builds an instant from its duration since the epoch.
    pub fn new(since_epoch: Duration) -> (r: Timestamp)
        ensures
            r@ == since_epoch@,
    {
        Timestamp { since_epoch }
    }

    /// The duration since the epoch.
    pub fn since_epoch(&self) -> (r: Duration)
        ensures
            r@ == self@,
    {
        self.since_epoch
    }
}

} // verus!
