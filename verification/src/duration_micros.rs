//! The wire form of durations: integer microseconds, rounded up, with a
//! floor of one.

use crate::time::Duration;
use vstd::prelude::*;

verus! {

/// The number a duration of `nanos` nanoseconds becomes on the wire:
/// whole microseconds rounded up, raised to a floor of 1 because 0
/// would denote an absent duration.
pub open spec fn wire_of(nanos: nat) -> nat {
    if (nanos + 999) / 1000 == 0 {
        1
    } else {
        (nanos + 999) / 1000
    }
}

/// Durations on the wire are at least one microsecond.
pub proof fn lemma_wire_at_least_one(nanos: nat)
    ensures
        wire_of(nanos) >= 1,
{
}

/// Converts a duration to its wire form.
pub fn to_wire(duration: &Duration) -> (r: u64)
    requires
        (duration@ + 999) / 1000 <= u64::MAX,
    ensures
        r == wire_of(duration@),
        r >= 1,
{
    let secs = duration.as_secs();
    let nanos = duration.subsec_nanos();
    proof {
        assert(secs * 1_000_000 + (nanos + 999) / 1000 == (duration@ + 999) / 1000)
            by (nonlinear_arith)
            requires
                secs == duration@ / 1_000_000_000,
                nanos == duration@ % 1_000_000_000,
        ;
    }
    let micros = secs * 1_000_000 + ((nanos + 999) / 1000) as u64;
    if micros == 0 {
        1
    } else {
        micros
    }
}

/// Reads a wire number back as a duration of that many microseconds.
pub fn from_wire(duration: u64) -> (r: Duration)
    ensures
        r@ == duration * 1000,
{
    Duration::from_micros(duration)
}

/// For durations of a whole number of microseconds, at least one, the
/// wire form is exact and reading it back restores the duration.
pub proof fn lemma_duration_wire_round_trip(micros: u64)
    requires
        micros >= 1,
    ensures
        wire_of((micros * 1000) as nat) == micros,
{
    assert((micros * 1000 + 999) / 1000 == micros) by (nonlinear_arith);
}

} // verus!
