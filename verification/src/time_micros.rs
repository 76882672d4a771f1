//! The wire form of wall-clock instants: whole microseconds since the
//! Unix epoch. Unlike durations there is no floor: an instant at the
//! epoch — which is also how a clock reading from before the epoch comes
//! in — goes on the wire as 0.

use crate::time::{Duration, Timestamp};
use vstd::prelude::*;

verus! {

/// The number an instant `nanos` nanoseconds after the epoch becomes on
/// the wire: its whole microseconds.
pub open spec fn time_wire_of(nanos: nat) -> nat {
    nanos / 1000
}

/// Converts an instant to its wire form.
pub fn to_wire(time: &Timestamp) -> (r: u64)
    requires
        time@ / 1000 <= u64::MAX,
    ensures
        r == time_wire_of(time@),
{
    let d = time.since_epoch();
    let secs = d.as_secs();
    let nanos = d.subsec_nanos();
    proof {
        assert(secs * 1_000_000 + nanos / 1000 == d@ / 1000) by (nonlinear_arith)
            requires
                secs == d@ / 1_000_000_000,
                nanos == d@ % 1_000_000_000,
        ;
    }
    secs * 1_000_000 + (nanos / 1000) as u64
}

/// Reads a wire number back as an instant that many microseconds after
/// the epoch.
pub fn from_wire(time: u64) -> (r: Timestamp)
    ensures
        r@ == time * 1000,
{
    Timestamp::new(Duration::from_micros(time))
}

/// The wire form of instants of a whole number of microseconds — all
/// that `from_wire` makes — is exact, down to the epoch itself.
pub proof fn lemma_time_wire_round_trip(micros: u64)
    ensures
        time_wire_of((micros * 1000) as nat) == micros,
{
    assert((micros * 1000) / 1000 == micros) by (nonlinear_arith);
}

} // verus!
