//! The simulation's virtual clock: absolute timestamps with a well-known
//! origin ("simulation start"), totally ordered, and convertible to the
//! duration-since-start representation used at the host boundary.

use vstd::prelude::*;

verus! {

/// An absolute point on the simulation's virtual clock, measured in
/// nanoseconds since the simulation start. Timestamps are totally ordered
/// and copied freely.
#[derive(Clone, Copy, PartialEq, Eq, Structural, Debug)]
pub struct EmulatedTime {
    pub nanos: u64,
}

/// The boundary's sentinel for "no next event": no valid simulation time
/// reaches this value.
pub const SIMTIME_INVALID: u64 = u64::MAX;

impl EmulatedTime {
    /// The origin of the virtual clock, before any event has been released.
    pub fn simulation_start() -> (t: Self)
        ensures
            t.nanos == 0,
    {
        EmulatedTime { nanos: 0 }
    }

    /// Build a timestamp from a duration since simulation start.
    pub fn from_abs_simtime(nanos: u64) -> (t: Self)
        ensures
            t.nanos == nanos,
    {
        EmulatedTime { nanos }
    }

    /// The duration since simulation start, the representation handed across
    /// the host boundary.
    pub fn to_abs_simtime(&self) -> (r: u64)
        ensures
            r == self.nanos,
    {
        self.nanos
    }
}

/// Encode an optional next-event time in the boundary's duration-since-start
/// representation, with [`SIMTIME_INVALID`] standing for "no next event".
pub fn to_c_simtime(t: Option<EmulatedTime>) -> (r: u64)
    requires
        t matches Some(x) ==> x.nanos < SIMTIME_INVALID,
    ensures
        t is None <==> r == SIMTIME_INVALID,
        t matches Some(x) ==> r == x.nanos,
{
    match t {
        None => SIMTIME_INVALID,
        Some(x) => x.nanos,
    }
}

} // verus!
