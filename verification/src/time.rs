//! Timestamps of a profiling run.

use vstd::prelude::*;

verus! {

/// A point in time, counted in nanoseconds from the start of the profiling run.
#[derive(Clone, Copy, Debug, PartialEq, Eq, Structural)]
pub struct SinceStart {
    pub nanos: u64,
}

impl SinceStart {
    /// The start of the run.
    pub fn zero() -> (res: Self)
        ensures
            res.nanos == 0,
    {
        SinceStart { nanos: 0 }
    }

    /// The timestamp that lies `nanos` nanoseconds after the start of the run.
    pub fn from_nanos(nanos: u64) -> (res: Self)
        ensures
            res.nanos == nanos,
    {
        SinceStart { nanos }
    }

    /// Nanoseconds since the start of the run.
    pub fn as_nanos(&self) -> (res: u64)
        ensures
            res == self.nanos,
    {
        self.nanos
    }
}

/// A calendar date: seconds and nanoseconds since the Unix epoch.
#[derive(Clone, Copy, Debug, PartialEq, Eq, Structural)]
pub struct Date {
    pub secs: u64,
    pub nanos: u32,
}

} // verus!
