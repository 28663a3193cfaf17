//! Allocation records and the batches that report them.

use vstd::prelude::*;
use crate::time::{Date, SinceStart};

verus! {

/// Unique identifier of one allocation.
#[derive(Clone, Copy, Debug, PartialEq, Eq, Structural)]
pub struct AllocUid {
    pub id: u64,
}

impl AllocUid {
    pub fn new(id: u64) -> (res: Self)
        ensures
            res.id == id,
    {
        AllocUid { id }
    }
}

/// One allocation: who it is, how big it is, when it was made and when it died.
#[derive(Clone, Copy, Debug, PartialEq, Eq)]
pub struct Alloc {
    pub uid: AllocUid,
    /// Size of the allocation, in machine words.
    pub size: u64,
    /// Time of creation.
    pub toc: SinceStart,
    /// Time of death, absent while the allocation is live.
    pub tod: Option<SinceStart>,
}

impl Alloc {
    pub fn new(uid: AllocUid, size: u64, toc: SinceStart, tod: Option<SinceStart>) -> (res: Self)
        ensures
            res == (Alloc { uid, size, toc, tod }),
    {
        Alloc { uid, size, toc, tod }
    }

    /// The record as a batch stamped `time` stores it: created at `time`, and
    /// dead at `time` if it came with a time of death.
    pub open spec fn stamped(self, time: SinceStart) -> Alloc {
        Alloc {
            uid: self.uid,
            size: self.size,
            toc: time,
            tod: if self.tod is Some { Some(time) } else { None },
        }
    }

    /// The record once its death at `time` is known.
    pub open spec fn killed(self, time: SinceStart) -> Alloc {
        Alloc { uid: self.uid, size: self.size, toc: self.toc, tod: Some(time) }
    }

    /// The record as it was before its death was known.
    pub open spec fn revived(self) -> Alloc {
        Alloc { uid: self.uid, size: self.size, toc: self.toc, tod: None }
    }

    /// Overwrites the embedded timestamps with `time`.
    pub fn stamp(&mut self, time: SinceStart)
        ensures
            *final(self) == old(self).stamped(time),
    {
        self.toc = time;
        if self.tod.is_some() {
            self.tod = Some(time);
        }
    }

    /// Records the death of a live allocation; a dead one is left as it is.
    pub fn set_tod(&mut self, time: SinceStart) -> (res: bool)
        ensures
            res == (old(self).tod is None),
            res ==> *final(self) == old(self).killed(time),
            !res ==> *final(self) == *old(self),
    {
        if self.tod.is_some() {
            false
        } else {
            self.tod = Some(time);
            true
        }
    }
}

/// What is known of a profiling run when it starts.
#[derive(Clone, Copy, Debug, PartialEq, Eq, Structural)]
pub struct AllocInit {
    pub start_time: Date,
}

/// One batch of news: allocations seen for the first time and allocations
/// that died, all stamped with the time of the batch.
#[derive(Debug)]
pub struct AllocDiff {
    pub time: SinceStart,
    pub new: Vec<Alloc>,
    /// Each death comes with an approximate time, which the batch's own overrides.
    pub dead: Vec<(AllocUid, SinceStart)>,
}

} // verus!
