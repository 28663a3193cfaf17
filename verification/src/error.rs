//! What can go wrong in the allocation store.

use vstd::prelude::*;
use vstd::string::*;
use crate::record::AllocUid;
use crate::text::{decimal, push_decimal};

verus! {

/// Why the store turned a request down.
#[derive(Clone, Copy, Debug, PartialEq, Eq, Structural)]
pub enum DataError {
    /// A new allocation arrives dead, and its identifier is already
    /// registered as dead at the timestamp of the batch.
    DeadUidCollision(AllocUid),
    /// A new allocation carries an identifier that the store already holds.
    UidCollision(AllocUid),
    /// A death is reported for an allocation that is already dead.
    DeathCollision(AllocUid),
    /// A death is reported for an allocation that the store does not hold.
    UnknownDeath(AllocUid),
    /// An allocation is asked for that the store does not hold.
    UnknownUid(AllocUid),
    /// The start time is asked for before any run was registered.
    NoStartTime,
    /// The allocations are not in ascending order of their time of creation.
    TocOrder,
}

impl DataError {
    /// Two allocations claim one identifier, or one allocation dies twice.
    pub open spec fn spec_is_collision(self) -> bool {
        self is DeadUidCollision || self is UidCollision || self is DeathCollision
    }

    /// Something was asked of an allocation, or of a run, that is not there.
    pub open spec fn spec_is_lookup(self) -> bool {
        self is UnknownDeath || self is UnknownUid || self is NoStartTime
    }

    /// An internal invariant of the store does not hold.
    pub open spec fn spec_is_invariant(self) -> bool {
        self is TocOrder
    }

    #[verifier::when_used_as_spec(spec_is_collision)]
    pub fn is_collision(self) -> (res: bool)
        ensures
            res == self.spec_is_collision(),
    {
        match self {
            DataError::DeadUidCollision(_) | DataError::UidCollision(_) | DataError::DeathCollision(
                _,
            ) => true,
            _ => false,
        }
    }

    #[verifier::when_used_as_spec(spec_is_lookup)]
    pub fn is_lookup(self) -> (res: bool)
        ensures
            res == self.spec_is_lookup(),
    {
        match self {
            DataError::UnknownDeath(_) | DataError::UnknownUid(_) | DataError::NoStartTime => true,
            _ => false,
        }
    }

    #[verifier::when_used_as_spec(spec_is_invariant)]
    pub fn is_invariant(self) -> (res: bool)
        ensures
            res == self.spec_is_invariant(),
    {
        match self {
            DataError::TocOrder => true,
            _ => false,
        }
    }
}

impl DataError {
    /// The error in words.
    pub open spec fn spec_message(self) -> Seq<char> {
        match self {
            DataError::DeadUidCollision(uid) => "allocation UID collision (1): two allocations have UID #"@
                + decimal(uid.id as nat),
            DataError::UidCollision(uid) => "allocation UID collision (2): two allocations have UID #"@
                + decimal(uid.id as nat),
            DataError::DeathCollision(uid) => "allocation UID collision (3): two allocations have UID #"@
                + decimal(uid.id as nat),
            DataError::UnknownDeath(uid) => "cannot register death for unknown allocation UID #"@
                + decimal(uid.id as nat),
            DataError::UnknownUid(uid) => "unknown allocation UID #"@ + decimal(uid.id as nat),
            DataError::NoStartTime => "cannot access start time"@,
            DataError::TocOrder => "[data::invariants::uid_order_is_toc_order] invariant does not hold"@,
        }
    }

    /// The error in words, as it is logged.
    pub fn message(self) -> (res: String)
        ensures
            res@ == self.spec_message(),
    {
        match self {
            DataError::DeadUidCollision(uid) => uid_message(
                "allocation UID collision (1): two allocations have UID #",
                uid,
            ),
            DataError::UidCollision(uid) => uid_message(
                "allocation UID collision (2): two allocations have UID #",
                uid,
            ),
            DataError::DeathCollision(uid) => uid_message(
                "allocation UID collision (3): two allocations have UID #",
                uid,
            ),
            DataError::UnknownDeath(uid) => uid_message(
                "cannot register death for unknown allocation UID #",
                uid,
            ),
            DataError::UnknownUid(uid) => uid_message("unknown allocation UID #", uid),
            DataError::NoStartTime => String::from_str("cannot access start time"),
            DataError::TocOrder => String::from_str(
                "[data::invariants::uid_order_is_toc_order] invariant does not hold",
            ),
        }
    }
}

/// `prefix`, then the number of `uid`.
fn uid_message(prefix: &str, uid: AllocUid) -> (res: String)
    ensures
        res@ == prefix@ + decimal(uid.id as nat),
{
    let mut res = String::from_str(prefix);
    push_decimal(&mut res, uid.id);
    res
}

} // verus!
