//! The store as a sequence of allocations: what each operation makes of it.

use vstd::prelude::*;
use crate::error::DataError;
use crate::record::{Alloc, AllocDiff, AllocInit, AllocUid};
use crate::time::SinceStart;

verus! {

/// Some allocation of `allocs` has the identifier `uid`.
pub open spec fn has_uid(allocs: Seq<Alloc>, uid: AllocUid) -> bool {
    exists|i: int| 0 <= i < allocs.len() && (#[trigger] allocs[i]).uid == uid
}

/// Where the allocation `uid` stands in `allocs`.
pub open spec fn index_of_uid(allocs: Seq<Alloc>, uid: AllocUid) -> int {
    choose|i: int| 0 <= i < allocs.len() && (#[trigger] allocs[i]).uid == uid
}

/// No two allocations share an identifier.
pub open spec fn uids_unique(allocs: Seq<Alloc>) -> bool {
    forall|i: int, j: int|
        0 <= i < j < allocs.len() ==> (#[trigger] allocs[i]).uid != (#[trigger] allocs[j]).uid
}

/// The allocations stand in ascending order of their time of creation.
pub open spec fn toc_ordered(allocs: Seq<Alloc>) -> bool {
    forall|i: int, j: int|
        0 <= i <= j < allocs.len() ==> (#[trigger] allocs[i]).toc.nanos <= (
        #[trigger] allocs[j]).toc.nanos
}

/// The allocation `uid` is dead, and died at `time`.
pub open spec fn died_at(allocs: Seq<Alloc>, uid: AllocUid, time: SinceStart) -> bool {
    exists|i: int|
        0 <= i < allocs.len() && (#[trigger] allocs[i]).uid == uid && allocs[i].tod == Some(time)
}

/// The allocations that died at `time`.
pub open spec fn dead_at(allocs: Seq<Alloc>, time: SinceStart) -> Set<AllocUid> {
    Set::new(|uid: AllocUid| died_at(allocs, uid, time))
}

/// Some allocation died at `time`.
pub open spec fn has_death_at(allocs: Seq<Alloc>, time: SinceStart) -> bool {
    exists|i: int| 0 <= i < allocs.len() && (#[trigger] allocs[i]).tod == Some(time)
}

/// The allocations after one new allocation of a batch stamped `time`, or
/// why the allocation is turned down.
pub open spec fn spec_insert_new(allocs: Seq<Alloc>, alloc: Alloc, time: SinceStart) -> Result<
    Seq<Alloc>,
    DataError,
> {
    if alloc.tod is Some && died_at(allocs, alloc.uid, time) {
        Err(DataError::DeadUidCollision(alloc.uid))
    } else if has_uid(allocs, alloc.uid) {
        Err(DataError::UidCollision(alloc.uid))
    } else {
        Ok(allocs.push(alloc.stamped(time)))
    }
}

/// The allocations after the death of `uid` at `time`, or why the death is
/// turned down.
pub open spec fn spec_register_death(allocs: Seq<Alloc>, uid: AllocUid, time: SinceStart) -> Result<
    Seq<Alloc>,
    DataError,
> {
    if !has_uid(allocs, uid) {
        Err(DataError::UnknownDeath(uid))
    } else {
        let i = index_of_uid(allocs, uid);
        if allocs[i].tod is Some {
            Err(DataError::DeathCollision(uid))
        } else {
            Ok(allocs.update(i, allocs[i].killed(time)))
        }
    }
}

/// The allocations after the first `n` new allocations of a batch, taken in
/// order; the first one that is turned down decides.
pub open spec fn spec_insert_all(
    allocs: Seq<Alloc>,
    news: Seq<Alloc>,
    time: SinceStart,
    n: nat,
) -> Result<Seq<Alloc>, DataError>
    decreases n,
{
    if n == 0 {
        Ok(allocs)
    } else {
        match spec_insert_all(allocs, news, time, (n - 1) as nat) {
            Ok(so_far) => spec_insert_new(so_far, news[n - 1], time),
            Err(e) => Err(e),
        }
    }
}

/// The allocations after the first `n` deaths of a batch, taken in order;
/// the first one that is turned down decides.
pub open spec fn spec_register_all(
    allocs: Seq<Alloc>,
    dead: Seq<(AllocUid, SinceStart)>,
    time: SinceStart,
    n: nat,
) -> Result<Seq<Alloc>, DataError>
    decreases n,
{
    if n == 0 {
        Ok(allocs)
    } else {
        match spec_register_all(allocs, dead, time, (n - 1) as nat) {
            Ok(so_far) => spec_register_death(so_far, dead[n - 1].0, time),
            Err(e) => Err(e),
        }
    }
}

/// The allocations after a whole batch: its new allocations, then its
/// deaths, then the check that the order of creation still holds.
pub open spec fn spec_add_diff(allocs: Seq<Alloc>, diff: AllocDiff) -> Result<
    Seq<Alloc>,
    DataError,
> {
    match spec_insert_all(allocs, diff.new@, diff.time, diff.new@.len()) {
        Err(e) => Err(e),
        Ok(inserted) => match spec_register_all(inserted, diff.dead@, diff.time, diff.dead@.len()) {
            Err(e) => Err(e),
            Ok(registered) => if toc_ordered(registered) {
                Ok(registered)
            } else {
                Err(DataError::TocOrder)
            },
        },
    }
}

/// The allocations that a walk from the latest one back finds before it
/// meets one that was created at `time` or earlier: latest first.
pub open spec fn spec_new_since(allocs: Seq<Alloc>, time: SinceStart) -> Seq<Alloc>
    decreases allocs.len(),
{
    if allocs.len() == 0 || allocs.last().toc.nanos <= time.nanos {
        Seq::empty()
    } else {
        seq![allocs.last()] + spec_new_since(allocs.drop_last(), time)
    }
}

/// The text of each string of `strings`.
pub open spec fn texts(strings: Seq<String>) -> Seq<Seq<char>> {
    strings.map_values(|s: String| s@)
}

/// What the store holds.
pub struct DataView {
    /// The run that is being profiled, once one was registered.
    pub init: Option<AllocInit>,
    /// The allocations, in the order in which they were inserted.
    pub allocs: Seq<Alloc>,
    /// The errors recorded so far, oldest first.
    pub errors: Seq<Seq<char>>,
    /// The timestamp of the latest batch that was applied.
    pub current_time: SinceStart,
}

/// Where identifiers are unique, an allocation is found where it stands.
pub proof fn lemma_index_of_uid(allocs: Seq<Alloc>, i: int)
    requires
        uids_unique(allocs),
        0 <= i < allocs.len(),
    ensures
        has_uid(allocs, allocs[i].uid),
        index_of_uid(allocs, allocs[i].uid) == i,
{
    let k = index_of_uid(allocs, allocs[i].uid);
    if k < i {
        assert(allocs[k].uid != allocs[i].uid);
    } else if i < k {
        assert(allocs[i].uid != allocs[k].uid);
    }
}

/// What one more allocation does to the set of those that died at `time`.
pub proof fn lemma_dead_at_push(allocs: Seq<Alloc>, alloc: Alloc, time: SinceStart)
    ensures
        dead_at(allocs.push(alloc), time) == if alloc.tod == Some(time) {
            dead_at(allocs, time).insert(alloc.uid)
        } else {
            dead_at(allocs, time)
        },
{
    let after = allocs.push(alloc);
    let expected = if alloc.tod == Some(time) {
        dead_at(allocs, time).insert(alloc.uid)
    } else {
        dead_at(allocs, time)
    };
    assert forall|uid: AllocUid| dead_at(after, time).contains(uid) == expected.contains(uid) by {
        if died_at(after, uid, time) {
            let i = choose|i: int|
                0 <= i < after.len() && (#[trigger] after[i]).uid == uid && after[i].tod == Some(
                    time,
                );
            if i < allocs.len() {
                assert(allocs[i] == after[i]);
            }
        }
        if expected.contains(uid) {
            if died_at(allocs, uid, time) {
                let i = choose|i: int|
                    0 <= i < allocs.len() && (#[trigger] allocs[i]).uid == uid && allocs[i].tod
                        == Some(time);
                assert(after[i] == allocs[i]);
            } else {
                assert(after[allocs.len() as int] == alloc);
            }
        }
    }
    assert(dead_at(after, time) =~= expected);
}

/// What the death of a live allocation at `death` does to the set of those
/// that died at `time`.
pub proof fn lemma_dead_at_kill(allocs: Seq<Alloc>, i: int, death: SinceStart, time: SinceStart)
    requires
        uids_unique(allocs),
        0 <= i < allocs.len(),
        allocs[i].tod is None,
    ensures
        dead_at(allocs.update(i, allocs[i].killed(death)), time) == if time == death {
            dead_at(allocs, time).insert(allocs[i].uid)
        } else {
            dead_at(allocs, time)
        },
{
    let after = allocs.update(i, allocs[i].killed(death));
    let expected = if time == death {
        dead_at(allocs, time).insert(allocs[i].uid)
    } else {
        dead_at(allocs, time)
    };
    assert forall|uid: AllocUid| dead_at(after, time).contains(uid) == expected.contains(uid) by {
        if died_at(after, uid, time) {
            let k = choose|k: int|
                0 <= k < after.len() && (#[trigger] after[k]).uid == uid && after[k].tod == Some(
                    time,
                );
            if k != i {
                assert(allocs[k] == after[k]);
            }
        }
        if expected.contains(uid) {
            if died_at(allocs, uid, time) {
                let k = choose|k: int|
                    0 <= k < allocs.len() && (#[trigger] allocs[k]).uid == uid && allocs[k].tod
                        == Some(time);
                assert(after[k] == allocs[k]);
            } else {
                assert(after[i].uid == uid);
            }
        }
    }
    assert(dead_at(after, time) =~= expected);
}

/// What taking back the latest allocation does to the set of those that
/// died at `time`.
pub proof fn lemma_dead_at_drop_last(allocs: Seq<Alloc>, time: SinceStart)
    requires
        uids_unique(allocs),
        allocs.len() > 0,
    ensures
        dead_at(allocs.drop_last(), time) == if allocs.last().tod == Some(time) {
            dead_at(allocs, time).remove(allocs.last().uid)
        } else {
            dead_at(allocs, time)
        },
{
    let after = allocs.drop_last();
    let last = allocs.len() - 1;
    let expected = if allocs.last().tod == Some(time) {
        dead_at(allocs, time).remove(allocs.last().uid)
    } else {
        dead_at(allocs, time)
    };
    assert forall|uid: AllocUid| dead_at(after, time).contains(uid) == expected.contains(uid) by {
        if died_at(after, uid, time) {
            let k = choose|k: int|
                0 <= k < after.len() && (#[trigger] after[k]).uid == uid && after[k].tod == Some(
                    time,
                );
            assert(allocs[k] == after[k]);
            assert(allocs[k].uid != allocs[last].uid);
        }
        if expected.contains(uid) {
            let k = choose|k: int|
                0 <= k < allocs.len() && (#[trigger] allocs[k]).uid == uid && allocs[k].tod
                    == Some(time);
            if k < last {
                assert(after[k] == allocs[k]);
            }
        }
    }
    assert(dead_at(after, time) =~= expected);
}

/// What taking back the death of an allocation does to the set of those
/// that died at `time`.
pub proof fn lemma_dead_at_revive(allocs: Seq<Alloc>, i: int, time: SinceStart)
    requires
        uids_unique(allocs),
        0 <= i < allocs.len(),
    ensures
        dead_at(allocs.update(i, allocs[i].revived()), time) == if allocs[i].tod == Some(time) {
            dead_at(allocs, time).remove(allocs[i].uid)
        } else {
            dead_at(allocs, time)
        },
{
    let after = allocs.update(i, allocs[i].revived());
    let expected = if allocs[i].tod == Some(time) {
        dead_at(allocs, time).remove(allocs[i].uid)
    } else {
        dead_at(allocs, time)
    };
    assert forall|uid: AllocUid| dead_at(after, time).contains(uid) == expected.contains(uid) by {
        if died_at(after, uid, time) {
            let k = choose|k: int|
                0 <= k < after.len() && (#[trigger] after[k]).uid == uid && after[k].tod == Some(
                    time,
                );
            assert(k != i);
            assert(allocs[k] == after[k]);
            if k < i {
                assert(allocs[k].uid != allocs[i].uid);
            } else {
                assert(allocs[i].uid != allocs[k].uid);
            }
        }
        if expected.contains(uid) {
            let k = choose|k: int|
                0 <= k < allocs.len() && (#[trigger] allocs[k]).uid == uid && allocs[k].tod
                    == Some(time);
            if k != i {
                assert(after[k] == allocs[k]);
            }
        }
    }
    assert(dead_at(after, time) =~= expected);
}

/// The walk back from the latest allocation finds the latest allocations,
/// latest first, all of them created strictly after `time`.
pub proof fn lemma_new_since_is_a_tail(allocs: Seq<Alloc>, time: SinceStart)
    ensures
        spec_new_since(allocs, time).len() <= allocs.len(),
        forall|j: int|
            0 <= j < spec_new_since(allocs, time).len() ==> #[trigger] spec_new_since(
                allocs,
                time,
            )[j] == allocs[allocs.len() - 1 - j],
        forall|j: int|
            0 <= j < spec_new_since(allocs, time).len() ==> (#[trigger] spec_new_since(
                allocs,
                time,
            )[j]).toc.nanos > time.nanos,
        spec_new_since(allocs, time).len() < allocs.len() ==> allocs[allocs.len() - 1
            - spec_new_since(allocs, time).len()].toc.nanos <= time.nanos,
    decreases allocs.len(),
{
    let found = spec_new_since(allocs, time);
    if allocs.len() > 0 && allocs.last().toc.nanos > time.nanos {
        let front = allocs.drop_last();
        lemma_new_since_is_a_tail(front, time);
        let rest = spec_new_since(front, time);
        assert(found =~= seq![allocs.last()] + rest);
        assert forall|j: int| 0 <= j < found.len() implies #[trigger] found[j] == allocs[allocs.len()
            - 1 - j] && found[j].toc.nanos > time.nanos by {
            if j > 0 {
                assert(found[j] == rest[j - 1]);
                assert(rest[j - 1] == front[front.len() - 1 - (j - 1)]);
            }
        }
        if found.len() < allocs.len() {
            assert(front[front.len() - 1 - rest.len()] == allocs[allocs.len() - 1 - found.len()]);
        }
    }
}

/// Where the allocations stand in ascending order of their time of
/// creation, the walk back from the latest one finds exactly those created
/// strictly after `time`.
pub proof fn lemma_new_since_is_exact(allocs: Seq<Alloc>, time: SinceStart)
    requires
        toc_ordered(allocs),
    ensures
        forall|i: int|
            0 <= i < allocs.len() ==> ((#[trigger] allocs[i]).toc.nanos > time.nanos <==> i
                >= allocs.len() - spec_new_since(allocs, time).len()),
{
    lemma_new_since_is_a_tail(allocs, time);
    let found = spec_new_since(allocs, time);
    assert forall|i: int| 0 <= i < allocs.len() implies ((#[trigger] allocs[i]).toc.nanos
        > time.nanos <==> i >= allocs.len() - found.len()) by {
        if i >= allocs.len() - found.len() {
            assert(found[allocs.len() - 1 - i] == allocs[i]);
        } else {
            assert(allocs[i].toc.nanos <= allocs[allocs.len() - 1 - found.len()].toc.nanos);
        }
    }
}

/// Once a new allocation is turned down, so is the batch, whatever follows.
pub proof fn lemma_insert_all_fails(
    allocs: Seq<Alloc>,
    news: Seq<Alloc>,
    time: SinceStart,
    n: nat,
    m: nat,
)
    requires
        n <= m,
        spec_insert_all(allocs, news, time, n) is Err,
    ensures
        spec_insert_all(allocs, news, time, m) == spec_insert_all(allocs, news, time, n),
    decreases m,
{
    if n < m {
        lemma_insert_all_fails(allocs, news, time, n, (m - 1) as nat);
    }
}

/// Once a death is turned down, so is the batch, whatever follows.
pub proof fn lemma_register_all_fails(
    allocs: Seq<Alloc>,
    dead: Seq<(AllocUid, SinceStart)>,
    time: SinceStart,
    n: nat,
    m: nat,
)
    requires
        n <= m,
        spec_register_all(allocs, dead, time, n) is Err,
    ensures
        spec_register_all(allocs, dead, time, m) == spec_register_all(allocs, dead, time, n),
    decreases m,
{
    if n < m {
        lemma_register_all_fails(allocs, dead, time, n, (m - 1) as nat);
    }
}

} // verus!
