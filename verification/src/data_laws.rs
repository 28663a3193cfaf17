//! What holds of the store whatever the batches are.

use vstd::prelude::*;
use crate::model::{
    has_uid, index_of_uid, lemma_index_of_uid, lemma_insert_all_fails, lemma_new_since_is_a_tail,
    lemma_new_since_is_exact, lemma_register_all_fails,
    spec_add_diff, spec_insert_all, spec_insert_new, spec_new_since, spec_register_all,
    spec_register_death, toc_ordered, uids_unique,
};
use crate::error::DataError;
use crate::record::{Alloc, AllocDiff, AllocUid};
use crate::time::SinceStart;

verus! {

/// Some death of `dead` among the first `n` is that of `uid`.
pub open spec fn dies_in(dead: Seq<(AllocUid, SinceStart)>, n: nat, uid: AllocUid) -> bool {
    exists|k: int| 0 <= k < n && k < dead.len() && (#[trigger] dead[k]).0 == uid
}

/// The new allocations of a batch that is accepted so far are appended, each
/// stamped with the time of the batch, and nothing else changes; a batch that
/// is turned down at a new allocation is turned down for a collision.
pub proof fn lemma_insert_all_shape(
    allocs: Seq<Alloc>,
    news: Seq<Alloc>,
    time: SinceStart,
    n: nat,
)
    requires
        n <= news.len(),
    ensures
        match spec_insert_all(allocs, news, time, n) {
            Ok(after) => {
                &&& after.len() == allocs.len() + n
                &&& forall|i: int| 0 <= i < allocs.len() ==> #[trigger] after[i] == allocs[i]
                &&& forall|j: int|
                    0 <= j < n ==> #[trigger] after[allocs.len() + j] == news[j].stamped(time)
                &&& uids_unique(allocs) ==> uids_unique(after)
            },
            Err(e) => e.is_collision(),
        },
    decreases n,
{
    if n > 0 {
        lemma_insert_all_shape(allocs, news, time, (n - 1) as nat);
        match spec_insert_all(allocs, news, time, (n - 1) as nat) {
            Ok(so_far) => {
                match spec_insert_new(so_far, news[n - 1], time) {
                    Ok(after) => {
                        assert forall|j: int| 0 <= j < n implies #[trigger] after[allocs.len() + j]
                            == news[j].stamped(time) by {
                            if j < n - 1 {
                                assert(after[allocs.len() + j] == so_far[allocs.len() + j]);
                            }
                        }
                        if uids_unique(allocs) {
                            assert forall|i: int, j: int| 0 <= i < j < after.len() implies (
                            #[trigger] after[i]).uid != (#[trigger] after[j]).uid by {
                                if j < so_far.len() {
                                    assert(so_far[i].uid != so_far[j].uid);
                                } else {
                                    assert(so_far[i].uid == after[i].uid);
                                }
                            }
                        }
                    },
                    Err(e) => {},
                }
            },
            Err(e) => {},
        }
    }
}

/// The deaths of a batch that is accepted so far mark exactly the
/// allocations they name, each live until then, as dead at the time of the
/// batch; a batch that is turned down at a death is turned down because the
/// allocation is already dead or is not known.
pub proof fn lemma_register_all_shape(
    allocs: Seq<Alloc>,
    dead: Seq<(AllocUid, SinceStart)>,
    time: SinceStart,
    n: nat,
)
    requires
        uids_unique(allocs),
        n <= dead.len(),
    ensures
        match spec_register_all(allocs, dead, time, n) {
            Ok(after) => {
                &&& after.len() == allocs.len()
                &&& uids_unique(after)
                &&& forall|i: int|
                    0 <= i < allocs.len() ==> #[trigger] after[i] == if dies_in(
                        dead,
                        n,
                        allocs[i].uid,
                    ) {
                        allocs[i].killed(time)
                    } else {
                        allocs[i]
                    }
                &&& forall|i: int|
                    0 <= i < allocs.len() && dies_in(dead, n, (#[trigger] allocs[i]).uid)
                        ==> allocs[i].tod is None
                &&& forall|k: int| 0 <= k < n ==> has_uid(allocs, (#[trigger] dead[k]).0)
            },
            Err(e) => e is DeathCollision || e is UnknownDeath,
        },
    decreases n,
{
    if n > 0 {
        let m = (n - 1) as nat;
        lemma_register_all_shape(allocs, dead, time, m);
        match spec_register_all(allocs, dead, time, m) {
            Ok(so_far) => {
                let uid = dead[n - 1].0;
                match spec_register_death(so_far, uid, time) {
                    Ok(after) => {
                        let at = index_of_uid(so_far, uid);
                        assert(so_far[at].uid == uid);
                        assert(allocs[at].uid == uid);
                        assert(!dies_in(dead, m, uid)) by {
                            if dies_in(dead, m, uid) {
                                assert(so_far[at] == allocs[at].killed(time));
                            }
                        }
                        assert forall|i: int| 0 <= i < allocs.len() implies #[trigger] after[i]
                            == if dies_in(dead, n, allocs[i].uid) {
                            allocs[i].killed(time)
                        } else {
                            allocs[i]
                        } by {
                            if i == at {
                                assert(dies_in(dead, n, allocs[i].uid));
                            } else {
                                assert(after[i] == so_far[i]);
                                assert(allocs[i].uid != uid) by {
                                    if i < at {
                                        assert(allocs[i].uid != allocs[at].uid);
                                    } else {
                                        assert(allocs[at].uid != allocs[i].uid);
                                    }
                                }
                                if dies_in(dead, n, allocs[i].uid) {
                                    let k = choose|k: int|
                                        0 <= k < n && k < dead.len() && (#[trigger] dead[k]).0
                                            == allocs[i].uid;
                                    assert(k < m);
                                    assert(dies_in(dead, m, allocs[i].uid));
                                } else {
                                    assert(!dies_in(dead, m, allocs[i].uid));
                                }
                            }
                        }
                        assert forall|i: int|
                            0 <= i < allocs.len() && dies_in(
                                dead,
                                n,
                                (#[trigger] allocs[i]).uid,
                            ) implies allocs[i].tod is None by {
                            if i != at {
                                let k = choose|k: int|
                                    0 <= k < n && k < dead.len() && (#[trigger] dead[k]).0
                                        == allocs[i].uid;
                                if k == n - 1 {
                                    if i < at {
                                        assert(allocs[i].uid != allocs[at].uid);
                                    } else {
                                        assert(allocs[at].uid != allocs[i].uid);
                                    }
                                }
                                assert(dies_in(dead, m, allocs[i].uid));
                            }
                        }
                        assert forall|i: int, j: int| 0 <= i < j < after.len() implies (
                        #[trigger] after[i]).uid != (#[trigger] after[j]).uid by {
                            assert(allocs[i].uid != allocs[j].uid);
                        }
                    },
                    Err(e) => {},
                }
            },
            Err(e) => {},
        }
    }
}

/// Whatever an accepted batch holds, the allocations stand in ascending
/// order of their time of creation after it.
pub proof fn lemma_add_diff_keeps_order(allocs: Seq<Alloc>, diff: AllocDiff)
    ensures
        match spec_add_diff(allocs, diff) {
            Ok(after) => toc_ordered(after),
            Err(e) => true,
        },
{
}

/// The allocations after the first `n` batches of `diffs`, each applied to
/// what the ones before it left; a batch that is turned down leaves the
/// allocations as they were.
pub open spec fn spec_add_diffs(allocs: Seq<Alloc>, diffs: Seq<AllocDiff>, n: nat) -> Seq<Alloc>
    decreases n,
{
    if n == 0 {
        allocs
    } else {
        let so_far = spec_add_diffs(allocs, diffs, (n - 1) as nat);
        match spec_add_diff(so_far, diffs[n - 1]) {
            Ok(after) => after,
            Err(e) => so_far,
        }
    }
}

/// After any number of batches, accepted or not, the allocations stand in
/// ascending order of their time of creation, and no identifier occurs twice.
pub proof fn lemma_add_diffs_keep_order(allocs: Seq<Alloc>, diffs: Seq<AllocDiff>, n: nat)
    requires
        toc_ordered(allocs),
        uids_unique(allocs),
        n <= diffs.len(),
    ensures
        toc_ordered(spec_add_diffs(allocs, diffs, n)),
        uids_unique(spec_add_diffs(allocs, diffs, n)),
    decreases n,
{
    if n > 0 {
        lemma_add_diffs_keep_order(allocs, diffs, (n - 1) as nat);
        let so_far = spec_add_diffs(allocs, diffs, (n - 1) as nat);
        let diff = diffs[n - 1];
        lemma_insert_all_shape(so_far, diff.new@, diff.time, diff.new@.len());
        match spec_insert_all(so_far, diff.new@, diff.time, diff.new@.len()) {
            Ok(inserted) => {
                lemma_register_all_shape(inserted, diff.dead@, diff.time, diff.dead@.len());
            },
            Err(e) => {},
        }
    }
}

/// A batch that brings an allocation whose identifier the store already
/// holds is turned down for a collision.
pub proof fn lemma_known_uid_collides(allocs: Seq<Alloc>, diff: AllocDiff, j: int)
    requires
        0 <= j < diff.new@.len(),
        has_uid(allocs, diff.new@[j].uid),
    ensures
        spec_add_diff(allocs, diff) is Err,
        spec_add_diff(allocs, diff)->Err_0.is_collision(),
{
    let news = diff.new@;
    let time = diff.time;
    lemma_insert_all_shape(allocs, news, time, j as nat);
    lemma_insert_all_shape(allocs, news, time, (j + 1) as nat);
    match spec_insert_all(allocs, news, time, j as nat) {
        Ok(so_far) => {
            let i = index_of_uid(allocs, news[j].uid);
            assert(so_far[i].uid == news[j].uid);
            assert(has_uid(so_far, news[j].uid));
            assert(spec_insert_new(so_far, news[j], time) is Err);
        },
        Err(e) => {},
    }
    assert(spec_insert_all(allocs, news, time, (j + 1) as nat) is Err);
    lemma_insert_all_fails(allocs, news, time, (j + 1) as nat, news.len());
}

/// A batch that brings the same identifier twice is turned down for a
/// collision.
pub proof fn lemma_twin_uids_collide(allocs: Seq<Alloc>, diff: AllocDiff, i: int, j: int)
    requires
        0 <= i < j < diff.new@.len(),
        diff.new@[i].uid == diff.new@[j].uid,
    ensures
        spec_add_diff(allocs, diff) is Err,
        spec_add_diff(allocs, diff)->Err_0.is_collision(),
{
    let news = diff.new@;
    let time = diff.time;
    lemma_insert_all_shape(allocs, news, time, j as nat);
    lemma_insert_all_shape(allocs, news, time, (j + 1) as nat);
    match spec_insert_all(allocs, news, time, j as nat) {
        Ok(so_far) => {
            assert(so_far[allocs.len() + i] == news[i].stamped(time));
            assert(has_uid(so_far, news[j].uid));
            assert(spec_insert_new(so_far, news[j], time) is Err);
        },
        Err(e) => {},
    }
    assert(spec_insert_all(allocs, news, time, (j + 1) as nat) is Err);
    lemma_insert_all_fails(allocs, news, time, (j + 1) as nat, news.len());
}

/// The death of an allocation that is already dead is turned down for a
/// collision.
pub proof fn lemma_second_death_collides(allocs: Seq<Alloc>, i: int, time: SinceStart)
    requires
        uids_unique(allocs),
        0 <= i < allocs.len(),
        allocs[i].tod is Some,
    ensures
        spec_register_death(allocs, allocs[i].uid, time) == Err::<Seq<Alloc>, DataError>(
            DataError::DeathCollision(allocs[i].uid),
        ),
{
    lemma_index_of_uid(allocs, i);
}

/// A batch that reports the death of an allocation that is already dead is
/// turned down.
pub proof fn lemma_second_death_fails(allocs: Seq<Alloc>, diff: AllocDiff, i: int, k: int)
    requires
        uids_unique(allocs),
        0 <= i < allocs.len(),
        allocs[i].tod is Some,
        0 <= k < diff.dead@.len(),
        diff.dead@[k].0 == allocs[i].uid,
    ensures
        spec_add_diff(allocs, diff) is Err,
{
    let time = diff.time;
    lemma_insert_all_shape(allocs, diff.new@, time, diff.new@.len());
    match spec_insert_all(allocs, diff.new@, time, diff.new@.len()) {
        Ok(inserted) => {
            assert(inserted[i] == allocs[i]);
            lemma_register_all_shape(inserted, diff.dead@, time, diff.dead@.len());
            match spec_register_all(inserted, diff.dead@, time, diff.dead@.len()) {
                Ok(after) => {
                    assert(dies_in(diff.dead@, diff.dead@.len(), inserted[i].uid));
                    assert(false);
                },
                Err(e) => {},
            }
        },
        Err(e) => {},
    }
}

/// The death of an allocation that the store does not hold is turned down as
/// unknown.
pub proof fn lemma_unknown_death(allocs: Seq<Alloc>, uid: AllocUid, time: SinceStart)
    requires
        !has_uid(allocs, uid),
    ensures
        spec_register_death(allocs, uid, time) == Err::<Seq<Alloc>, DataError>(
            DataError::UnknownDeath(uid),
        ),
{
}

/// A batch that reports the death of an allocation that neither the store
/// nor the batch holds is turned down; where that death is all the batch
/// holds, it is turned down as unknown.
pub proof fn lemma_unknown_death_fails(allocs: Seq<Alloc>, diff: AllocDiff, k: int)
    requires
        uids_unique(allocs),
        0 <= k < diff.dead@.len(),
        !has_uid(allocs, diff.dead@[k].0),
        forall|j: int| 0 <= j < diff.new@.len() ==> (#[trigger] diff.new@[j]).uid != diff.dead@[k].0,
    ensures
        spec_add_diff(allocs, diff) is Err,
        diff.new@.len() == 0 && k == 0 ==> spec_add_diff(allocs, diff) == Err::<
            Seq<Alloc>,
            DataError,
        >(DataError::UnknownDeath(diff.dead@[0].0)),
{
    let time = diff.time;
    let uid = diff.dead@[k].0;
    lemma_insert_all_shape(allocs, diff.new@, time, diff.new@.len());
    match spec_insert_all(allocs, diff.new@, time, diff.new@.len()) {
        Ok(inserted) => {
            assert(!has_uid(inserted, uid)) by {
                if has_uid(inserted, uid) {
                    let i = index_of_uid(inserted, uid);
                    if i < allocs.len() {
                        assert(inserted[i] == allocs[i]);
                        assert(allocs[i].uid == uid);
                    } else {
                        assert(inserted[allocs.len() + (i - allocs.len())] == diff.new@[i
                            - allocs.len()].stamped(time));
                    }
                }
            }
            lemma_register_all_shape(inserted, diff.dead@, time, diff.dead@.len());
            if diff.new@.len() == 0 && k == 0 {
                assert(spec_register_all(inserted, diff.dead@, time, 0) == Ok::<
                    Seq<Alloc>,
                    DataError,
                >(inserted));
                assert(spec_register_all(inserted, diff.dead@, time, 1) == spec_register_death(
                    inserted,
                    uid,
                    time,
                ));
                lemma_register_all_fails(inserted, diff.dead@, time, 1, diff.dead@.len());
            }
        },
        Err(e) => {},
    }
}

/// In an accepted batch every new allocation is stored as created at the
/// time of the batch, whatever time it came with, and is dead at that time
/// if it came dead or the batch reports its death; what the store held
/// before keeps its time of creation.
pub proof fn lemma_time_override(allocs: Seq<Alloc>, diff: AllocDiff)
    requires
        uids_unique(allocs),
        spec_add_diff(allocs, diff) is Ok,
    ensures
        ({
            let after = spec_add_diff(allocs, diff)->Ok_0;
            &&& after.len() == allocs.len() + diff.new@.len()
            &&& forall|j: int|
                0 <= j < diff.new@.len() ==> {
                    &&& (#[trigger] after[allocs.len() + j]).uid == diff.new@[j].uid
                    &&& after[allocs.len() + j].size == diff.new@[j].size
                    &&& after[allocs.len() + j].toc == diff.time
                    &&& after[allocs.len() + j].tod == if diff.new@[j].tod is Some || dies_in(
                        diff.dead@,
                        diff.dead@.len(),
                        diff.new@[j].uid,
                    ) {
                        Some(diff.time)
                    } else {
                        None
                    }
                }
            &&& forall|i: int|
                0 <= i < allocs.len() ==> #[trigger] after[i] == if dies_in(
                    diff.dead@,
                    diff.dead@.len(),
                    allocs[i].uid,
                ) {
                    allocs[i].killed(diff.time)
                } else {
                    allocs[i]
                }
        }),
{
    let time = diff.time;
    lemma_insert_all_shape(allocs, diff.new@, time, diff.new@.len());
    let inserted = spec_insert_all(allocs, diff.new@, time, diff.new@.len())->Ok_0;
    lemma_register_all_shape(inserted, diff.dead@, time, diff.dead@.len());
    let after = spec_add_diff(allocs, diff)->Ok_0;
    assert forall|j: int| 0 <= j < diff.new@.len() implies {
        &&& (#[trigger] after[allocs.len() + j]).uid == diff.new@[j].uid
        &&& after[allocs.len() + j].size == diff.new@[j].size
        &&& after[allocs.len() + j].toc == diff.time
        &&& after[allocs.len() + j].tod == if diff.new@[j].tod is Some || dies_in(
            diff.dead@,
            diff.dead@.len(),
            diff.new@[j].uid,
        ) {
            Some(diff.time)
        } else {
            None
        }
    } by {
        assert(inserted[allocs.len() + j] == diff.new@[j].stamped(time));
    }
    assert forall|i: int| 0 <= i < allocs.len() implies #[trigger] after[i] == if dies_in(
        diff.dead@,
        diff.dead@.len(),
        allocs[i].uid,
    ) {
        allocs[i].killed(diff.time)
    } else {
        allocs[i]
    } by {
        assert(inserted[i] == allocs[i]);
    }
}

/// Where the allocations stand in ascending order of their time of
/// creation, the walk back from the latest one finds exactly those created
/// strictly after `time`, each once, in descending order of their time of
/// creation.
pub proof fn lemma_new_since_exact(allocs: Seq<Alloc>, time: SinceStart)
    requires
        toc_ordered(allocs),
    ensures
        ({
            let found = spec_new_since(allocs, time);
            &&& found.len() <= allocs.len()
            &&& forall|j: int|
                0 <= j < found.len() ==> #[trigger] found[j] == allocs[allocs.len() - 1 - j]
            &&& forall|i: int|
                0 <= i < allocs.len() ==> ((#[trigger] allocs[i]).toc.nanos > time.nanos <==> i
                    >= allocs.len() - found.len())
            &&& forall|j: int, k: int|
                0 <= j <= k < found.len() ==> (#[trigger] found[j]).toc.nanos >= (
                #[trigger] found[k]).toc.nanos
        }),
{
    lemma_new_since_is_a_tail(allocs, time);
    lemma_new_since_is_exact(allocs, time);
    let found = spec_new_since(allocs, time);
    assert forall|j: int, k: int| 0 <= j <= k < found.len() implies (#[trigger] found[j]).toc.nanos
        >= (#[trigger] found[k]).toc.nanos by {
        assert(allocs[allocs.len() - 1 - k].toc.nanos <= allocs[allocs.len() - 1 - j].toc.nanos);
    }
}

} // verus!
