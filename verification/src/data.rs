//! The store of all the allocations seen so far.

use std::collections::BTreeMap;
use vstd::prelude::*;
use crate::error::DataError;
use crate::invariants;
use crate::model::{
    dead_at, died_at, has_death_at, has_uid, index_of_uid, lemma_dead_at_drop_last,
    lemma_dead_at_kill, lemma_dead_at_push, lemma_dead_at_revive, lemma_index_of_uid,
    lemma_insert_all_fails, lemma_new_since_is_a_tail, lemma_new_since_is_exact,
    lemma_register_all_fails, spec_add_diff, spec_insert_all, spec_insert_new, spec_new_since,
    spec_register_all, spec_register_death, texts, toc_ordered, uids_unique, DataView,
};
use crate::record::{Alloc, AllocDiff, AllocInit, AllocUid};
use crate::time::{Date, SinceStart};
use crate::tod_map::{DeathGroup, TodMap};

verus! {

/// All that is known about the allocations of the run so far.
pub struct Data {
    init: Option<AllocInit>,
    /// The allocations, in the order in which they were inserted.
    uid_map: Vec<Alloc>,
    /// Where each allocation stands in `uid_map`, by the number of its identifier.
    by_uid: BTreeMap<u64, usize>,
    /// The dead allocations, by their time of death.
    tod_map: TodMap,
    errors: Vec<String>,
    current_time: SinceStart,
}

impl View for Data {
    type V = DataView;

    closed spec fn view(&self) -> DataView {
        DataView {
            init: self.init,
            allocs: self.uid_map@,
            errors: texts(self.errors@),
            current_time: self.current_time,
        }
    }
}

impl Data {
    /// The two indices agree with the allocations: every allocation is
    /// found by its identifier, and only there; every death is found by its
    /// time, and only there.
    pub closed spec fn indexed(&self) -> bool {
        &&& forall|i: int|
            0 <= i < self.uid_map@.len() ==> self.by_uid@.contains_key(
                (#[trigger] self.uid_map@[i]).uid.id,
            ) && self.by_uid@[self.uid_map@[i].uid.id] == i
        &&& forall|id: u64| #[trigger]
            self.by_uid@.contains_key(id) ==> self.by_uid@[id] < self.uid_map@.len()
                && self.uid_map@[self.by_uid@[id] as int].uid.id == id
        &&& self.tod_map.wf()
        &&& forall|t: SinceStart| #[trigger] self.tod_map.at(t) == dead_at(self.uid_map@, t)
    }

    /// The invariant of the store: it is indexed, and the allocations stand
    /// in ascending order of their time of creation.
    pub open spec fn wf(&self) -> bool {
        &&& self.indexed()
        &&& toc_ordered(self@.allocs)
    }

    /// In an indexed store no identifier occurs twice.
    pub proof fn lemma_uids_unique(&self)
        requires
            self.indexed(),
        ensures
            uids_unique(self@.allocs),
    {
        assert forall|i: int, j: int| 0 <= i < j < self.uid_map@.len() implies (
        #[trigger] self.uid_map@[i]).uid != (#[trigger] self.uid_map@[j]).uid by {
            assert(self.by_uid@[self.uid_map@[i].uid.id] == i);
            assert(self.by_uid@[self.uid_map@[j].uid.id] == j);
        }
    }

    /// An empty store, with no run registered.
    pub fn new() -> (res: Self)
        ensures
            res.wf(),
            res@ == (DataView {
                init: None,
                allocs: Seq::empty(),
                errors: Seq::empty(),
                current_time: SinceStart { nanos: 0 },
            }),
    {
        let res = Data {
            init: None,
            uid_map: Vec::new(),
            by_uid: BTreeMap::new(),
            tod_map: TodMap::new(),
            errors: Vec::new(),
            current_time: SinceStart::zero(),
        };
        proof {
            assert(res@.errors =~= Seq::empty());
            assert forall|t: SinceStart| #[trigger]
                res.tod_map.at(t) == dead_at(res.uid_map@, t) by {
                assert(dead_at(res.uid_map@, t) =~= Set::<AllocUid>::empty());
            }
        }
        res
    }

    /// The timestamp of the latest batch that was applied.
    pub fn current_time(&self) -> (res: SinceStart)
        ensures
            res == self@.current_time,
    {
        self.current_time
    }

    /// The time at which the profiling run started.
    pub fn start_time(&self) -> (res: Result<Date, DataError>)
        ensures
            match self@.init {
                Some(init) => res == Ok::<Date, DataError>(init.start_time),
                None => res == Err::<Date, DataError>(DataError::NoStartTime),
            },
    {
        match self.init {
            Some(init) => Ok(init.start_time),
            None => Err(DataError::NoStartTime),
        }
    }

    /// Where the allocation `uid` stands, if the store holds it.
    fn find_uid(&self, uid: AllocUid) -> (res: Option<usize>)
        requires
            self.indexed(),
        ensures
            match res {
                Some(i) => i < self.uid_map@.len() && self.uid_map@[i as int].uid == uid
                    && has_uid(self.uid_map@, uid) && index_of_uid(self.uid_map@, uid) == i,
                None => !has_uid(self.uid_map@, uid),
            },
    {
        match self.by_uid.get(&uid.id) {
            Some(at) => {
                let i = *at;
                proof {
                    self.lemma_uids_unique();
                    lemma_index_of_uid(self.uid_map@, i as int);
                }
                Some(i)
            },
            None => {
                proof {
                    if has_uid(self.uid_map@, uid) {
                        let i = index_of_uid(self.uid_map@, uid);
                        assert(self.by_uid@.contains_key(self.uid_map@[i].uid.id));
                    }
                }
                None
            },
        }
    }

    /// The allocation `uid`.
    pub fn get_alloc(&self, uid: AllocUid) -> (res: Result<&Alloc, DataError>)
        requires
            self.wf(),
        ensures
            has_uid(self@.allocs, uid) ==> res is Ok && *res->Ok_0 == self@.allocs[index_of_uid(
                self@.allocs,
                uid,
            )],
            !has_uid(self@.allocs, uid) ==> res == Err::<&Alloc, DataError>(
                DataError::UnknownUid(uid),
            ),
    {
        match self.find_uid(uid) {
            Some(i) => Ok(&self.uid_map[i]),
            None => Err(DataError::UnknownUid(uid)),
        }
    }

    /// Takes in one new allocation of a batch stamped `time`.
    fn insert_new(&mut self, alloc: Alloc, time: SinceStart) -> (res: Result<(), DataError>)
        requires
            old(self).indexed(),
        ensures
            final(self).indexed(),
            match spec_insert_new(old(self)@.allocs, alloc, time) {
                Ok(allocs) => res is Ok && final(self)@ == (DataView { allocs, ..old(self)@ }),
                Err(e) => res == Err::<(), DataError>(e) && *final(self) == *old(self),
            },
    {
        let mut alloc = alloc;
        alloc.stamp(time);
        let uid = alloc.uid;
        if alloc.tod.is_some() && self.tod_map.contains(time, uid) {
            return Err(DataError::DeadUidCollision(uid));
        }
        if self.find_uid(uid).is_some() {
            return Err(DataError::UidCollision(uid));
        }
        let at = self.uid_map.len();
        self.uid_map.push(alloc);
        self.by_uid.insert(uid.id, at);
        if alloc.tod.is_some() {
            self.tod_map.insert(time, uid);
        }
        proof {
            assert forall|i: int| 0 <= i < self.uid_map@.len() implies self.by_uid@.contains_key(
                (#[trigger] self.uid_map@[i]).uid.id,
            ) && self.by_uid@[self.uid_map@[i].uid.id] == i by {
                if i < at {
                    assert(self.uid_map@[i] == old(self).uid_map@[i]);
                    assert(old(self).uid_map@[i].uid != uid);
                }
            }
            assert forall|t: SinceStart| #[trigger]
                self.tod_map.at(t) == dead_at(self.uid_map@, t) by {
                lemma_dead_at_push(old(self).uid_map@, alloc, t);
                assert(old(self).tod_map.at(t) == dead_at(old(self).uid_map@, t));
            }
        }
        Ok(())
    }

    /// Takes back the allocation that was inserted last.
    fn remove_last(&mut self)
        requires
            old(self).indexed(),
            old(self)@.allocs.len() > 0,
        ensures
            final(self).indexed(),
            final(self)@ == (DataView { allocs: old(self)@.allocs.drop_last(), ..old(self)@ }),
    {
        proof {
            self.lemma_uids_unique();
        }
        let last = self.uid_map.pop();
        match last {
            Some(alloc) => {
                self.by_uid.remove(&alloc.uid.id);
                match alloc.tod {
                    Some(tod) => {
                        self.tod_map.remove(tod, alloc.uid);
                    },
                    None => {},
                }
                proof {
                    let before = old(self).uid_map@;
                    let at = before.len() - 1;
                    assert(self.uid_map@ =~= before.drop_last());
                    assert forall|i: int|
                        0 <= i < self.uid_map@.len() implies self.by_uid@.contains_key(
                        (#[trigger] self.uid_map@[i]).uid.id,
                    ) && self.by_uid@[self.uid_map@[i].uid.id] == i by {
                        assert(before[i].uid != before[at].uid);
                    }
                    assert forall|id: u64| #[trigger]
                        self.by_uid@.contains_key(id) implies self.by_uid@[id]
                        < self.uid_map@.len() && self.uid_map@[self.by_uid@[id] as int].uid.id
                        == id by {
                        assert(old(self).by_uid@.contains_key(id));
                        assert(old(self).by_uid@[alloc.uid.id] == at);
                    }
                    assert forall|t: SinceStart| #[trigger]
                        self.tod_map.at(t) == dead_at(self.uid_map@, t) by {
                        lemma_dead_at_drop_last(before, t);
                        assert(old(self).tod_map.at(t) == dead_at(before, t));
                    }
                }
            },
            None => {},
        }
    }

    /// Takes in the death of `uid` at `time`.
    fn register_death(&mut self, uid: AllocUid, time: SinceStart) -> (res: Result<
        (),
        DataError,
    >)
        requires
            old(self).indexed(),
        ensures
            final(self).indexed(),
            match spec_register_death(old(self)@.allocs, uid, time) {
                Ok(allocs) => res is Ok && final(self)@ == (DataView { allocs, ..old(self)@ }),
                Err(e) => res == Err::<(), DataError>(e) && *final(self) == *old(self),
            },
    {
        match self.find_uid(uid) {
            None => Err(DataError::UnknownDeath(uid)),
            Some(i) => {
                let mut alloc = self.uid_map[i];
                if !alloc.set_tod(time) {
                    return Err(DataError::DeathCollision(uid));
                }
                self.uid_map[i] = alloc;
                self.tod_map.insert(time, uid);
                proof {
                    old(self).lemma_uids_unique();
                    assert(self.uid_map@ =~= old(self).uid_map@.update(i as int, alloc));
                    assert forall|k: int|
                        0 <= k < self.uid_map@.len() implies self.by_uid@.contains_key(
                        (#[trigger] self.uid_map@[k]).uid.id,
                    ) && self.by_uid@[self.uid_map@[k].uid.id] == k by {
                        assert(self.uid_map@[k].uid == old(self).uid_map@[k].uid);
                    }
                    assert forall|t: SinceStart| #[trigger]
                        self.tod_map.at(t) == dead_at(self.uid_map@, t) by {
                        lemma_dead_at_kill(old(self).uid_map@, i as int, time, t);
                        assert(old(self).tod_map.at(t) == dead_at(old(self).uid_map@, t));
                    }
                }
                Ok(())
            },
        }
    }

    /// Takes back the death of the allocation `uid`.
    fn revive(&mut self, uid: AllocUid)
        requires
            old(self).indexed(),
            has_uid(old(self)@.allocs, uid),
            old(self)@.allocs[index_of_uid(old(self)@.allocs, uid)].tod is Some,
        ensures
            final(self).indexed(),
            final(self)@ == (DataView {
                allocs: old(self)@.allocs.update(
                    index_of_uid(old(self)@.allocs, uid),
                    old(self)@.allocs[index_of_uid(old(self)@.allocs, uid)].revived(),
                ),
                ..old(self)@
            }),
    {
        match self.find_uid(uid) {
            None => {},
            Some(i) => {
                let mut alloc = self.uid_map[i];
                match alloc.tod {
                    None => {},
                    Some(tod) => {
                        alloc.tod = None;
                        self.uid_map[i] = alloc;
                        self.tod_map.remove(tod, uid);
                        proof {
                            old(self).lemma_uids_unique();
                            assert(self.uid_map@ =~= old(self).uid_map@.update(i as int, alloc));
                            assert forall|k: int|
                                0 <= k < self.uid_map@.len() implies self.by_uid@.contains_key(
                                (#[trigger] self.uid_map@[k]).uid.id,
                            ) && self.by_uid@[self.uid_map@[k].uid.id] == k by {
                                assert(self.uid_map@[k].uid == old(self).uid_map@[k].uid);
                            }
                            assert forall|t: SinceStart| #[trigger]
                                self.tod_map.at(t) == dead_at(self.uid_map@, t) by {
                                lemma_dead_at_revive(old(self).uid_map@, i as int, t);
                                assert(old(self).tod_map.at(t) == dead_at(old(self).uid_map@, t));
                            }
                        }
                    },
                }
            },
        }
    }

    /// Takes back the first `count` new allocations of a batch, which were
    /// taken in on top of `base`.
    fn undo_inserts(
        &mut self,
        Ghost(base): Ghost<Seq<Alloc>>,
        news: &Vec<Alloc>,
        time: SinceStart,
        count: usize,
    )
        requires
            old(self).indexed(),
            count <= news@.len(),
            spec_insert_all(base, news@, time, count as nat) == Ok::<Seq<Alloc>, DataError>(
                old(self)@.allocs,
            ),
        ensures
            final(self).indexed(),
            final(self)@ == (DataView { allocs: base, ..old(self)@ }),
    {
        let mut left: usize = count;
        while left > 0
            invariant
                left <= count <= news@.len(),
                self.indexed(),
                self@ == (DataView { allocs: self@.allocs, ..old(self)@ }),
                spec_insert_all(base, news@, time, left as nat) == Ok::<Seq<Alloc>, DataError>(
                    self@.allocs,
                ),
            decreases left,
        {
            proof {
                let so_far = spec_insert_all(base, news@, time, (left - 1) as nat);
                assert(so_far is Ok);
                assert(self@.allocs.drop_last() =~= so_far->Ok_0);
            }
            self.remove_last();
            left -= 1;
        }
    }

    /// Takes back the first `count` deaths of a batch, which were taken in
    /// on top of `base`.
    fn undo_deaths(
        &mut self,
        Ghost(base): Ghost<Seq<Alloc>>,
        dead: &Vec<(AllocUid, SinceStart)>,
        time: SinceStart,
        count: usize,
    )
        requires
            old(self).indexed(),
            count <= dead@.len(),
            spec_register_all(base, dead@, time, count as nat) == Ok::<Seq<Alloc>, DataError>(
                old(self)@.allocs,
            ),
        ensures
            final(self).indexed(),
            final(self)@ == (DataView { allocs: base, ..old(self)@ }),
    {
        let mut left: usize = count;
        while left > 0
            invariant
                left <= count <= dead@.len(),
                self.indexed(),
                self@ == (DataView { allocs: self@.allocs, ..old(self)@ }),
                spec_register_all(base, dead@, time, left as nat) == Ok::<Seq<Alloc>, DataError>(
                    self@.allocs,
                ),
            decreases left,
        {
            let uid = dead[left - 1].0;
            proof {
                let so_far = spec_register_all(base, dead@, time, (left - 1) as nat);
                assert(so_far is Ok);
                let prev = so_far->Ok_0;
                let i = index_of_uid(prev, uid);
                assert(has_uid(prev, uid));
                assert(self@.allocs == prev.update(i, prev[i].killed(time)));
                assert(self@.allocs[i].uid == uid);
                self.lemma_uids_unique();
                lemma_index_of_uid(self@.allocs, i);
                assert(self@.allocs.update(i, self@.allocs[i].revived()) =~= prev);
            }
            self.revive(uid);
            left -= 1;
        }
    }

    /// A timestamp is a key of the index of deaths exactly while some
    /// allocation died at it.
    proof fn lemma_has_group(&self, time: SinceStart)
        requires
            self.indexed(),
        ensures
            self.tod_map.has(time) <==> has_death_at(self.uid_map@, time),
    {
        self.tod_map.lemma_has(time);
        assert(self.tod_map.at(time) == dead_at(self.uid_map@, time));
        if has_death_at(self.uid_map@, time) {
            let i = choose|i: int|
                0 <= i < self.uid_map@.len() && (#[trigger] self.uid_map@[i]).tod == Some(time);
            assert(died_at(self.uid_map@, self.uid_map@[i].uid, time));
            assert(dead_at(self.uid_map@, time).contains(self.uid_map@[i].uid));
        }
        if self.tod_map.has(time) {
            let uid = choose|uid: AllocUid| self.tod_map.at(time).contains(uid);
            assert(died_at(self.uid_map@, uid, time));
        }
    }

    /// The allocations created strictly after `time`, latest first. One that
    /// has died since is still among them.
    pub fn iter_new_since(&self, time: SinceStart) -> (res: Vec<Alloc>)
        ensures
            res@ == spec_new_since(self@.allocs, time),
            res@.len() <= self@.allocs.len(),
            forall|j: int|
                0 <= j < res@.len() ==> #[trigger] res@[j] == self@.allocs[self@.allocs.len() - 1
                    - j],
            self.wf() ==> forall|i: int|
                0 <= i < self@.allocs.len() ==> ((#[trigger] self@.allocs[i]).toc.nanos
                    > time.nanos <==> i >= self@.allocs.len() - res@.len()),
    {
        let n = self.uid_map.len();
        let mut res: Vec<Alloc> = Vec::new();
        let mut p: usize = n;
        assert(self.uid_map@.subrange(0, n as int) =~= self.uid_map@);
        while p > 0 && self.uid_map[p - 1].toc.nanos > time.nanos
            invariant
                n == self.uid_map@.len(),
                p <= n,
                res@ + spec_new_since(self.uid_map@.subrange(0, p as int), time) == spec_new_since(
                    self.uid_map@,
                    time,
                ),
            decreases p,
        {
            proof {
                let front = self.uid_map@.subrange(0, p as int);
                assert(front.last() == self.uid_map@[p - 1]);
                assert(front.drop_last() =~= self.uid_map@.subrange(0, p - 1));
                assert(res@.push(front.last()) + spec_new_since(front.drop_last(), time) =~= res@
                    + spec_new_since(front, time));
            }
            res.push(self.uid_map[p - 1]);
            p -= 1;
        }
        proof {
            let front = self.uid_map@.subrange(0, p as int);
            if p > 0 {
                assert(front.last() == self.uid_map@[p - 1]);
            }
            assert(res@ + spec_new_since(front, time) =~= res@);
            lemma_new_since_is_a_tail(self.uid_map@, time);
            if self.wf() {
                lemma_new_since_is_exact(self.uid_map@, time);
            }
        }
        res
    }

    /// All the allocations, in the order of their creation.
    pub fn iter_all(&self) -> (res: &Vec<Alloc>)
        ensures
            res@ == self@.allocs,
    {
        &self.uid_map
    }

    /// The deaths that happened strictly after `time`, grouped by their
    /// timestamp, latest first: each group holds all the allocations that
    /// died at its timestamp.
    pub fn iter_dead_since(&self, time: SinceStart) -> (res: Vec<DeathGroup>)
        requires
            self.wf(),
        ensures
            forall|j: int, k: int|
                0 <= j < k < res@.len() ==> (#[trigger] res@[j]).time.nanos > (
                #[trigger] res@[k]).time.nanos,
            forall|j: int|
                0 <= j < res@.len() ==> {
                    &&& (#[trigger] res@[j]).time.nanos > time.nanos
                    &&& has_death_at(self@.allocs, res@[j].time)
                    &&& res@[j].uids@ == dead_at(self@.allocs, res@[j].time)
                },
            forall|t: SinceStart|
                has_death_at(self@.allocs, t) && t.nanos > time.nanos ==> exists|j: int|
                    0 <= j < res@.len() && (#[trigger] res@[j]).time == t,
    {
        let res = self.tod_map.since(time);
        proof {
            assert forall|j: int| 0 <= j < res@.len() implies {
                &&& (#[trigger] res@[j]).time.nanos > time.nanos
                &&& has_death_at(self@.allocs, res@[j].time)
                &&& res@[j].uids@ == dead_at(self@.allocs, res@[j].time)
            } by {
                self.lemma_has_group(res@[j].time);
                assert(self.tod_map.at(res@[j].time) == dead_at(self.uid_map@, res@[j].time));
            }
            assert forall|t: SinceStart|
                has_death_at(self@.allocs, t) && t.nanos > time.nanos implies exists|j: int|
                0 <= j < res@.len() && (#[trigger] res@[j]).time == t by {
                self.lemma_has_group(t);
            }
        }
        res
    }

    /// The errors recorded so far, oldest first.
    pub fn errors(&self) -> (res: &Vec<String>)
        ensures
            texts(res@) == self@.errors,
    {
        &self.errors
    }

    /// Records an error.
    pub fn add_err(&mut self, err: String)
        ensures
            final(self)@ == (DataView { errors: old(self)@.errors.push(err@), ..old(self)@ }),
            final(self).indexed() == old(self).indexed(),
    {
        self.errors.push(err);
        assert(texts(self.errors@) =~= texts(old(self).errors@).push(err@));
    }

    /// Forgets every allocation and starts over with the run `init`.
    pub fn reset(&mut self, init: AllocInit)
        ensures
            final(self).wf(),
            final(self)@ == (DataView {
                init: Some(init),
                allocs: Seq::empty(),
                errors: old(self)@.errors,
                current_time: SinceStart { nanos: 0 },
            }),
    {
        self.init = Some(init);
        self.uid_map.clear();
        self.by_uid.clear();
        self.tod_map.clear();
        self.current_time = SinceStart::zero();
        proof {
            assert forall|t: SinceStart| #[trigger]
                self.tod_map.at(t) == dead_at(self.uid_map@, t) by {
                assert(dead_at(self.uid_map@, t) =~= Set::<AllocUid>::empty());
            }
        }
    }

    /// Takes in the new allocations of a batch, in order, or none of them.
    fn insert_all(&mut self, news: &Vec<Alloc>, time: SinceStart) -> (res: Result<(), DataError>)
        requires
            old(self).indexed(),
        ensures
            final(self).indexed(),
            match spec_insert_all(old(self)@.allocs, news@, time, news@.len()) {
                Ok(allocs) => res is Ok && final(self)@ == (DataView { allocs, ..old(self)@ }),
                Err(e) => res == Err::<(), DataError>(e) && final(self)@ == old(self)@,
            },
    {
        let ghost base = self@.allocs;
        let n = news.len();
        let mut i: usize = 0;
        while i < n
            invariant
                i <= n,
                n == news@.len(),
                self.indexed(),
                self@ == (DataView { allocs: self@.allocs, ..old(self)@ }),
                base == old(self)@.allocs,
                spec_insert_all(base, news@, time, i as nat) == Ok::<Seq<Alloc>, DataError>(
                    self@.allocs,
                ),
            decreases n - i,
        {
            match self.insert_new(news[i], time) {
                Ok(()) => {},
                Err(e) => {
                    proof {
                        lemma_insert_all_fails(base, news@, time, (i + 1) as nat, n as nat);
                    }
                    self.undo_inserts(Ghost(base), news, time, i);
                    return Err(e);
                },
            }
            i += 1;
        }
        Ok(())
    }

    /// Takes in the deaths of a batch, in order, or none of them.
    fn register_all(&mut self, dead: &Vec<(AllocUid, SinceStart)>, time: SinceStart) -> (res:
        Result<(), DataError>)
        requires
            old(self).indexed(),
        ensures
            final(self).indexed(),
            match spec_register_all(old(self)@.allocs, dead@, time, dead@.len()) {
                Ok(allocs) => res is Ok && final(self)@ == (DataView { allocs, ..old(self)@ }),
                Err(e) => res == Err::<(), DataError>(e) && final(self)@ == old(self)@,
            },
    {
        let ghost base = self@.allocs;
        let n = dead.len();
        let mut k: usize = 0;
        while k < n
            invariant
                k <= n,
                n == dead@.len(),
                self.indexed(),
                self@ == (DataView { allocs: self@.allocs, ..old(self)@ }),
                base == old(self)@.allocs,
                spec_register_all(base, dead@, time, k as nat) == Ok::<Seq<Alloc>, DataError>(
                    self@.allocs,
                ),
            decreases n - k,
        {
            match self.register_death(dead[k].0, time) {
                Ok(()) => {},
                Err(e) => {
                    proof {
                        lemma_register_all_fails(base, dead@, time, (k + 1) as nat, n as nat);
                    }
                    self.undo_deaths(Ghost(base), dead, time, k);
                    return Err(e);
                },
            }
            k += 1;
        }
        Ok(())
    }

    /// Applies one batch: every new allocation and every death is stamped
    /// with the time of the batch. A batch is taken whole or not at all: if
    /// any of its entries is turned down, the store stays as it was.
    ///
    /// The entries are taken in order, the new allocations first, and the
    /// first one that is turned down decides the error. A batch that would
    /// leave the allocations out of the order of their creation is turned
    /// down as a whole.
    pub fn add_diff(&mut self, diff: AllocDiff) -> (res: Result<(), DataError>)
        requires
            old(self).wf(),
        ensures
            final(self).wf(),
            toc_ordered(final(self)@.allocs),
            match spec_add_diff(old(self)@.allocs, diff) {
                Ok(allocs) => res is Ok && final(self)@ == (DataView {
                    allocs,
                    current_time: diff.time,
                    ..old(self)@
                }),
                Err(e) => res == Err::<(), DataError>(e) && final(self)@ == old(self)@,
            },
            // an identifier that the store holds cannot come again
            forall|j: int|
                0 <= j < diff.new@.len() && has_uid(old(self)@.allocs, (#[trigger] diff.new@[j]).uid)
                    ==> res is Err && res->Err_0.is_collision(),
            // nobody dies twice
            forall|i: int, k: int|
                0 <= i < old(self)@.allocs.len() && 0 <= k < diff.dead@.len() && (
                #[trigger] old(self)@.allocs[i]).tod is Some && (#[trigger] diff.dead@[k]).0
                    == old(self)@.allocs[i].uid ==> res is Err,
            // only an allocation that is known can die
            forall|k: int|
                0 <= k < diff.dead@.len() && !has_uid(
                    old(self)@.allocs,
                    (#[trigger] diff.dead@[k]).0,
                ) && !has_uid(diff.new@, diff.dead@[k].0) ==> res is Err,
            diff.new@.len() == 0 && diff.dead@.len() > 0 && !has_uid(
                old(self)@.allocs,
                diff.dead@[0].0,
            ) ==> res == Err::<(), DataError>(DataError::UnknownDeath(diff.dead@[0].0)),
            // the time of the batch overrides the times that its entries carry
            res is Ok ==> {
                &&& final(self)@.allocs.len() == old(self)@.allocs.len() + diff.new@.len()
                &&& forall|j: int|
                    0 <= j < diff.new@.len() ==> {
                        &&& (#[trigger] final(self)@.allocs[old(self)@.allocs.len() + j]).uid
                            == diff.new@[j].uid
                        &&& final(self)@.allocs[old(self)@.allocs.len() + j].toc == diff.time
                        &&& final(self)@.allocs[old(self)@.allocs.len() + j].tod is Some
                            ==> final(self)@.allocs[old(self)@.allocs.len() + j].tod == Some(
                            diff.time,
                        )
                    }
                &&& forall|i: int|
                    0 <= i < old(self)@.allocs.len() ==> {
                        &&& (#[trigger] final(self)@.allocs[i]).uid == old(self)@.allocs[i].uid
                        &&& final(self)@.allocs[i].toc == old(self)@.allocs[i].toc
                        &&& final(self)@.allocs[i].tod == old(self)@.allocs[i].tod || (old(
                            self,
                        )@.allocs[i].tod is None && final(self)@.allocs[i].tod == Some(diff.time))
                    }
            },
    {
        let res = self.apply_diff(&diff);
        proof {
            let before = old(self)@.allocs;
            old(self).lemma_uids_unique();
            assert forall|j: int|
                0 <= j < diff.new@.len() && has_uid(
                    before,
                    (#[trigger] diff.new@[j]).uid,
                ) implies res is Err && res->Err_0.is_collision() by {
                crate::data_laws::lemma_known_uid_collides(before, diff, j);
            }
            assert forall|i: int, k: int|
                0 <= i < before.len() && 0 <= k < diff.dead@.len() && (#[trigger] before[i]).tod
                    is Some && (#[trigger] diff.dead@[k]).0 == before[i].uid implies res
                is Err by {
                crate::data_laws::lemma_second_death_fails(before, diff, i, k);
            }
            assert forall|k: int|
                0 <= k < diff.dead@.len() && !has_uid(before, (#[trigger] diff.dead@[k]).0)
                    && !has_uid(diff.new@, diff.dead@[k].0) implies res is Err by {
                assert forall|j: int| 0 <= j < diff.new@.len() implies (
                #[trigger] diff.new@[j]).uid != diff.dead@[k].0 by {
                    if diff.new@[j].uid == diff.dead@[k].0 {
                        assert(has_uid(diff.new@, diff.dead@[k].0));
                    }
                }
                crate::data_laws::lemma_unknown_death_fails(before, diff, k);
            }
            if diff.new@.len() == 0 && diff.dead@.len() > 0 && !has_uid(before, diff.dead@[0].0) {
                crate::data_laws::lemma_unknown_death_fails(before, diff, 0);
            }
            if res is Ok {
                crate::data_laws::lemma_time_override(before, diff);
            }
        }
        res
    }

    /// Applies one batch, or nothing of it.
    fn apply_diff(&mut self, diff: &AllocDiff) -> (res: Result<(), DataError>)
        requires
            old(self).wf(),
        ensures
            final(self).wf(),
            match spec_add_diff(old(self)@.allocs, *diff) {
                Ok(allocs) => res is Ok && final(self)@ == (DataView {
                    allocs,
                    current_time: diff.time,
                    ..old(self)@
                }),
                Err(e) => res == Err::<(), DataError>(e) && final(self)@ == old(self)@,
            },
    {
        let time = diff.time;
        let ghost before = self@.allocs;
        match self.insert_all(&diff.new, time) {
            Ok(()) => {},
            Err(e) => {
                return Err(e);
            },
        }
        let ghost inserted = self@.allocs;
        match self.register_all(&diff.dead, time) {
            Ok(()) => {},
            Err(e) => {
                self.undo_inserts(Ghost(before), &diff.new, time, diff.new.len());
                return Err(e);
            },
        }
        match invariants::uid_order_is_toc_order(self) {
            Ok(()) => {},
            Err(e) => {
                self.undo_deaths(Ghost(inserted), &diff.dead, time, diff.dead.len());
                self.undo_inserts(Ghost(before), &diff.new, time, diff.new.len());
                return Err(e);
            },
        }
        self.current_time = time;
        Ok(())
    }
}

/// Records an error in the store.
pub fn add_err(data: &mut Data, err: String)
    ensures
        final(data)@ == (DataView { errors: old(data)@.errors.push(err@), ..old(data)@ }),
        final(data).wf() == old(data).wf(),
{
    data.add_err(err);
}

/// Applies one batch to the store. A batch that is turned down leaves the
/// allocations as they were, and the reason is recorded among the errors of
/// the store.
pub fn add_diff(data: &mut Data, diff: AllocDiff) -> (res: Result<(), DataError>)
    requires
        old(data).wf(),
    ensures
        final(data).wf(),
        match spec_add_diff(old(data)@.allocs, diff) {
            Ok(allocs) => res is Ok && final(data)@ == (DataView {
                allocs,
                current_time: diff.time,
                ..old(data)@
            }),
            Err(e) => res == Err::<(), DataError>(e) && final(data)@ == (DataView {
                errors: old(data)@.errors.push(e.spec_message()),
                ..old(data)@
            }),
        },
{
    match data.add_diff(diff) {
        Ok(()) => Ok(()),
        Err(e) => {
            data.add_err(e.message());
            Err(e)
        },
    }
}

} // verus!
