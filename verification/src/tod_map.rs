//! Deaths indexed by the time at which they happened.

use vstd::prelude::*;
use crate::record::AllocUid;
use crate::time::SinceStart;
use crate::uid_set::AllocUidSet;

verus! {

/// All the allocations that died at one timestamp.
#[derive(Debug)]
pub struct DeathGroup {
    pub time: SinceStart,
    pub uids: AllocUidSet,
}

/// An ordered map from a time of death to the allocations that died then.
///
/// A timestamp is a key at most once, and only while some allocation died at it.
#[derive(Debug)]
pub struct TodMap {
    groups: Vec<DeathGroup>,
}

/// The set has a member.
pub open spec fn inhabited(uids: Set<AllocUid>) -> bool {
    exists|uid: AllocUid| uids.contains(uid)
}

impl TodMap {
    /// The groups stand in strictly ascending order of their timestamps, and none is empty.
    pub closed spec fn wf(&self) -> bool {
        &&& forall|g: int|
            0 <= g < self.groups@.len() ==> inhabited((#[trigger] self.groups@[g]).uids@)
        &&& forall|g: int, h: int|
            0 <= g < h < self.groups@.len() ==> (#[trigger] self.groups@[g]).time.nanos < (
            #[trigger] self.groups@[h]).time.nanos
    }

    /// Some allocation died at `time`.
    pub closed spec fn has(&self, time: SinceStart) -> bool {
        exists|g: int| 0 <= g < self.groups@.len() && (#[trigger] self.groups@[g]).time == time
    }

    /// The allocations that died at `time`.
    pub closed spec fn at(&self, time: SinceStart) -> Set<AllocUid> {
        if self.has(time) {
            let g = choose|g: int|
                0 <= g < self.groups@.len() && (#[trigger] self.groups@[g]).time == time;
            self.groups@[g].uids@
        } else {
            Set::empty()
        }
    }

    /// Where the group of `time` stands, if there is one.
    spec fn group_of(&self, time: SinceStart) -> int {
        choose|g: int| 0 <= g < self.groups@.len() && (#[trigger] self.groups@[g]).time == time
    }

    proof fn lemma_at(&self, g: int)
        requires
            self.wf(),
            0 <= g < self.groups@.len(),
        ensures
            self.has(self.groups@[g].time),
            self.group_of(self.groups@[g].time) == g,
            self.at(self.groups@[g].time) == self.groups@[g].uids@,
            inhabited(self.groups@[g].uids@),
    {
        let time = self.groups@[g].time;
        let h = self.group_of(time);
        assert(h == g) by {
            if h < g {
                assert(self.groups@[h].time.nanos < self.groups@[g].time.nanos);
            } else if g < h {
                assert(self.groups@[g].time.nanos < self.groups@[h].time.nanos);
            }
        }
    }

    /// A timestamp is a key exactly while some allocation died at it.
    pub proof fn lemma_has(&self, time: SinceStart)
        requires
            self.wf(),
        ensures
            self.has(time) <==> inhabited(self.at(time)),
    {
        if self.has(time) {
            self.lemma_at(self.group_of(time));
        }
    }

    pub fn new() -> (res: Self)
        ensures
            res.wf(),
            forall|t: SinceStart| !res.has(t),
            forall|t: SinceStart| res.at(t) == Set::<AllocUid>::empty(),
    {
        TodMap { groups: Vec::new() }
    }

    /// Index of the first group whose timestamp is not before `time`.
    fn locate(&self, time: SinceStart) -> (p: usize)
        requires
            self.wf(),
        ensures
            p <= self.groups@.len(),
            forall|g: int| 0 <= g < p ==> (#[trigger] self.groups@[g]).time.nanos < time.nanos,
            forall|g: int|
                p <= g < self.groups@.len() ==> (#[trigger] self.groups@[g]).time.nanos
                    >= time.nanos,
            self.has(time) <==> p < self.groups@.len() && self.groups@[p as int].time == time,
    {
        let mut p: usize = self.groups.len();
        while p > 0 && self.groups[p - 1].time.nanos >= time.nanos
            invariant
                p <= self.groups@.len(),
                self.wf(),
                forall|g: int|
                    p <= g < self.groups@.len() ==> (#[trigger] self.groups@[g]).time.nanos
                        >= time.nanos,
            decreases p,
        {
            p -= 1;
        }
        proof {
            assert forall|g: int| 0 <= g < p implies (#[trigger] self.groups@[g]).time.nanos
                < time.nanos by {
                if g < p - 1 {
                    assert(self.groups@[g].time.nanos < self.groups@[p - 1].time.nanos);
                }
            }
            if self.has(time) {
                let g = self.group_of(time);
                if g > p {
                    assert(self.groups@[p as int].time.nanos < self.groups@[g].time.nanos);
                }
            }
        }
        p
    }

    /// Whether `uid` is registered as dead at `time`.
    pub fn contains(&self, time: SinceStart, uid: AllocUid) -> (res: bool)
        requires
            self.wf(),
        ensures
            res == self.at(time).contains(uid),
    {
        let p = self.locate(time);
        if p < self.groups.len() && self.groups[p].time.nanos == time.nanos {
            proof {
                self.lemma_at(p as int);
            }
            self.groups[p].uids.contains(uid)
        } else {
            false
        }
    }

    /// Registers the death of `uid` at `time` and says whether it was new there.
    pub fn insert(&mut self, time: SinceStart, uid: AllocUid) -> (res: bool)
        requires
            old(self).wf(),
        ensures
            final(self).wf(),
            res == !old(self).at(time).contains(uid),
            final(self).at(time) == old(self).at(time).insert(uid),
            forall|t: SinceStart| t != time ==> final(self).at(t) == old(self).at(t),
    {
        let p = self.locate(time);
        if p < self.groups.len() && self.groups[p].time.nanos == time.nanos {
            proof {
                self.lemma_at(p as int);
            }
            let res = self.groups[p].uids.insert(uid);
            proof {
                assert(self.groups@[p as int].uids@.contains(uid));
                self.lemma_in_place(*old(self), p as int);
            }
            res
        } else {
            let mut uids = AllocUidSet::new();
            uids.insert(uid);
            self.groups.insert(p, DeathGroup { time, uids });
            proof {
                assert(uids@.contains(uid));
                self.lemma_group_added(*old(self), p as int);
            }
            true
        }
    }

    /// Forgets the death of `uid` at `time` and says whether it was known.
    pub fn remove(&mut self, time: SinceStart, uid: AllocUid) -> (res: bool)
        requires
            old(self).wf(),
        ensures
            final(self).wf(),
            res == old(self).at(time).contains(uid),
            final(self).at(time) == old(self).at(time).remove(uid),
            forall|t: SinceStart| t != time ==> final(self).at(t) == old(self).at(t),
    {
        let p = self.locate(time);
        if p < self.groups.len() && self.groups[p].time.nanos == time.nanos {
            proof {
                self.lemma_at(p as int);
            }
            let res = self.groups[p].uids.remove(uid);
            if self.groups[p].uids.is_empty() {
                let emptied = self.groups.remove(p);
                proof {
                    old(self).lemma_group_added(*self, p as int);
                    assert(!self.has(time));
                    assert(self.at(time) =~= old(self).at(time).remove(uid));
                }
            } else {
                proof {
                    let left = self.groups@[p as int].uids@;
                    assert(inhabited(left)) by {
                        if !inhabited(left) {
                            assert(left =~= Set::<AllocUid>::empty());
                        }
                    }
                    self.lemma_in_place(*old(self), p as int);
                }
            }
            res
        } else {
            assert(self.at(time) =~= old(self).at(time).remove(uid));
            false
        }
    }

    /// Forgets every death.
    pub fn clear(&mut self)
        ensures
            final(self).wf(),
            forall|t: SinceStart| !final(self).has(t),
            forall|t: SinceStart| final(self).at(t) == Set::<AllocUid>::empty(),
    {
        self.groups.clear();
    }

    /// The groups of deaths that happened strictly after `time`, latest first.
    pub fn since(&self, time: SinceStart) -> (res: Vec<DeathGroup>)
        requires
            self.wf(),
        ensures
            forall|j: int, k: int|
                0 <= j < k < res@.len() ==> (#[trigger] res@[j]).time.nanos > (
                #[trigger] res@[k]).time.nanos,
            forall|j: int|
                0 <= j < res@.len() ==> {
                    &&& (#[trigger] res@[j]).time.nanos > time.nanos
                    &&& self.has(res@[j].time)
                    &&& res@[j].uids@ == self.at(res@[j].time)
                },
            forall|t: SinceStart|
                self.has(t) && t.nanos > time.nanos ==> exists|j: int|
                    0 <= j < res@.len() && (#[trigger] res@[j]).time == t,
    {
        let n = self.groups.len();
        let mut res: Vec<DeathGroup> = Vec::new();
        let mut p: usize = n;
        while p > 0 && self.groups[p - 1].time.nanos > time.nanos
            invariant
                self.wf(),
                n == self.groups@.len(),
                p <= n,
                res@.len() == n - p,
                forall|j: int|
                    0 <= j < res@.len() ==> {
                        &&& (#[trigger] res@[j]).time == self.groups@[n - 1 - j].time
                        &&& res@[j].uids@ == self.groups@[n - 1 - j].uids@
                    },
                forall|g: int|
                    p <= g < n ==> (#[trigger] self.groups@[g]).time.nanos > time.nanos,
            decreases p,
        {
            let group = &self.groups[p - 1];
            res.push(DeathGroup { time: group.time, uids: group.uids.duplicate() });
            p -= 1;
        }
        proof {
            assert forall|j: int| 0 <= j < res@.len() implies {
                &&& (#[trigger] res@[j]).time.nanos > time.nanos
                &&& self.has(res@[j].time)
                &&& res@[j].uids@ == self.at(res@[j].time)
            } by {
                self.lemma_at(n - 1 - j);
                assert(self.groups@[n - 1 - j].time.nanos > time.nanos);
            }
            assert forall|j: int, k: int| 0 <= j < k < res@.len() implies (
            #[trigger] res@[j]).time.nanos > (#[trigger] res@[k]).time.nanos by {
                assert(self.groups@[n - 1 - k].time.nanos < self.groups@[n - 1 - j].time.nanos);
            }
            assert forall|t: SinceStart| self.has(t) && t.nanos > time.nanos implies exists|
                j: int,
            |
                0 <= j < res@.len() && (#[trigger] res@[j]).time == t by {
                let g = self.group_of(t);
                if g < p {
                    if g < p - 1 {
                        assert(self.groups@[g].time.nanos < self.groups@[p - 1].time.nanos);
                    }
                    assert(false);
                }
                assert(res@[n - 1 - g].time == t);
            }
        }
        res
    }

    /// One group has other members than it had in `before`, and is not
    /// empty; nothing else differs.
    proof fn lemma_in_place(&self, before: TodMap, p: int)
        requires
            before.wf(),
            0 <= p < before.groups@.len(),
            self.groups@.len() == before.groups@.len(),
            forall|g: int|
                0 <= g < self.groups@.len() && g != p ==> self.groups@[g] == before.groups@[g],
            self.groups@[p].time == before.groups@[p].time,
            inhabited(self.groups@[p].uids@),
        ensures
            self.wf(),
            self.at(self.groups@[p].time) == self.groups@[p].uids@,
            forall|t: SinceStart|
                t != self.groups@[p].time ==> self.at(t) == before.at(t),
    {
        assert forall|g: int, h: int| 0 <= g < h < self.groups@.len() implies (
        #[trigger] self.groups@[g]).time.nanos < (#[trigger] self.groups@[h]).time.nanos by {
            assert(before.groups@[g].time.nanos < before.groups@[h].time.nanos);
        }
        assert forall|g: int| 0 <= g < self.groups@.len() implies inhabited(
            (#[trigger] self.groups@[g]).uids@,
        ) by {
            if g != p {
                assert(inhabited(before.groups@[g].uids@));
            }
        }
        self.lemma_at(p);
        assert forall|t: SinceStart| t != self.groups@[p].time implies self.at(t) == before.at(
            t,
        ) by {
            if before.has(t) {
                let g = before.group_of(t);
                before.lemma_at(g);
                assert(self.groups@[g] == before.groups@[g]);
                self.lemma_at(g);
            } else if self.has(t) {
                let g = self.group_of(t);
                assert(before.groups@[g].time == t);
            }
        }
    }

    /// `self` is `before` with one more group, at the place `p`, where the
    /// order asks for it.
    proof fn lemma_group_added(&self, before: TodMap, p: int)
        requires
            before.wf(),
            0 <= p <= before.groups@.len(),
            self.groups@.len() == before.groups@.len() + 1,
            forall|g: int| 0 <= g < p ==> self.groups@[g] == before.groups@[g],
            forall|g: int|
                p <= g < before.groups@.len() ==> self.groups@[g + 1] == before.groups@[g],
            forall|g: int|
                0 <= g < p ==> (#[trigger] before.groups@[g]).time.nanos
                    < self.groups@[p].time.nanos,
            forall|g: int|
                p <= g < before.groups@.len() ==> (#[trigger] before.groups@[g]).time.nanos
                    > self.groups@[p].time.nanos,
            inhabited(self.groups@[p].uids@),
        ensures
            self.wf(),
            !before.has(self.groups@[p].time),
            self.at(self.groups@[p].time) == self.groups@[p].uids@,
            forall|t: SinceStart|
                t != self.groups@[p].time ==> self.at(t) == before.at(t),
    {
        let time = self.groups@[p].time;
        assert forall|g: int| 0 <= g < self.groups@.len() implies inhabited(
            (#[trigger] self.groups@[g]).uids@,
        ) by {
            if g < p {
                assert(inhabited(before.groups@[g].uids@));
            } else if g > p {
                assert(self.groups@[g] == before.groups@[g - 1]);
                assert(inhabited(before.groups@[g - 1].uids@));
            }
        }
        assert forall|g: int, h: int| 0 <= g < h < self.groups@.len() implies (
        #[trigger] self.groups@[g]).time.nanos < (#[trigger] self.groups@[h]).time.nanos by {
            if g < p {
                assert(self.groups@[g] == before.groups@[g]);
            } else if g > p {
                assert(self.groups@[g] == before.groups@[g - 1]);
            }
            if h < p {
                assert(self.groups@[h] == before.groups@[h]);
            } else if h > p {
                assert(self.groups@[h] == before.groups@[h - 1]);
            }
            if g < p && h > p {
                assert(before.groups@[g].time.nanos < time.nanos);
                assert(before.groups@[h - 1].time.nanos > time.nanos);
            } else if g != p && h != p {
                if g < p {
                    assert(before.groups@[g].time.nanos < before.groups@[h].time.nanos);
                } else {
                    assert(before.groups@[g - 1].time.nanos < before.groups@[h - 1].time.nanos);
                }
            } else if g == p {
                assert(before.groups@[h - 1].time.nanos > time.nanos);
            } else {
                assert(before.groups@[g].time.nanos < time.nanos);
            }
        }
        self.lemma_at(p);
        assert(!before.has(time)) by {
            if before.has(time) {
                let g = before.group_of(time);
                if g < p {
                    assert(before.groups@[g].time.nanos < time.nanos);
                } else {
                    assert(before.groups@[g].time.nanos > time.nanos);
                }
            }
        }
        assert forall|t: SinceStart| t != time implies self.at(t) == before.at(t) by {
            if before.has(t) {
                let g = before.group_of(t);
                before.lemma_at(g);
                if g < p {
                    assert(self.groups@[g] == before.groups@[g]);
                    self.lemma_at(g);
                } else {
                    assert(self.groups@[g + 1] == before.groups@[g]);
                    self.lemma_at(g + 1);
                }
            } else if self.has(t) {
                let g = self.group_of(t);
                if g < p {
                    assert(before.groups@[g].time == t);
                } else {
                    assert(self.groups@[g] == before.groups@[g - 1]);
                    assert(before.groups@[g - 1].time == t);
                }
            }
        }
    }
}

} // verus!
