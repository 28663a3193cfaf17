//! Sets of allocation identifiers.

use std::collections::BTreeSet;
use vstd::prelude::*;
use vstd::std_specs::btree::spec_btree_keys_iter;
use vstd::std_specs::iter::IteratorSpec;
use crate::record::AllocUid;

verus! {

/// A finite set of allocation identifiers, such as all the allocations that
/// died at one timestamp.
#[derive(Debug)]
pub struct AllocUidSet {
    /// The numbers of the identifiers.
    ids: BTreeSet<u64>,
}

impl View for AllocUidSet {
    type V = Set<AllocUid>;

    closed spec fn view(&self) -> Set<AllocUid> {
        Set::new(|uid: AllocUid| self.ids@.contains(uid.id))
    }
}

impl AllocUidSet {
    /// The set is finite, and has as many members as it has numbers.
    proof fn lemma_len(&self)
        ensures
            self@.finite(),
            self.ids@.finite(),
            self@.len() == self.ids@.len(),
    {
        let keys = spec_btree_keys_iter(&self.ids).remaining();
        vstd::seq_lib::seq_to_set_is_finite(keys.unref());
        let wrap = |id: u64| AllocUid { id };
        assert(self.ids@.map(wrap) =~= self@) by {
            assert forall|uid: AllocUid| self@.contains(uid) implies self.ids@.map(wrap).contains(
                uid,
            ) by {
                assert(wrap(uid.id) == uid);
            }
        }
        vstd::set_lib::lemma_map_size(self.ids@, self@, wrap);
    }

    pub fn new() -> (res: Self)
        ensures
            res@ == Set::<AllocUid>::empty(),
    {
        let res = AllocUidSet { ids: BTreeSet::new() };
        assert(res@ =~= Set::<AllocUid>::empty());
        res
    }

    pub fn len(&self) -> (res: usize)
        ensures
            res == self@.len(),
    {
        proof {
            self.lemma_len();
        }
        self.ids.len()
    }

    pub fn is_empty(&self) -> (res: bool)
        ensures
            res == (self@ == Set::<AllocUid>::empty()),
    {
        proof {
            if self.ids@.is_empty() {
                assert(self@ =~= Set::<AllocUid>::empty());
            } else {
                let id = choose|id: u64| self.ids@.contains(id);
                assert(self@.contains(AllocUid { id }));
            }
        }
        self.ids.is_empty()
    }

    pub fn contains(&self, uid: AllocUid) -> (res: bool)
        ensures
            res == self@.contains(uid),
    {
        self.ids.contains(&uid.id)
    }

    /// Adds `uid` to the set and says whether it was new.
    pub fn insert(&mut self, uid: AllocUid) -> (res: bool)
        ensures
            res == !old(self)@.contains(uid),
            final(self)@ == old(self)@.insert(uid),
    {
        let res = self.ids.insert(uid.id);
        assert(self@ =~= old(self)@.insert(uid));
        res
    }

    /// Takes `uid` out of the set and says whether it was there.
    pub fn remove(&mut self, uid: AllocUid) -> (res: bool)
        ensures
            res == old(self)@.contains(uid),
            final(self)@ == old(self)@.remove(uid),
    {
        let res = self.ids.remove(&uid.id);
        assert(self@ =~= old(self)@.remove(uid));
        res
    }

    /// The members, each once.
    pub fn to_vec(&self) -> (res: Vec<AllocUid>)
        ensures
            res@.to_set() == self@,
            res@.no_duplicates(),
            res@.len() == self@.len(),
    {
        let ghost keys = spec_btree_keys_iter(&self.ids).remaining();
        let mut res: Vec<AllocUid> = Vec::new();
        for id in it: self.ids.iter()
            invariant
                it.seq() == keys,
                res@.len() == it.index(),
                forall|j: int| 0 <= j < res@.len() ==> (#[trigger] res@[j]).id == *keys[j],
        {
            res.push(AllocUid { id: *id });
        }
        proof {
            self.lemma_len();
            assert forall|i: int, j: int| 0 <= i < j < res@.len() implies res@[i] != res@[j] by {
                assert(keys[i] != keys[j]);
            }
            assert forall|uid: AllocUid| res@.to_set().contains(uid) == self@.contains(uid) by {
                if res@.contains(uid) {
                    let j = choose|j: int| 0 <= j < res@.len() && res@[j] == uid;
                    assert(keys.unref()[j] == uid.id);
                    assert(keys.unref().contains(uid.id));
                }
                if self@.contains(uid) {
                    assert(keys.unref().to_set().contains(uid.id));
                    let j = choose|j: int| 0 <= j < keys.len() && keys.unref()[j] == uid.id;
                    assert(res@[j] == uid);
                }
            }
            assert(res@.to_set() =~= self@);
        }
        res
    }

    /// A set with the same members.
    pub fn duplicate(&self) -> (res: Self)
        ensures
            res@ == self@,
    {
        let res = AllocUidSet { ids: self.ids.clone() };
        assert(res@ =~= self@);
        res
    }
}

} // verus!
