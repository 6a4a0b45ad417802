use std::collections::HashMap;
use vstd::prelude::*;
use vstd::std_specs::hash::spec_keys_iter;
use vstd::std_specs::iter::IteratorSpec;

verus! {

broadcast use vstd::std_specs::hash::group_hash_axioms;

/// Identifier handed out by a `HashMapId`; 0 is never handed out.
pub type Id = u64;

/// A map that hands out increasing identifiers for the values put into it.
#[derive(Debug)]
pub struct HashMapId<V> {
    /// The next identifier to hand out.
    pub id: Id,
    pub hash_map: HashMap<Id, V>,
}

impl<V> HashMapId<V> {
    pub open spec fn view(&self) -> Map<Id, V> {
        self.hash_map@
    }

    /// Every identifier in use was handed out before `id`.
    pub open spec fn fresh(&self) -> bool {
        forall|k: Id| #[trigger] self@.contains_key(k) ==> k < self.id
    }

    pub fn new() -> (r: Self)
        ensures
            r.id == 1,
            r@ == Map::<Id, V>::empty(),
            r.fresh(),
    {
        HashMapId { id: 1, hash_map: HashMap::new() }
    }

    /// Hands out the next identifier without storing anything under it.
    pub fn reserve_id(&mut self) -> (r: Id)
        requires
            old(self).id < Id::MAX,
        ensures
            r == old(self).id,
            final(self).id == old(self).id + 1,
            final(self)@ == old(self)@,
            old(self).fresh() ==> final(self).fresh(),
    {
        let id = self.id;
        self.id = self.id + 1;
        id
    }

    /// The identifiers in use, each once, in the order the map walks them.
    pub fn ids(&self) -> (r: Vec<Id>)
        ensures
            r@.to_set() == self@.dom(),
            r@.no_duplicates(),
    {
        let mut out: Vec<Id> = Vec::new();
        for k in iter: self.hash_map.keys()
            invariant
                iter.seq() == spec_keys_iter(&self.hash_map).remaining(),
                out@ == iter.seq().take(iter.index()).unref(),
        {
            out.push(*k);
            assert(out@ =~= iter.seq().take(iter.index() + 1).unref());
        }
        assert(out@ =~= spec_keys_iter(&self.hash_map).remaining().unref());
        out
    }

    /// Whether every identifier in use was handed out before `id` (see `fresh`).
    pub fn is_fresh(&self) -> (r: bool)
        ensures
            r == self.fresh(),
    {
        let ids = self.ids();
        let mut i: usize = 0;
        while i < ids.len()
            invariant
                0 <= i <= ids@.len(),
                ids@.to_set() == self@.dom(),
                forall|j: int| 0 <= j < i ==> #[trigger] ids@[j] < self.id,
            decreases ids@.len() - i,
        {
            if ids[i] >= self.id {
                assert(ids@.to_set().contains(ids@[i as int]));
                return false;
            }
            i = i + 1;
        }
        proof {
            assert forall|k: Id| #[trigger] self@.contains_key(k) implies k < self.id by {
                assert(ids@.to_set().contains(k));
                let j = choose|j: int| 0 <= j < ids@.len() && ids@[j] == k;
            }
        }
        true
    }

    /// Stores `value` under the next identifier and returns that identifier.
    pub fn insert(&mut self, value: V) -> (r: Id)
        requires
            old(self).id < Id::MAX,
        ensures
            r == old(self).id,
            final(self).id == old(self).id + 1,
            final(self)@ == old(self)@.insert(r, value),
            old(self).fresh() ==> final(self).fresh() && !old(self)@.contains_key(r),
    {
        let id = self.id;
        self.id = self.id + 1;
        self.hash_map.insert(id, value);
        proof {
            if old(self).fresh() {
                assert forall|k: Id| #[trigger] self@.contains_key(k) implies k < self.id by {
                    if k != id {
                        assert(old(self)@.contains_key(k));
                    }
                }
            }
        }
        id
    }
}

impl<V: PartialEq> PartialEq for HashMapId<V> {
    /// Two maps are equal when they hold the same identifiers with equal
    /// values, by `std`'s `HashMap` equality; the counters for identifiers
    /// still to hand out do not count. Nothing is claimed of the answer.
    #[verifier::external_body]
    fn eq(&self, other: &Self) -> bool {
        self.hash_map == other.hash_map
    }
}

impl<V: Eq> Eq for HashMapId<V> {
}

} // verus!
