use vstd::prelude::*;

use crate::heap::Heap;
use crate::index::{OrderedIndex, Searched};

verus! {

/// Records in a heap, reached through an ordered index from 128-bit keys to
/// heap identifiers.
pub struct Table<T> {
    heap: Heap<T>,
    index: OrderedIndex<u64>,
}

impl<T> View for Table<T> {
    type V = Map<u128, T>;

    /// The record reached from each key.
    closed spec fn view(&self) -> Map<u128, T> {
        Map::new(|k: u128| self.index@.contains_key(k), |k: u128| self.heap@[self.index@[k]])
    }
}

impl<T> Table<T> {
    /// The records by heap identifier.
    pub closed spec fn by_id(&self) -> Map<u64, T> {
        self.heap@
    }

    /// The index: key to heap identifier.
    pub closed spec fn index_map(&self) -> Map<u128, u64> {
        self.index@
    }

    /// Every index entry names a stored record, no two entries name the same one,
    /// and every stored record is named by an entry.
    pub closed spec fn wf(&self) -> bool {
        &&& self.heap.wf()
        &&& self.index.wf()
        &&& forall|k: u128| #[trigger]
            self.index@.contains_key(k) ==> self.heap@.contains_key(self.index@[k])
        &&& forall|k1: u128, k2: u128|
            #[trigger] self.index@.contains_key(k1) && #[trigger] self.index@.contains_key(k2)
                && k1 != k2 ==> self.index@[k1] != self.index@[k2]
        &&& forall|id: u64|
            #[trigger] self.heap@.contains_key(id) ==> exists|k: u128|
                #[trigger] self.index@.contains_key(k) && self.index@[k] == id
    }

    /// Number of index entries.
    pub closed spec fn spec_len(&self) -> nat {
        self.index.spec_len()
    }

    /// The key of index entry `i`.
    pub closed spec fn key_at(&self, i: int) -> u128 {
        self.index.key_at(i)
    }

    /// Whether `i` is where key `k` belongs in the index.
    pub closed spec fn is_cursor(&self, k: u128, i: int) -> bool {
        self.index.is_cursor(k, i)
    }

    /// Every stored record is reached from some key.
    pub proof fn lemma_no_orphans(&self, id: u64)
        requires
            self.wf(),
            self.by_id().contains_key(id),
        ensures
            exists|k: u128| #[trigger] self@.contains_key(k) && self@[k] == self.by_id()[id],
    {
        let k = choose|k: u128| #[trigger] self.index@.contains_key(k) && self.index@[k] == id;
        assert(self@.contains_key(k));
    }

    /// An empty table.
    pub fn new() -> (r: Self)
        ensures
            r.wf(),
            r@ == Map::<u128, T>::empty(),
            r.by_id() == Map::<u64, T>::empty(),
    {
        let r = Table { heap: Heap::new(), index: OrderedIndex::new() };
        assert(r@ =~= Map::<u128, T>::empty());
        r
    }

    /// Searches the index for `k`.
    pub fn search(&self, k: u128) -> (r: Searched)
        requires
            self.wf(),
        ensures
            match r {
                Searched::Found(i) => i < self.spec_len() && self.key_at(i as int) == k
                    && self@.contains_key(k),
                Searched::Vacant(i) => self.is_cursor(k, i as int) && !self@.contains_key(k),
            },
    {
        self.index.search(k)
    }

    /// The record reached from `k`, if any.
    pub fn get(&self, k: u128) -> (r: Option<&T>)
        requires
            self.wf(),
        ensures
            r.is_some() == self@.contains_key(k),
            r.is_some() ==> *r.unwrap() == self@[k],
    {
        match self.index.get(k) {
            Some(id) => self.heap.get(id),
            None => None,
        }
    }

    /// The record stored under heap identifier `id`, if any.
    pub fn get_by_id(&self, id: u64) -> (r: Option<&T>)
        requires
            self.wf(),
        ensures
            r.is_some() == self.by_id().contains_key(id),
            r.is_some() ==> *r.unwrap() == self.by_id()[id],
    {
        self.heap.get(id)
    }

    /// Stores `rec` in the heap and files it under `k` at cursor `i` of a search
    /// for `k`; returns the new heap identifier.
    pub fn insert_at(&mut self, i: usize, k: u128, rec: T) -> (id: u64)
        requires
            old(self).wf(),
            old(self).is_cursor(k, i as int),
        ensures
            final(self).wf(),
            final(self)@ == old(self)@.insert(k, rec),
            !old(self).by_id().contains_key(id),
            final(self).by_id() == old(self).by_id().insert(id, rec),
            final(self).index_map() == old(self).index_map().insert(k, id),
    {
        let ghost old_index = self.index@;
        let ghost old_heap = self.heap@;
        let ghost old_view = self@;
        proof {
            self.index.lemma_cursor_absent(k, i as int);
        }
        let id = self.heap.add(rec);
        self.index.insert_at(i, k, id);
        proof {
            assert forall|q: u128| #[trigger] self.index@.contains_key(q) implies self.heap@.contains_key(
                self.index@[q],
            ) by {
                if q != k {
                    assert(old_index.contains_key(q));
                }
            }
            assert forall|k1: u128, k2: u128|
                #[trigger] self.index@.contains_key(k1) && #[trigger] self.index@.contains_key(k2)
                    && k1 != k2 implies self.index@[k1] != self.index@[k2] by {
                if k1 != k && k2 != k {
                    assert(old_index.contains_key(k1) && old_index.contains_key(k2));
                } else if k1 == k {
                    assert(old_heap.contains_key(old_index[k2]));
                } else {
                    assert(old_heap.contains_key(old_index[k1]));
                }
            }
            assert forall|x: u64| #[trigger] self.heap@.contains_key(x) implies exists|q: u128|
                #[trigger] self.index@.contains_key(q) && self.index@[q] == x by {
                if x == id {
                    assert(self.index@.contains_key(k) && self.index@[k] == x);
                } else {
                    let q = choose|q: u128| #[trigger] old_index.contains_key(q) && old_index[q] == x;
                    assert(self.index@.contains_key(q) && self.index@[q] == x);
                }
            }
            assert forall|q: u128| #[trigger] self@.contains_key(q) == old_view.insert(k, rec).contains_key(q)
                && (self@.contains_key(q) ==> self@[q] == old_view.insert(k, rec)[q]) by {
                if q != k && old_index.contains_key(q) {
                    assert(old_heap.contains_key(old_index[q]));
                }
            }
            assert(self@ =~= old_view.insert(k, rec));
        }
        id
    }

    /// Removes index entry `i` and the record it names.
    pub fn remove_at(&mut self, i: usize)
        requires
            old(self).wf(),
            i < old(self).spec_len(),
        ensures
            final(self).wf(),
            final(self)@ == old(self)@.remove(old(self).key_at(i as int)),
            old(self).index_map().contains_key(old(self).key_at(i as int)),
            final(self).index_map() == old(self).index_map().remove(old(self).key_at(i as int)),
            final(self).by_id() == old(self).by_id().remove(
                old(self).index_map()[old(self).key_at(i as int)],
            ),
    {
        let ghost old_index = self.index@;
        let ghost old_heap = self.heap@;
        let ghost old_view = self@;
        let ghost k = self.index.key_at(i as int);
        proof {
            self.index.lemma_keys_in_view(i as int);
        }
        let id = self.index.value_at(i);
        self.heap.remove(id);
        self.index.remove_at(i);
        proof {
            assert forall|q: u128| #[trigger] self.index@.contains_key(q) implies self.heap@.contains_key(
                self.index@[q],
            ) by {
                assert(old_index.contains_key(q) && old_index.contains_key(k) && q != k);
            }
            assert forall|k1: u128, k2: u128|
                #[trigger] self.index@.contains_key(k1) && #[trigger] self.index@.contains_key(k2)
                    && k1 != k2 implies self.index@[k1] != self.index@[k2] by {
                assert(old_index.contains_key(k1) && old_index.contains_key(k2));
            }
            assert forall|x: u64| #[trigger] self.heap@.contains_key(x) implies exists|q: u128|
                #[trigger] self.index@.contains_key(q) && self.index@[q] == x by {
                let q = choose|q: u128| #[trigger] old_index.contains_key(q) && old_index[q] == x;
                assert(q != k);
                assert(self.index@.contains_key(q) && self.index@[q] == x);
            }
            assert forall|q: u128| #[trigger] self@.contains_key(q) == old_view.remove(k).contains_key(q)
                && (self@.contains_key(q) ==> self@[q] == old_view.remove(k)[q]) by {
                if q != k && old_index.contains_key(q) {
                    assert(old_index.contains_key(k));
                    assert(old_index[q] != id);
                }
            }
            assert(self@ =~= old_view.remove(k));
        }
    }
}

} // verus!
