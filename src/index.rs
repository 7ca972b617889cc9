use vstd::prelude::*;

verus! {

/// The outcome of a search: the position of the key, or the position at which
/// it would be inserted.
#[derive(Clone, Copy, Debug, PartialEq, Eq, Structural)]
pub enum Searched {
    Found(usize),
    Vacant(usize),
}

/// A map from 128-bit keys to values, kept as a vector of entries in strictly
/// increasing key order.
pub struct OrderedIndex<V> {
    entries: Vec<(u128, V)>,
    contents: Ghost<Map<u128, V>>,
}

impl<V> View for OrderedIndex<V> {
    type V = Map<u128, V>;

    closed spec fn view(&self) -> Map<u128, V> {
        self.contents@
    }
}

impl<V: Copy> OrderedIndex<V> {
    /// The entries are sorted by key and are exactly the view's pairs.
    pub closed spec fn wf(&self) -> bool {
        &&& forall|i: int, j: int|
            0 <= i < j < self.entries@.len() ==> #[trigger] self.entries@[i].0
                < #[trigger] self.entries@[j].0
        &&& forall|i: int|
            0 <= i < self.entries@.len() ==> #[trigger] self.contents@.contains_key(
                self.entries@[i].0,
            ) && self.contents@[self.entries@[i].0] == self.entries@[i].1
        &&& forall|k: u128|
            #[trigger] self.contents@.contains_key(k) ==> exists|i: int|
                0 <= i < self.entries@.len() && #[trigger] self.entries@[i].0 == k
    }

    /// Number of entries.
    pub closed spec fn spec_len(&self) -> nat {
        self.entries@.len()
    }

    /// The key of the entry at position `i`.
    pub closed spec fn key_at(&self, i: int) -> u128 {
        self.entries@[i].0
    }

    /// Whether `i` is where `k` belongs: every key before it is smaller and every
    /// key from it on is larger.
    pub open spec fn is_cursor(&self, k: u128, i: int) -> bool {
        &&& 0 <= i <= self.spec_len()
        &&& forall|j: int| 0 <= j < i ==> #[trigger] self.key_at(j) < k
        &&& forall|j: int| i <= j < self.spec_len() ==> #[trigger] self.key_at(j) > k
    }

    pub proof fn lemma_keys_in_view(&self, i: int)
        requires
            self.wf(),
            0 <= i < self.spec_len(),
        ensures
            self@.contains_key(self.key_at(i)),
    {
    }

    /// A key with a cursor is absent.
    pub proof fn lemma_cursor_absent(&self, k: u128, i: int)
        requires
            self.wf(),
            self.is_cursor(k, i),
        ensures
            !self@.contains_key(k),
    {
        if self@.contains_key(k) {
            let j = choose|j: int| 0 <= j < self.entries@.len() && #[trigger] self.entries@[j].0 == k;
            assert(self.key_at(j) == k);
        }
    }

    /// An empty index.
    pub fn new() -> (r: Self)
        ensures
            r.wf(),
            r@ == Map::<u128, V>::empty(),
    {
        OrderedIndex { entries: Vec::new(), contents: Ghost(Map::empty()) }
    }

    /// Number of entries.
    pub fn len(&self) -> (r: usize)
        requires
            self.wf(),
        ensures
            r == self.spec_len(),
            r == self@.dom().len(),
    {
        proof {
            self.lemma_len();
        }
        self.entries.len()
    }

    proof fn lemma_len(&self)
        requires
            self.wf(),
        ensures
            self@.dom().finite(),
            self@.dom().len() == self.spec_len(),
    {
        let keys = self.entries@.map_values(|e: (u128, V)| e.0);
        assert(keys.no_duplicates()) by {
            assert forall|i: int, j: int|
                0 <= i < keys.len() && 0 <= j < keys.len() && i != j implies keys[i]
                != keys[j] by {
                if i < j {
                    assert(self.entries@[i].0 < self.entries@[j].0);
                } else {
                    assert(self.entries@[j].0 < self.entries@[i].0);
                }
            }
        }
        assert(keys.to_set() =~= self@.dom()) by {
            assert forall|k: u128| self@.dom().contains(k) implies keys.to_set().contains(k) by {
                let i = choose|i: int| 0 <= i < self.entries@.len() && self.entries@[i].0 == k;
                assert(keys[i] == k);
            }
        }
        keys.unique_seq_to_set();
    }

    /// Searches for `k`: its position if present, else where it would be inserted.
    pub fn search(&self, k: u128) -> (r: Searched)
        requires
            self.wf(),
        ensures
            match r {
                Searched::Found(i) => i < self.spec_len() && self.key_at(i as int) == k
                    && self@.contains_key(k),
                Searched::Vacant(i) => self.is_cursor(k, i as int) && !self@.contains_key(k),
            },
    {
        let mut lo: usize = 0;
        let mut hi: usize = self.entries.len();
        while lo < hi
            invariant
                self.wf(),
                0 <= lo <= hi <= self.entries@.len(),
                forall|j: int| 0 <= j < lo ==> #[trigger] self.key_at(j) < k,
                forall|j: int| hi <= j < self.entries@.len() ==> #[trigger] self.key_at(j) > k,
            decreases hi - lo,
        {
            let mid = lo + (hi - lo) / 2;
            let mk = self.entries[mid].0;
            if mk < k {
                assert forall|j: int| 0 <= j < mid + 1 implies #[trigger] self.key_at(j) < k by {
                    if j < mid {
                        assert(self.entries@[j].0 < self.entries@[mid as int].0);
                    }
                }
                lo = mid + 1;
            } else if mk > k {
                assert forall|j: int| mid <= j < self.entries@.len() implies #[trigger] self.key_at(j) > k by {
                    if j > mid {
                        assert(self.entries@[mid as int].0 < self.entries@[j].0);
                    }
                }
                hi = mid;
            } else {
                return Searched::Found(mid);
            }
        }
        assert(!self@.contains_key(k)) by {
            if self@.contains_key(k) {
                let i = choose|i: int| 0 <= i < self.entries@.len() && self.entries@[i].0 == k;
                assert(self.key_at(i) == k);
            }
        }
        Searched::Vacant(lo)
    }

    /// The value stored under `k`, if any.
    pub fn get(&self, k: u128) -> (r: Option<V>)
        requires
            self.wf(),
        ensures
            r == (if self@.contains_key(k) {
                Some(self@[k])
            } else {
                None
            }),
    {
        match self.search(k) {
            Searched::Found(i) => Some(self.entries[i].1),
            Searched::Vacant(_) => None,
        }
    }

    /// The value of the entry at position `i`.
    pub fn value_at(&self, i: usize) -> (r: V)
        requires
            self.wf(),
            i < self.spec_len(),
        ensures
            r == self@[self.key_at(i as int)],
    {
        proof {
            assert(self.contents@.contains_key(self.entries@[i as int].0));
        }
        self.entries[i].1
    }

    /// Inserts `k` at the cursor that a search for it returned.
    pub fn insert_at(&mut self, i: usize, k: u128, v: V)
        requires
            old(self).wf(),
            old(self).is_cursor(k, i as int),
        ensures
            final(self).wf(),
            final(self)@ == old(self)@.insert(k, v),
    {
        let ghost old_entries = self.entries@;
        let ghost old_map = self.contents@;
        assert(!old_map.contains_key(k)) by {
            if old_map.contains_key(k) {
                let j = choose|j: int| 0 <= j < old_entries.len() && old_entries[j].0 == k;
                assert(self.key_at(j) == k);
            }
        }
        assert forall|j: int| 0 <= j < i implies #[trigger] old_entries[j].0 < k by {
            assert(self.key_at(j) < k);
        }
        assert forall|j: int| i <= j < old_entries.len() implies #[trigger] old_entries[j].0 > k by {
            assert(self.key_at(j) > k);
        }
        self.entries.insert(i, (k, v));
        self.contents = Ghost(old_map.insert(k, v));
        assert forall|a: int, b: int|
            0 <= a < b < self.entries@.len() implies #[trigger] self.entries@[a].0
            < #[trigger] self.entries@[b].0 by {
            if a < i && b < i {
            } else if a < i && b == i {
                assert(old_entries[a].0 < k);
            } else if a < i {
                assert(old_entries[a].0 < old_entries[b - 1].0);
            } else if a == i {
                assert(old_entries[b - 1].0 > k);
            } else {
                assert(old_entries[a - 1].0 < old_entries[b - 1].0);
            }
        }
        assert forall|j: int| 0 <= j < self.entries@.len() implies #[trigger] self.contents@.contains_key(
            self.entries@[j].0,
        ) && self.contents@[self.entries@[j].0] == self.entries@[j].1 by {
            if j < i {
                assert(old_entries[j].0 != k);
            } else if j > i {
                assert(old_entries[j - 1].0 != k);
            }
        }
        assert forall|q: u128| #[trigger] self.contents@.contains_key(q) implies exists|j: int|
            0 <= j < self.entries@.len() && #[trigger] self.entries@[j].0 == q by {
            if q == k {
                assert(self.entries@[i as int].0 == k);
            } else {
                let j = choose|j: int| 0 <= j < old_entries.len() && old_entries[j].0 == q;
                if j < i {
                    assert(self.entries@[j].0 == q);
                } else {
                    assert(self.entries@[j + 1].0 == q);
                }
            }
        }
    }

    /// Removes the entry at position `i`.
    pub fn remove_at(&mut self, i: usize)
        requires
            old(self).wf(),
            i < old(self).spec_len(),
        ensures
            final(self).wf(),
            final(self)@ == old(self)@.remove(old(self).key_at(i as int)),
    {
        let ghost old_entries = self.entries@;
        let ghost old_map = self.contents@;
        let ghost k = old_entries[i as int].0;
        self.entries.remove(i);
        self.contents = Ghost(old_map.remove(k));
        assert forall|a: int, b: int|
            0 <= a < b < self.entries@.len() implies #[trigger] self.entries@[a].0
            < #[trigger] self.entries@[b].0 by {
            if a < i && b < i {
            } else if a < i {
                assert(old_entries[a].0 < old_entries[b + 1].0);
            } else {
                assert(old_entries[a + 1].0 < old_entries[b + 1].0);
            }
        }
        assert forall|j: int| 0 <= j < self.entries@.len() implies #[trigger] self.contents@.contains_key(
            self.entries@[j].0,
        ) && self.contents@[self.entries@[j].0] == self.entries@[j].1 by {
            if j < i {
                assert(old_entries[j].0 < k);
            } else {
                assert(old_entries[j + 1].0 > k);
            }
        }
        assert forall|q: u128| #[trigger] self.contents@.contains_key(q) implies exists|j: int|
            0 <= j < self.entries@.len() && #[trigger] self.entries@[j].0 == q by {
            let j = choose|j: int| 0 <= j < old_entries.len() && old_entries[j].0 == q;
            assert(j != i);
            if j < i {
                assert(self.entries@[j].0 == q);
            } else {
                assert(self.entries@[j - 1].0 == q);
            }
        }
    }
}

} // verus!
