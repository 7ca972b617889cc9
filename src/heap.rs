use vstd::prelude::*;

verus! {

/// Storage for records addressed by numeric identifiers. Identifiers of removed
/// records are handed out again.
pub struct Heap<T> {
    slots: Vec<Option<T>>,
    free: Vec<u64>,
    contents: Ghost<Map<u64, T>>,
}

impl<T> View for Heap<T> {
    type V = Map<u64, T>;

    closed spec fn view(&self) -> Map<u64, T> {
        self.contents@
    }
}

impl<T> Heap<T> {
    /// The slots hold exactly the view's records, and the free list names distinct
    /// empty slots.
    pub closed spec fn wf(&self) -> bool {
        &&& forall|id: u64|
            #[trigger] self.contents@.contains_key(id) <==> (id < self.slots@.len()
                && self.slots@[id as int].is_some())
        &&& forall|id: u64|
            #[trigger] self.contents@.contains_key(id) ==> self.slots@[id as int] == Some(
                self.contents@[id],
            )
        &&& forall|i: int|
            0 <= i < self.free@.len() ==> #[trigger] self.free@[i] < self.slots@.len()
                && self.slots@[self.free@[i] as int].is_none()
        &&& self.free@.no_duplicates()
    }

    /// An empty heap.
    pub fn new() -> (r: Self)
        ensures
            r.wf(),
            r@ == Map::<u64, T>::empty(),
    {
        Heap { slots: Vec::new(), free: Vec::new(), contents: Ghost(Map::empty()) }
    }

    /// Stores `rec` under an identifier that no present record has, and returns it.
    pub fn add(&mut self, rec: T) -> (id: u64)
        requires
            old(self).wf(),
        ensures
            final(self).wf(),
            !old(self)@.contains_key(id),
            final(self)@ == old(self)@.insert(id, rec),
    {
        let ghost old_map = self.contents@;
        let ghost old_free = self.free@;
        match self.free.pop() {
            Some(f) => {
                proof {
                    assert(old_free[old_free.len() - 1] == f);
                    assert(old_free.drop_last() =~= self.free@);
                    assert forall|a: int, b: int|
                        0 <= a < b < self.free@.len() implies self.free@[a] != self.free@[b] by {
                        assert(old_free[a] != old_free[b]);
                    }
                    assert forall|i: int| 0 <= i < self.free@.len() implies self.free@[i] != f by {
                        assert(old_free[i] != old_free[old_free.len() - 1]);
                    }
                }
                let idx = f as usize;
                self.slots.set(idx, Some(rec));
                self.contents = Ghost(old_map.insert(f, rec));
                f
            },
            None => {
                let id = self.slots.len() as u64;
                self.slots.push(Some(rec));
                self.contents = Ghost(old_map.insert(id, rec));
                id
            },
        }
    }

    /// The record stored under `id`, if any.
    pub fn get(&self, id: u64) -> (r: Option<&T>)
        requires
            self.wf(),
        ensures
            r.is_some() == self@.contains_key(id),
            r.is_some() ==> *r.unwrap() == self@[id],
    {
        if id < self.slots.len() as u64 {
            match &self.slots[id as usize] {
                Some(t) => Some(t),
                None => None,
            }
        } else {
            None
        }
    }

    /// Removes the record stored under `id`; returns whether there was one.
    pub fn remove(&mut self, id: u64) -> (r: bool)
        requires
            old(self).wf(),
        ensures
            final(self).wf(),
            r == old(self)@.contains_key(id),
            final(self)@ == old(self)@.remove(id),
    {
        let ghost old_map = self.contents@;
        if id < self.slots.len() as u64 && self.slots[id as usize].is_some() {
            let ghost old_free = self.free@;
            self.slots.set(id as usize, None);
            self.free.push(id);
            self.contents = Ghost(old_map.remove(id));
            proof {
                assert forall|a: int, b: int|
                    0 <= a < b < self.free@.len() implies self.free@[a] != self.free@[b] by {
                    if b == old_free.len() {
                        assert(old_map.contains_key(id));
                    } else {
                        assert(old_free[a] != old_free[b]);
                    }
                }
                assert forall|i: int| 0 <= i < self.free@.len() implies #[trigger] self.free@[i]
                    < self.slots@.len() && self.slots@[self.free@[i] as int].is_none() by {
                    if i < old_free.len() {
                        assert(self.free@[i] == old_free[i]);
                    }
                }
            }
            true
        } else {
            assert(self.contents@ =~= old_map.remove(id));
            false
        }
    }
}

} // verus!
