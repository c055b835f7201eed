//! A fixed-size table of string pairs with one slot per bucket: a key shares
//! its slot with every other key that hashes to the same bucket, and the
//! latest insertion there wins.
use vstd::prelude::*;
use crate::hashing::{bucket_of, hash_to_index};

verus! {

/// A table of `size` slots, each empty or holding one key and its value.
pub struct HashMap {
    arr: Vec<Option<(String, String)>>,
    size: usize,
}

impl HashMap {
    /// The slots, in index order.
    pub closed spec fn slots(&self) -> Seq<Option<(String, String)>> {
        self.arr@
    }

    /// The number of slots the table was made with.
    pub closed spec fn spec_size(&self) -> nat {
        self.size as nat
    }

    /// One slot per bucket.
    pub closed spec fn wf(&self) -> bool {
        self.arr@.len() == self.size
    }

    /// Creates a table of `size` empty slots.
    pub fn new(size: usize) -> (r: Self)
        ensures
            r.wf(),
            r.spec_size() == size,
            forall|i: int| 0 <= i < size ==> #[trigger] r.slots()[i].is_none(),
    {
        let mut arr: Vec<Option<(String, String)>> = Vec::new();
        let mut i: usize = 0;
        while i < size
            invariant
                i <= size,
                arr@.len() == i,
                forall|j: int| 0 <= j < i ==> #[trigger] arr@[j].is_none(),
            decreases size - i,
        {
            arr.push(None);
            i = i + 1;
        }
        HashMap { arr, size }
    }

    /// Stores `key` and `value` in the key's slot, replacing whatever the slot
    /// held.
    pub fn insert(&mut self, key: String, value: String)
        requires
            old(self).wf(),
            old(self).spec_size() > 0,
        ensures
            final(self).wf(),
            final(self).spec_size() == old(self).spec_size(),
            final(self).slots() == old(self).slots().update(
                bucket_of(key@, old(self).spec_size()) as int,
                Some((key, value)),
            ),
    {
        let index = hash_to_index(key.as_str(), self.size);
        self.arr.set(index, Some((key, value)));
    }

    /// The value in the key's slot, whichever key put it there, or `None`
    /// when that slot is empty.
    pub fn get(&self, key: &str) -> (r: Option<&str>)
        requires
            self.wf(),
            self.spec_size() > 0,
        ensures
            ({
                let slot = self.slots()[bucket_of(key@, self.spec_size()) as int];
                &&& slot.is_none() ==> r.is_none()
                &&& slot.is_some() ==> r.is_some() && r.unwrap()@ == slot.unwrap().1@
            }),
    {
        let index = hash_to_index(key, self.size);
        match &self.arr[index] {
            Some(pair) => Some(pair.1.as_str()),
            None => None,
        }
    }

    /// Empties the key's slot and returns the value it held, whichever key put
    /// it there.
    pub fn remove(&mut self, key: &str) -> (r: Option<String>)
        requires
            old(self).wf(),
            old(self).spec_size() > 0,
        ensures
            final(self).wf(),
            final(self).spec_size() == old(self).spec_size(),
            ({
                let index = bucket_of(key@, old(self).spec_size()) as int;
                let slot = old(self).slots()[index];
                &&& final(self).slots() == old(self).slots().update(index, None)
                &&& slot.is_none() ==> r.is_none()
                &&& slot.is_some() ==> r == Some(slot.unwrap().1)
            }),
    {
        let index = hash_to_index(key, self.size);
        match self.arr[index].take() {
            Some(pair) => Some(pair.1),
            None => None,
        }
    }
}

} // verus!
