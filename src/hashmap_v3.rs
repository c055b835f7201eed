//! A fixed number of buckets, each a list of entries in insertion order;
//! string keys select their bucket by hash.
use vstd::prelude::*;
use crate::hashing::{bucket_of, hash_to_index};

verus! {

/// `j` is the first position in `entries` whose key is `k`.
pub open spec fn first_match<V>(entries: Seq<(String, V)>, k: Seq<char>, j: int) -> bool {
    &&& 0 <= j < entries.len()
    &&& entries[j].0@ == k
    &&& forall|i: int| 0 <= i < j ==> (#[trigger] entries[i]).0@ != k
}

/// No entry of `entries` has the key `k`.
pub open spec fn no_match<V>(entries: Seq<(String, V)>, k: Seq<char>) -> bool {
    forall|i: int| 0 <= i < entries.len() ==> (#[trigger] entries[i]).0@ != k
}

/// A table of `size` buckets of key-value entries.
pub struct HashMap<V> {
    buckets: Vec<Vec<(String, V)>>,
    size: usize,
}

impl<V> HashMap<V> {
    /// The entries of bucket `i`, oldest first.
    pub closed spec fn bucket(&self, i: int) -> Seq<(String, V)> {
        self.buckets@[i]@
    }

    /// The number of buckets the table was made with.
    pub closed spec fn spec_size(&self) -> nat {
        self.size as nat
    }

    /// One list per bucket.
    pub closed spec fn wf(&self) -> bool {
        self.buckets@.len() == self.size
    }

    /// Creates a table of `size` empty buckets.
    pub fn new(size: usize) -> (r: Self)
        ensures
            r.wf(),
            r.spec_size() == size,
            forall|i: int| 0 <= i < size ==> #[trigger] r.bucket(i).len() == 0,
    {
        let mut buckets: Vec<Vec<(String, V)>> = Vec::new();
        let mut i: usize = 0;
        while i < size
            invariant
                i <= size,
                buckets@.len() == i,
                forall|j: int| 0 <= j < i ==> (#[trigger] buckets@[j])@.len() == 0,
            decreases size - i,
        {
            buckets.push(Vec::new());
            i = i + 1;
        }
        HashMap { buckets, size }
    }

    /// Appends the entry to the end of the key's bucket; an older entry with
    /// the same key stays in front of it.
    pub fn insert(&mut self, key: String, value: V)
        requires
            old(self).wf(),
            old(self).spec_size() > 0,
        ensures
            final(self).wf(),
            final(self).spec_size() == old(self).spec_size(),
            ({
                let index = bucket_of(key@, old(self).spec_size()) as int;
                &&& final(self).bucket(index) == old(self).bucket(index).push((key, value))
                &&& forall|i: int|
                    0 <= i < old(self).spec_size() && i != index ==> #[trigger] final(self).bucket(i)
                        == old(self).bucket(i)
            }),
    {
        let index = hash_to_index(key.as_str(), self.size);
        self.buckets[index].push((key, value));
    }

    /// The value of the oldest entry with this key, or `None` when no entry
    /// has it.
    pub fn get(&self, key: &String) -> (r: Option<&V>)
        requires
            self.wf(),
            self.spec_size() > 0,
        ensures
            ({
                let entries = self.bucket(bucket_of(key@, self.spec_size()) as int);
                &&& r.is_none() <==> no_match(entries, key@)
                &&& r.is_some() ==> exists|j: int|
                    first_match(entries, key@, j) && *r.unwrap() == (#[trigger] entries[j]).1
            }),
    {
        let index = hash_to_index(key.as_str(), self.size);
        let entries = &self.buckets[index];
        let mut j: usize = 0;
        while j < entries.len()
            invariant
                j <= entries@.len(),
                entries@ == self.bucket(index as int),
                index == bucket_of(key@, self.spec_size()),
                no_match(entries@.subrange(0, j as int), key@),
            decreases entries@.len() - j,
        {
            if entries[j].0 == *key {
                assert(first_match(entries@, key@, j as int)) by {
                    assert forall|i: int| 0 <= i < j implies (#[trigger] entries@[i]).0@ != key@ by {
                        assert(entries@.subrange(0, j as int)[i] == entries@[i]);
                    }
                }
                let value = &entries[j].1;
                assert(exists|j0: int|
                    first_match(entries@, key@, j0) && *value == (#[trigger] entries@[j0]).1);
                return Some(value);
            }
            assert(entries@.subrange(0, j + 1).drop_last() =~= entries@.subrange(0, j as int));
            j = j + 1;
        }
        assert(entries@.subrange(0, j as int) =~= entries@);
        None
    }

    /// Removes the oldest entry with this key and returns its value, or
    /// returns `None` and changes nothing when no entry has it.
    pub fn remove(&mut self, key: &String) -> (r: Option<V>)
        requires
            old(self).wf(),
            old(self).spec_size() > 0,
        ensures
            final(self).wf(),
            final(self).spec_size() == old(self).spec_size(),
            ({
                let index = bucket_of(key@, old(self).spec_size()) as int;
                let entries = old(self).bucket(index);
                &&& r.is_none() <==> no_match(entries, key@)
                &&& r.is_none() ==> final(self).bucket(index) == entries
                &&& r.is_some() ==> exists|j: int|
                    first_match(entries, key@, j) && r == Some((#[trigger] entries[j]).1)
                        && final(self).bucket(index) == entries.remove(j)
                &&& forall|i: int|
                    0 <= i < old(self).spec_size() && i != index ==> #[trigger] final(self).bucket(i)
                        == old(self).bucket(i)
            }),
    {
        let index = hash_to_index(key.as_str(), self.size);
        let mut j: usize = 0;
        let len = self.buckets[index].len();
        while j < len
            invariant
                self == old(self),
                old(self).wf(),
                index == bucket_of(key@, old(self).spec_size()),
                index < self.buckets@.len(),
                len == self.buckets@[index as int]@.len(),
                j <= len,
                no_match(self.buckets@[index as int]@.subrange(0, j as int), key@),
            decreases len - j,
        {
            if self.buckets[index][j].0 == *key {
                let ghost entries = self.buckets@[index as int]@;
                assert(first_match(entries, key@, j as int)) by {
                    assert forall|i: int| 0 <= i < j implies (#[trigger] entries[i]).0@ != key@ by {
                        assert(entries.subrange(0, j as int)[i] == entries[i]);
                    }
                }
                let bucket = &mut self.buckets[index];
                let removed = bucket.remove(j);
                assert(self.buckets@.len() == old(self).buckets@.len());
                assert(self.buckets@[index as int]@ == entries.remove(j as int));

                return Some(removed.1);
            }
            let ghost entries = self.buckets@[index as int]@;
            assert(entries.subrange(0, j + 1).drop_last() =~= entries.subrange(0, j as int));
            j = j + 1;
        }
        assert(self.buckets@[index as int]@.subrange(0, j as int) =~= self.buckets@[index as int]@);
        None
    }
}

} // verus!
