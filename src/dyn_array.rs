//! A growable array that tracks its logical length apart from its reserved
//! capacity, and grows that capacity by doubling.
use vstd::prelude::*;

verus! {

/// The capacity reserved after growing a full array of capacity `c`.
pub open spec fn grown_capacity(c: nat) -> nat {
    if c == 0 {
        1
    } else {
        2 * c
    }
}

/// The capacity that `k` pushes onto a fresh, empty array end with.
pub open spec fn capacity_after(k: nat) -> nat
    decreases k,
{
    if k == 0 {
        0
    } else if k - 1 == capacity_after((k - 1) as nat) {
        grown_capacity(capacity_after((k - 1) as nat))
    } else {
        capacity_after((k - 1) as nat)
    }
}

/// `n` is 1, 2, 4, 8, ...
pub open spec fn is_power_of_two(n: nat) -> bool
    decreases n,
{
    if n == 1 {
        true
    } else if n >= 2 && n % 2 == 0 {
        is_power_of_two(n / 2)
    } else {
        false
    }
}

/// After `k` pushes onto a fresh array the capacity is 0 when `k` is 0, and
/// otherwise a power of two no smaller than `k`.
pub proof fn lemma_capacity_after_pushes(k: nat)
    ensures
        capacity_after(k) >= k,
        k == 0 ==> capacity_after(k) == 0,
        k > 0 ==> is_power_of_two(capacity_after(k)),
    decreases k,
{
    if k > 0 {
        let c = capacity_after((k - 1) as nat);
        lemma_capacity_after_pushes((k - 1) as nat);
        if k - 1 == c && c > 0 {
            assert((2 * c) / 2 == c);
            assert(is_power_of_two(2 * c));
        }
    }
}

/// The contents after pushing each of `values`, in order, onto `s`.
pub open spec fn push_all<T>(s: Seq<T>, values: Seq<T>) -> Seq<T>
    decreases values.len(),
{
    if values.len() == 0 {
        s
    } else {
        push_all(s, values.drop_last()).push(values.last())
    }
}

/// The values that popping `s` until it is empty returns, in the order they
/// come out.
pub open spec fn pop_all<T>(s: Seq<T>) -> Seq<T>
    decreases s.len(),
{
    if s.len() == 0 {
        Seq::empty()
    } else {
        seq![s.last()] + pop_all(s.drop_last())
    }
}

/// `s` back to front.
pub open spec fn reversed<T>(s: Seq<T>) -> Seq<T> {
    Seq::new(s.len(), |i: int| s[s.len() - 1 - i])
}

/// Pushing `values` onto an empty array and then popping until it is empty
/// returns the values in reverse order.
pub proof fn lemma_push_pop_round_trip<T>(values: Seq<T>)
    ensures
        push_all(Seq::<T>::empty(), values) == values,
        pop_all(push_all(Seq::<T>::empty(), values)) == reversed(values),
    decreases values.len(),
{
    if values.len() > 0 {
        lemma_push_pop_round_trip(values.drop_last());
        assert(values.drop_last().push(values.last()) =~= values);
        assert(seq![values.last()] + reversed(values.drop_last()) =~= reversed(values));
    } else {
        assert(reversed(values) =~= Seq::<T>::empty());
    }
}

/// After `set` at a live index, that index reads the new value and every
/// other index reads what it read before.
pub proof fn lemma_set_then_get<T>(s: Seq<T>, index: int, value: T)
    requires
        0 <= index < s.len(),
    ensures
        s.update(index, value).len() == s.len(),
        s.update(index, value)[index] == value,
        forall|j: int| 0 <= j < s.len() && j != index ==> #[trigger] s.update(index, value)[j] == s[j],
{
}

/// A push, growing or not, leaves every earlier element at its index.
pub proof fn lemma_push_keeps_elements<T>(s: Seq<T>, value: T)
    ensures
        forall|j: int| 0 <= j < s.len() ==> #[trigger] s.push(value)[j] == s[j],
        s.push(value)[s.len() as int] == value,
{
}

/// A growable, contiguous array of `T`.
///
/// The live elements are exactly the first `len` slots; `capacity` counts the
/// slots reserved for them.
pub struct DynArray<T> {
    items: Vec<T>,
    capacity: usize,
}

impl<T> View for DynArray<T> {
    type V = Seq<T>;

    /// The live elements, in index order.
    closed spec fn view(&self) -> Seq<T> {
        self.items@
    }
}

impl<T> DynArray<T> {
    /// The number of reserved slots.
    pub closed spec fn spec_capacity(&self) -> nat {
        self.capacity as nat
    }

    /// The live elements never outnumber the reserved slots.
    pub closed spec fn wf(&self) -> bool {
        self.items@.len() <= self.capacity
    }

    /// Creates an empty array that has reserved nothing.
    pub fn new() -> (r: Self)
        ensures
            r.wf(),
            r@ == Seq::<T>::empty(),
            r.spec_capacity() == 0,
            r.spec_capacity() == capacity_after(r@.len()),
    {
        DynArray { items: Vec::new(), capacity: 0 }
    }

    /// Creates an empty array with exactly `capacity` reserved slots.
    pub fn with_capacity(capacity: usize) -> (r: Self)
        ensures
            r.wf(),
            r@ == Seq::<T>::empty(),
            r.spec_capacity() == capacity,
    {
        if capacity == 0 {
            Self::new()
        } else {
            DynArray { items: Vec::with_capacity(capacity), capacity }
        }
    }

    /// The number of live elements.
    pub fn len(&self) -> (r: usize)
        ensures
            r == self@.len(),
    {
        self.items.len()
    }

    /// The number of reserved slots.
    pub fn capacity(&self) -> (r: usize)
        ensures
            r == self.spec_capacity(),
    {
        self.capacity
    }

    /// Reserves `grown_capacity` slots in place of the current ones; the live
    /// elements keep their positions.
    fn grow(&mut self)
        requires
            old(self).wf(),
            grown_capacity(old(self).spec_capacity()) <= usize::MAX,
        ensures
            final(self).wf(),
            final(self)@ == old(self)@,
            final(self).spec_capacity() == grown_capacity(old(self).spec_capacity()),
    {
        let new_capacity: usize = if self.capacity == 0 {
            1
        } else {
            self.capacity * 2
        };
        let additional: usize = new_capacity - self.items.len();
        self.items.reserve(additional);
        self.capacity = new_capacity;
    }

    /// Appends `value` after the last live element, first growing the
    /// reserved slots when they are all live.
    pub fn push(&mut self, value: T)
        requires
            old(self).wf(),
            old(self)@.len() < old(self).spec_capacity() || grown_capacity(
                old(self).spec_capacity(),
            ) <= usize::MAX,
        ensures
            final(self).wf(),
            final(self)@ == old(self)@.push(value),
            final(self).spec_capacity() == if old(self)@.len() == old(self).spec_capacity() {
                grown_capacity(old(self).spec_capacity())
            } else {
                old(self).spec_capacity()
            },
            old(self).spec_capacity() == capacity_after(old(self)@.len())
                ==> final(self).spec_capacity() == capacity_after(final(self)@.len()),
    {
        if self.items.len() == self.capacity {
            self.grow();
        }
        self.items.push(value);
    }

    /// Removes and returns the last live element, or `None` when there is none.
    /// The reserved slots are kept.
    pub fn pop(&mut self) -> (r: Option<T>)
        requires
            old(self).wf(),
        ensures
            final(self).wf(),
            final(self).spec_capacity() == old(self).spec_capacity(),
            old(self)@.len() == 0 ==> r.is_none() && final(self)@ == old(self)@,
            old(self)@.len() > 0 ==> r == Some(old(self)@.last()) && final(self)@
                == old(self)@.drop_last(),
    {
        self.items.pop()
    }

    /// The live element at `index`, or `None` when `index` is not below the
    /// length.
    pub fn get(&self, index: usize) -> (r: Option<&T>)
        ensures
            index < self@.len() ==> r.is_some() && *r.unwrap() == self@[index as int],
            index >= self@.len() ==> r.is_none(),
    {
        if index < self.items.len() {
            Some(&self.items[index])
        } else {
            None
        }
    }

    /// A mutable borrow of the live element at `index`, or `None` when `index`
    /// is not below the length.
    pub fn get_mut(&mut self, index: usize) -> (r: Option<&mut T>)
        ensures
            final(self).spec_capacity() == old(self).spec_capacity(),
            index < old(self)@.len() ==> r.is_some() && *r.unwrap() == old(self)@[index as int]
                && final(self)@ == old(self)@.update(index as int, *final(r.unwrap())),
            index >= old(self)@.len() ==> r.is_none() && final(self)@ == old(self)@,
    {
        if index < self.items.len() {
            Some(&mut self.items[index])
        } else {
            None
        }
    }

    /// Replaces the live element at `index` with `value`; the previous one is
    /// dropped.
    pub fn set(&mut self, index: usize, value: T)
        requires
            old(self).wf(),
            index < old(self)@.len(),
        ensures
            final(self).wf(),
            final(self).spec_capacity() == old(self).spec_capacity(),
            final(self)@ == old(self)@.update(index as int, value),
    {
        let slot = self.get_mut(index);
        match slot {
            Some(elem) => {
                *elem = value;
            },
            None => {},
        }
    }

    /// A cursor over the live elements, from the first to the last.
    pub fn iter(&self) -> (r: DynArrayIter<'_, T>)
        ensures
            r.remaining() == self@,
    {
        DynArrayIter { array: self, index: 0 }
    }
}

/// A forward cursor over the live elements of a `DynArray`.
pub struct DynArrayIter<'a, T> {
    array: &'a DynArray<T>,
    index: usize,
}

impl<'a, T> DynArrayIter<'a, T> {
    /// The elements that the cursor has still to hand out, in order.
    pub closed spec fn remaining(&self) -> Seq<T> {
        self.array@.subrange(
            if self.index <= self.array@.len() {
                self.index as int
            } else {
                self.array@.len() as int
            },
            self.array@.len() as int,
        )
    }

    /// Hands out the next element, or `None` once every element has been
    /// handed out.
    pub fn next(&mut self) -> (r: Option<&'a T>)
        ensures
            old(self).remaining().len() == 0 ==> r.is_none() && final(self).remaining()
                == old(self).remaining(),
            old(self).remaining().len() > 0 ==> r.is_some() && *r.unwrap() == old(
                self,
            ).remaining()[0] && final(self).remaining() == old(self).remaining().drop_first(),
    {
        if self.index < self.array.len() {
            let item = self.array.get(self.index);
            self.index = self.index + 1;
            item
        } else {
            None
        }
    }
}

} // verus!
