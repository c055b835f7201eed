//! A singly linked list of boxed nodes.
use vstd::prelude::*;

verus! {

/// One node: a value and the rest of the list.
pub struct Node<T> {
    data: T,
    next: Option<Box<Node<T>>>,
}

/// The values held from `link` onwards, front first.
pub closed spec fn link_values<T>(link: Option<Box<Node<T>>>) -> Seq<T>
    decreases link,
{
    match link {
        None => Seq::empty(),
        Some(node) => seq![node.data] + link_values(node.next),
    }
}

/// Appends `value` after the last node reachable from `link`.
fn append<T>(link: Option<Box<Node<T>>>, value: T) -> (r: Option<Box<Node<T>>>)
    ensures
        link_values(r) == link_values(link).push(value),
    decreases link,
{
    match link {
        None => Some(Box::new(Node { data: value, next: None })),
        Some(node) => {
            let node = *node;
            let rest = append(node.next, value);
            proof {
                assert(seq![node.data] + link_values(node.next).push(value) =~= (seq![node.data]
                    + link_values(node.next)).push(value));
            }
            Some(Box::new(Node { data: node.data, next: rest }))
        },
    }
}

/// A singly linked list, front first.
pub struct LinkedList<T> {
    head: Option<Box<Node<T>>>,
}

impl<T> View for LinkedList<T> {
    type V = Seq<T>;

    /// The values, front first.
    closed spec fn view(&self) -> Seq<T> {
        link_values(self.head)
    }
}

impl<T> LinkedList<T> {
    /// Creates an empty list.
    pub fn new() -> (r: Self)
        ensures
            r@ == Seq::<T>::empty(),
    {
        LinkedList { head: None }
    }

    /// Puts `value` in front of the first value.
    pub fn push_front(&mut self, value: T)
        ensures
            final(self)@ == seq![value] + old(self)@,
    {
        let rest = self.head.take();
        self.head = Some(Box::new(Node { data: value, next: rest }));
    }

    /// Puts `value` after the last value.
    pub fn push_back(&mut self, value: T)
        ensures
            final(self)@ == old(self)@.push(value),
    {
        let list = self.head.take();
        self.head = append(list, value);
    }

    /// Removes and returns the first value, or `None` when the list is empty.
    pub fn pop_front(&mut self) -> (r: Option<T>)
        ensures
            old(self)@.len() == 0 ==> r.is_none() && final(self)@ == old(self)@,
            old(self)@.len() > 0 ==> r == Some(old(self)@[0]) && final(self)@ == old(
                self,
            )@.drop_first(),
    {
        match self.head.take() {
            Some(node) => {
                let node = *node;
                proof {
                    assert(link_values(node.next) =~= old(self)@.drop_first());
                }
                self.head = node.next;
                Some(node.data)
            },
            None => None,
        }
    }

    /// Borrows of the values, front first.
    pub fn items(&self) -> (r: Vec<&T>)
        ensures
            r@.len() == self@.len(),
            forall|i: int| 0 <= i < r@.len() ==> *(#[trigger] r@[i]) == self@[i],
    {
        let mut out: Vec<&T> = Vec::new();
        let mut current: &Option<Box<Node<T>>> = &self.head;
        while current.is_some()
            invariant
                out@.len() + link_values(*current).len() == self@.len(),
                forall|i: int| 0 <= i < out@.len() ==> *(#[trigger] out@[i]) == self@[i],
                forall|i: int|
                    0 <= i < link_values(*current).len() ==> #[trigger] link_values(*current)[i]
                        == self@[out@.len() + i],
            decreases link_values(*current).len(),
        {
            match current {
                Some(node) => {
                    proof {
                        assert(link_values(*current)[0] == node.data);
                        assert forall|i: int| 0 <= i < link_values(node.next).len() implies #[trigger] link_values(node.next)[i] == self@[out@.len() + 1 + i] by {
                            assert(link_values(node.next)[i] == link_values(*current)[i + 1]);
                        }
                    }
                    out.push(&node.data);
                    current = &node.next;
                },
                None => {},
            }
        }
        out
    }
}

} // verus!
