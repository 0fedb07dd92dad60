//! A singly linked list with an owned node chain.
//!
//! Each node owns the next through a `Box`, and the list keeps an explicit
//! element count beside the chain.  The list is modelled as the sequence
//! of its values from front to back.

use vstd::prelude::*;

verus! {

struct Node<T> {
    value: T,
    next: Option<Box<Node<T>>>,
}

/// A singly linked list of `T` values.
pub struct LinkedList<T> {
    head: Option<Box<Node<T>>>,
    size: usize,
}

/// The values stored in an owned node chain, from front to back.
spec fn chain_seq<T>(node: &Option<Box<Node<T>>>) -> Seq<T>
    decreases node,
{
    match node {
        Option::None => Seq::empty(),
        Option::Some(n) => seq![n.value] + chain_seq(&n.next),
    }
}

impl<T> Node<T> {
    fn new(value: T) -> (n: Node<T>)
        ensures
            n.value == value,
            n.next is None,
    {
        Node { value, next: None }
    }
}

impl<T> View for LinkedList<T> {
    type V = Seq<T>;

    closed spec fn view(&self) -> Seq<T> {
        chain_seq(&self.head)
    }
}

impl<T> LinkedList<T> {
    /// The stored count agrees with the length of the node chain.
    pub closed spec fn wf(&self) -> bool {
        self.size == self@.len()
    }

    /// Creates an empty list.
    pub fn new() -> (l: LinkedList<T>)
        ensures
            l.wf(),
            l@ == Seq::<T>::empty(),
    {
        LinkedList { head: None, size: 0 }
    }

    /// The number of values in the list.
    pub fn get_size(&self) -> (s: usize)
        requires
            self.wf(),
        ensures
            s == self@.len(),
    {
        self.size
    }

    /// Whether the list holds no values.
    pub fn is_empty(&self) -> (e: bool)
        requires
            self.wf(),
        ensures
            e == (self@.len() == 0),
    {
        self.size == 0
    }

    /// Adds a value at the front of the list.
    pub fn push_front(&mut self, value: T)
        requires
            old(self).wf(),
            old(self)@.len() < usize::MAX,
        ensures
            final(self).wf(),
            final(self)@ == seq![value] + old(self)@,
    {
        let next = self.head.take();
        let new_node = Box::new(Node { value, next });
        self.head = Some(new_node);
        self.size = self.size + 1;
    }

    /// Removes and returns the front value, or `None` if the list is
    /// empty.
    pub fn pop_front(&mut self) -> (v: Option<T>)
        requires
            old(self).wf(),
        ensures
            final(self).wf(),
            old(self)@.len() == 0 ==> v is None && final(self)@ == old(self)@,
            old(self)@.len() > 0 ==> v == Some(old(self)@[0]) && final(self)@ == old(
                self,
            )@.drop_first(),
    {
        match self.head.take() {
            None => None,
            Some(node) => {
                let boxed = *node;
                self.head = boxed.next;
                self.size = self.size - 1;
                proof {
                    assert(old(self)@.drop_first() =~= self@);
                }
                Some(boxed.value)
            },
        }
    }
}

} // verus!
