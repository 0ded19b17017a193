//! The unit of storage: one value and an owning link to the next node.

use vstd::prelude::*;

verus! {

/// Release of an owned, unlinked node handle.
///
/// Consuming the handle frees the node (and anything still hanging from its
/// link), so a node handed to `raw_dump_drop` is released exactly once and
/// can never be reached again.
pub trait RawDroppable: Sized {
    fn raw_dump_drop(self);
}

/// Read access to a node's payload and links.
pub trait Nodal<T: Copy>: Sized {
    /// The stored payload, as a mathematical value.
    spec fn val(&self) -> T;

    /// The owned successor link, as a mathematical value.
    spec fn succ(&self) -> Option<Box<Node<T>>>;

    /// The successor link (empty on the last node of a chain).
    fn next(&self) -> (link: &Option<Box<Node<T>>>)
        ensures
            *link == self.succ(),
    ;

    /// Predecessor tracking is not supported: the structure is strictly
    /// forward-linked, and this accessor always reports the empty link.
    fn prev(&self) -> (link: Option<&Node<T>>)
        ensures
            link is None,
    ;

    /// A copy of the stored payload.
    fn value(&self) -> (v: T)
        ensures
            v == self.val(),
    ;
}

/// One list node: a payload plus the owning link to its successor.
pub struct Node<T: Copy> {
    pub(crate) next: Option<Box<Node<T>>>,
    pub(crate) value: T,
}

/// The sequence of values stored in the chain hanging from `link`,
/// front to back.
pub(crate) open spec fn link_seq<T: Copy>(link: Option<Box<Node<T>>>) -> Seq<T>
    decreases link,
{
    match link {
        None => Seq::empty(),
        Some(node) => seq![node.value] + link_seq(node.next),
    }
}

impl<T: Copy> Node<T> {
    /// Allocates a fresh node holding `value`, with an empty successor link.
    pub fn new(value: T) -> (node: Box<Node<T>>)
        ensures
            node.val() == value,
            node.succ() is None,
    {
        Box::new(Node { value, next: None })
    }
}

impl<T: Copy> Nodal<T> for Node<T> {
    closed spec fn val(&self) -> T {
        self.value
    }

    closed spec fn succ(&self) -> Option<Box<Node<T>>> {
        self.next
    }

    fn next(&self) -> (link: &Option<Box<Node<T>>>) {
        &self.next
    }

    fn prev(&self) -> (link: Option<&Node<T>>) {
        None
    }

    fn value(&self) -> (v: T) {
        self.value
    }
}

impl<T: Copy + Default> Default for Node<T> {
    /// A fresh node holding `T`'s default value, with an empty successor link.
    fn default() -> (node: Node<T>)
        ensures
            node.succ() is None,
            call_ensures(T::default, (), node.val()),
    {
        Node { value: T::default(), next: None }
    }
}

impl<T: Copy> RawDroppable for Box<Node<T>> {
    /// Takes ownership of the node and lets it go out of scope, which frees
    /// it together with any chain still hanging from its link.
    fn raw_dump_drop(self) {
        let _ = self;
    }
}

} // verus!
