//! The container: a head link, a cached length, and the operations.

use vstd::prelude::*;

use crate::node::{link_seq, Node, RawDroppable};

verus! {

/// The operations of the list, specified against a sequence view.
///
/// `model()` is the sequence of stored values, front to back; `inv()` is the
/// container's well-formedness. Note the historical orientation of the two
/// pop operations: `pop_head` removes the *last* element of the chain and
/// `pop_tail` removes the *first* (the current head).
pub trait Linkable<T: Copy + PartialEq>: Sized {
    /// The values held by the container, front to back.
    spec fn model(&self) -> Seq<T>;

    /// Well-formedness: the cached length agrees with the chain.
    spec fn inv(&self) -> bool;

    /// Linear scan from the head; true exactly when some remaining element
    /// equals `target`. Callable for any `T` whose `==` agrees with logical
    /// equality, which every primitive type does.
    fn contains(&mut self, target: T) -> (found: bool)
        requires
            old(self).inv(),
            vstd::laws_eq::obeys_concrete_eq::<T>(),
        ensures
            *final(self) == *old(self),
            found == old(self).model().contains(target),
    ;

    /// Inserts `value` as element `index`, shifting the rest back; positions
    /// `0..=len` are valid, inserting at `len` appends, and any larger index
    /// leaves the list untouched.
    fn insert_at(&mut self, index: usize, value: T)
        requires
            old(self).inv(),
            old(self).model().len() < usize::MAX,
        ensures
            final(self).inv(),
            index <= old(self).model().len() ==> final(self).model()
                == old(self).model().insert(index as int, value),
            index > old(self).model().len() ==> *final(self) == *old(self),
    ;

    /// True exactly when the list holds no node.
    fn is_empty(&self) -> (empty: bool)
        requires
            self.inv(),
        ensures
            empty <==> self.model().len() == 0,
    ;

    /// The cached node count, without traversal.
    fn len(&self) -> (n: usize)
        requires
            self.inv(),
        ensures
            n == self.model().len(),
    ;

    /// Removes and returns the value of the *last* node of the chain, or
    /// reports absence on an empty list.
    fn pop_head(&mut self) -> (popped: Option<T>)
        requires
            old(self).inv(),
        ensures
            final(self).inv(),
            old(self).model().len() == 0 ==> popped is None && *final(self) == *old(self),
            old(self).model().len() > 0 ==> popped == Some(old(self).model().last())
                && final(self).model() == old(self).model().drop_last(),
    ;

    /// Removes and returns the value of the *first* node of the chain (the
    /// current head), or reports absence on an empty list.
    fn pop_tail(&mut self) -> (popped: Option<T>)
        requires
            old(self).inv(),
        ensures
            final(self).inv(),
            old(self).model().len() == 0 ==> popped is None && *final(self) == *old(self),
            old(self).model().len() > 0 ==> popped == Some(old(self).model().first())
                && final(self).model() == old(self).model().drop_first(),
    ;

    /// Appends a new node holding `value` after walking to the end of the
    /// chain.
    fn push_back(&mut self, value: T)
        requires
            old(self).inv(),
            old(self).model().len() < usize::MAX,
        ensures
            final(self).inv(),
            final(self).model() == old(self).model().push(value),
    ;

    /// Prepends a new node holding `value`; the old head becomes its
    /// successor.
    fn push_front(&mut self, value: T)
        requires
            old(self).inv(),
            old(self).model().len() < usize::MAX,
        ensures
            final(self).inv(),
            final(self).model() == seq![value] + old(self).model(),
    ;

    /// Removes and returns element `index`, shifting the rest forward, or
    /// reports absence when `index` is out of range.
    fn remove_at(&mut self, index: usize) -> (removed: Option<T>)
        requires
            old(self).inv(),
        ensures
            final(self).inv(),
            index < old(self).model().len() ==> removed == Some(old(self).model()[index as int])
                && final(self).model() == old(self).model().remove(index as int),
            index >= old(self).model().len() ==> removed is None && *final(self) == *old(self),
    ;
}

/// The list: an owning head link and a cached node count.
pub struct JankedList<T: Copy> {
    head: Option<Box<Node<T>>>,
    len: usize,
}

impl<T: Copy> JankedList<T> {
    /// The values held by the list, front to back.
    pub closed spec fn as_seq(&self) -> Seq<T> {
        link_seq(self.head)
    }

    /// The cached length agrees with the number of reachable nodes.
    pub closed spec fn wf(&self) -> bool {
        self.len == link_seq(self.head).len()
    }

    /// Creates an empty list.
    pub fn new() -> (list: JankedList<T>)
        ensures
            list.wf(),
            list.as_seq() == Seq::<T>::empty(),
    {
        JankedList { len: 0, head: None }
    }

    /// Counts the nodes by a full traversal of the chain.
    pub fn traverse_count(&self) -> (n: usize)
        requires
            self.wf(),
        ensures
            n == self.as_seq().len(),
    {
        let mut count: usize = 0;
        let mut curr: &Option<Box<Node<T>>> = &self.head;
        loop
            invariant
                self.wf(),
                count + link_seq(*curr).len() == link_seq(self.head).len(),
            decreases link_seq(*curr).len(),
        {
            match curr {
                None => {
                    return count;
                },
                Some(node) => {
                    count = count + 1;
                    curr = &node.next;
                },
            }
        }
    }
}

impl<T: Copy> Default for JankedList<T> {
    /// An empty list.
    fn default() -> (list: Self)
        ensures
            list.wf(),
            list.as_seq() == Seq::<T>::empty(),
    {
        Self::new()
    }
}

impl<T: Copy> View for JankedList<T> {
    type V = Seq<T>;

    open spec fn view(&self) -> Seq<T> {
        self.as_seq()
    }
}

impl<T: Copy + PartialEq> Linkable<T> for JankedList<T> {
    open spec fn model(&self) -> Seq<T> {
        self.as_seq()
    }

    open spec fn inv(&self) -> bool {
        self.wf()
    }

    fn is_empty(&self) -> (empty: bool) {
        self.head.is_none()
    }

    fn len(&self) -> (n: usize) {
        self.len
    }

    fn contains(&mut self, target: T) -> (found: bool) {
        if self.is_empty() {
            return false;
        }
        let mut curr: &Option<Box<Node<T>>> = &self.head;
        loop
            invariant
                vstd::laws_eq::obeys_concrete_eq::<T>(),
                link_seq(self.head).contains(target) <==> link_seq(*curr).contains(target),
            decreases link_seq(*curr).len(),
        {
            match curr {
                None => {
                    return false;
                },
                Some(node) => {
                    let hit = node.value == target;
                    proof {
                        reveal(vstd::laws_eq::obeys_concrete_eq);
                        if hit {
                            assert(link_seq(*curr)[0] == target);
                        } else {
                            if link_seq(node.next).contains(target) {
                                let j = choose|j: int|
                                    0 <= j < link_seq(node.next).len() && link_seq(node.next)[j]
                                        == target;
                                assert(link_seq(*curr)[j + 1] == target);
                            }
                            if link_seq(*curr).contains(target) {
                                let i = choose|i: int|
                                    0 <= i < link_seq(*curr).len() && link_seq(*curr)[i] == target;
                                assert(link_seq(node.next)[i - 1] == target);
                            }
                        }
                    }
                    if hit {
                        return true;
                    }
                    curr = &node.next;
                },
            }
        }
    }

    fn push_front(&mut self, value: T) {
        let next = self.head.take();
        self.head = Some(Box::new(Node { value, next }));
        self.len = self.len + 1;
        proof {
            assert(self.as_seq() =~= seq![value] + old(self).as_seq());
        }
    }

    fn pop_tail(&mut self) -> (popped: Option<T>) {
        if self.is_empty() {
            return None;
        }
        let mut old_head = self.head.take().unwrap();
        let value = old_head.value;
        self.head = old_head.next.take();
        old_head.raw_dump_drop();
        self.len = self.len - 1;
        proof {
            assert(old(self).as_seq() =~= seq![value] + link_seq(self.head));
            assert(self.as_seq() =~= old(self).as_seq().drop_first());
        }
        Some(value)
    }

    fn push_back(&mut self, value: T) {
        self.len = self.len + 1;
        push_link(&mut self.head, value);
    }

    fn pop_head(&mut self) -> (popped: Option<T>) {
        if self.is_empty() {
            return None;
        }
        self.len = self.len - 1;
        let value = pop_last_link(&mut self.head);
        Some(value)
    }

    fn insert_at(&mut self, index: usize, value: T) {
        if index > self.len {
            return;
        }
        let grown = insert_link(&mut self.head, index, value);
        if grown {
            self.len = self.len + 1;
        }
    }

    fn remove_at(&mut self, index: usize) -> (removed: Option<T>) {
        if self.is_empty() || index >= self.len {
            return None;
        }
        let removed = remove_link(&mut self.head, index);
        if removed.is_some() {
            self.len = self.len - 1;
        }
        removed
    }
}

/// Appends a node holding `value` at the end of the chain.
fn push_link<T: Copy>(link: &mut Option<Box<Node<T>>>, value: T)
    ensures
        link_seq(*final(link)) == link_seq(*old(link)).push(value),
    decreases *old(link),
{
    match link.take() {
        None => {
            *link = Some(Box::new(Node { value, next: None }));
            proof {
                assert(link_seq(*link) =~= link_seq(*old(link)).push(value));
            }
        },
        Some(mut boxed) => {
            push_link(&mut boxed.next, value);
            *link = Some(boxed);
            proof {
                assert(link_seq(*link) =~= link_seq(*old(link)).push(value));
            }
        },
    }
}

/// Unlinks and releases the last node of a non-empty chain, returning its value.
fn pop_last_link<T: Copy>(link: &mut Option<Box<Node<T>>>) -> (value: T)
    requires
        link_seq(*old(link)).len() > 0,
    ensures
        value == link_seq(*old(link)).last(),
        link_seq(*final(link)) == link_seq(*old(link)).drop_last(),
    decreases *old(link),
{
    let mut boxed = link.take().unwrap();
    if boxed.next.is_none() {
        let value = boxed.value;
        proof {
            assert(link_seq(boxed.next) =~= Seq::<T>::empty());
            assert(link_seq(*old(link)) =~= seq![value]);
        }
        boxed.raw_dump_drop();
        proof {
            assert(link_seq(*link) =~= link_seq(*old(link)).drop_last());
        }
        value
    } else {
        let value = pop_last_link(&mut boxed.next);
        *link = Some(boxed);
        proof {
            assert(link_seq(*link) =~= link_seq(*old(link)).drop_last());
            assert(link_seq(*old(link)).last() == value);
        }
        value
    }
}

/// Splices a node holding `value` in as element `index` of the chain.
///
/// Reports whether the chain grew; when the chain runs out before the
/// requested position (never the case for a well-formed list), it is left
/// unchanged and the call reports failure instead.
fn insert_link<T: Copy>(link: &mut Option<Box<Node<T>>>, index: usize, value: T) -> (grown: bool)
    ensures
        index <= link_seq(*old(link)).len() ==> grown
            && link_seq(*final(link)) == link_seq(*old(link)).insert(index as int, value),
        index > link_seq(*old(link)).len() ==> !grown && *final(link) == *old(link),
    decreases index,
{
    if index == 0 {
        let next = link.take();
        *link = Some(Box::new(Node { value, next }));
        proof {
            assert(link_seq(*link) =~= link_seq(*old(link)).insert(0, value));
        }
        true
    } else {
        match link.take() {
            None => false,
            Some(mut boxed) => {
                let grown = insert_link(&mut boxed.next, index - 1, value);
                *link = Some(boxed);
                proof {
                    if index <= link_seq(*old(link)).len() {
                        assert(link_seq(*link) =~= link_seq(*old(link)).insert(
                            index as int,
                            value,
                        ));
                    }
                }
                grown
            },
        }
    }
}

/// Unlinks and releases element `index` of the chain, returning its value.
///
/// When the chain is shorter than `index + 1` (never the case for a
/// well-formed list), it is left unchanged and nothing is returned.
fn remove_link<T: Copy>(link: &mut Option<Box<Node<T>>>, index: usize) -> (removed: Option<T>)
    ensures
        index < link_seq(*old(link)).len() ==> removed == Some(link_seq(*old(link))[index as int])
            && link_seq(*final(link)) == link_seq(*old(link)).remove(index as int),
        index >= link_seq(*old(link)).len() ==> removed is None && *final(link) == *old(link),
    decreases index,
{
    match link.take() {
        None => None,
        Some(mut boxed) => {
            if index == 0 {
                let value = boxed.value;
                *link = boxed.next.take();
                boxed.raw_dump_drop();
                proof {
                    assert(link_seq(*link) =~= link_seq(*old(link)).remove(0));
                }
                Some(value)
            } else {
                let removed = remove_link(&mut boxed.next, index - 1);
                *link = Some(boxed);
                proof {
                    if index < link_seq(*old(link)).len() {
                        assert(link_seq(*link) =~= link_seq(*old(link)).remove(
                            index as int,
                        ));
                    }
                }
                removed
            }
        },
    }
}

} // verus!
