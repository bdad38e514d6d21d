//! A singly linked list that grows and shrinks at its front.

use vstd::prelude::*;
use vstd::std_specs::cmp::{PartialEqSpec, PartialEqSpecImpl};

verus! {

/// One cell of a list: a value and the cells behind it.
pub struct Node<T> {
    value: T,
    next: Option<Box<Node<T>>>,
}

/// A singly linked list, modelled by the sequence of its values from the
/// front.
pub struct LinkedList<T> {
    head: Option<Box<Node<T>>>,
    size: usize,
}

/// A walk along a list from some cell to its end.
pub struct LinkedListIter<'a, T> {
    current: &'a Option<Box<Node<T>>>,
}

impl<T> Node<T> {
    /// The values from this cell to the end of the list.
    pub closed spec fn items(self) -> Seq<T>
        decreases self,
    {
        seq![self.value] + Node::chain(self.next)
    }

    /// The values of the cells behind a link.
    pub closed spec fn chain(link: Option<Box<Node<T>>>) -> Seq<T>
        decreases link,
    {
        match link {
            None => Seq::empty(),
            Some(node) => node.items(),
        }
    }

    /// A cell that holds `value` in front of the cells `next`.
    pub fn new(value: T, next: Option<Box<Node<T>>>) -> (node: Node<T>)
        ensures
            node.items() == seq![value] + Node::chain(next),
    {
        Node { value: value, next: next }
    }
}

impl<T> View for LinkedList<T> {
    type V = Seq<T>;

    closed spec fn view(&self) -> Seq<T> {
        Node::chain(self.head)
    }
}

impl<T> LinkedList<T> {
    #[verifier::type_invariant]
    spec fn counts_its_cells(self) -> bool {
        self.size == Node::chain(self.head).len()
    }

    /// The empty list.
    pub fn new() -> (list: LinkedList<T>)
        ensures
            list@ == Seq::<T>::empty(),
    {
        LinkedList { head: None, size: 0 }
    }

    /// Number of values in the list.
    pub fn get_size(&self) -> (size: usize)
        ensures
            size == self@.len(),
    {
        proof {
            use_type_invariant(self);
        }
        self.size
    }

    /// Whether the list holds no value.
    pub fn is_empty(&self) -> (empty: bool)
        ensures
            empty == (self@.len() == 0),
    {
        self.get_size() == 0
    }

    /// Puts `value` at the front of the list.
    pub fn push_front(&mut self, value: T)
        requires
            old(self)@.len() < usize::MAX,
        ensures
            final(self)@ == seq![value] + old(self)@,
    {
        let mut taken = LinkedList::new();
        std::mem::swap(self, &mut taken);
        proof {
            use_type_invariant(&taken);
        }
        let LinkedList { head, size } = taken;
        *self = LinkedList { head: Some(Box::new(Node::new(value, head))), size: size + 1 };
    }

    /// Takes the value at the front out of the list.
    pub fn pop_front(&mut self) -> (front: Option<T>)
        ensures
            old(self)@.len() == 0 ==> front is None && final(self)@ == old(self)@,
            old(self)@.len() > 0 ==> front == Some(old(self)@[0])
                && final(self)@ == old(self)@.drop_first(),
    {
        let mut taken = LinkedList::new();
        std::mem::swap(self, &mut taken);
        proof {
            use_type_invariant(&taken);
        }
        let LinkedList { head, size } = taken;
        match head {
            None => None,
            Some(node) => {
                let cell = *node;
                assert(cell.items().drop_first() =~= Node::chain(cell.next));
                *self = LinkedList { head: cell.next, size: size - 1 };
                Some(cell.value)
            },
        }
    }
}

impl<T> LinkedList<T> {
    /// A walk along the list from its front.
    pub fn iter(&self) -> (walk: LinkedListIter<'_, T>)
        ensures
            walk@ == self@,
    {
        LinkedListIter { current: &self.head }
    }
}

impl<'a, T> View for LinkedListIter<'a, T> {
    type V = Seq<T>;

    /// The values that the walk has yet to visit.
    closed spec fn view(&self) -> Seq<T> {
        Node::chain(*self.current)
    }
}

impl<'a, T> LinkedListIter<'a, T> {
    /// Visits the next value, if the walk has not come to the end.
    pub fn next(&mut self) -> (item: Option<&'a T>)
        ensures
            old(self)@.len() == 0 ==> item is None && final(self)@ == old(self)@,
            old(self)@.len() > 0 ==> item == Some(&old(self)@[0])
                && final(self)@ == old(self)@.drop_first(),
    {
        match self.current {
            Some(node) => {
                assert(node.items().drop_first() =~= Node::chain(node.next));
                self.current = &node.next;
                Some(&node.value)
            },
            None => None,
        }
    }
}

impl<T: Clone> Clone for Node<T> {
    /// A copy of this cell and of the cells behind it, value by value.
    fn clone(&self) -> (copy: Self)
        ensures
            copy.items().len() == self.items().len(),
            forall|i: int|
                0 <= i < self.items().len() ==> cloned::<T>(
                    #[trigger] self.items()[i],
                    copy.items()[i],
                ),
        decreases self,
    {
        let value = self.value.clone();
        let next = match &self.next {
            Some(node) => Some(Box::new((&**node).clone())),
            None => None,
        };
        let copy = Node { value, next };
        assert forall|i: int| 0 <= i < self.items().len() implies cloned::<T>(
            #[trigger] self.items()[i],
            copy.items()[i],
        ) by {
            if i > 0 {
                assert(self.items()[i] == Node::chain(self.next)[i - 1]);
                assert(copy.items()[i] == Node::chain(copy.next)[i - 1]);
            }
        }
        copy
    }
}

impl<T: Clone> Clone for LinkedList<T> {
    /// A list of the same length whose values are copies of this list's
    /// values, in the same order.
    fn clone(&self) -> (copy: Self)
        ensures
            copy@.len() == self@.len(),
            forall|i: int| 0 <= i < self@.len() ==> cloned::<T>(#[trigger] self@[i], copy@[i]),
    {
        proof {
            use_type_invariant(self);
        }
        let head = match &self.head {
            Some(node) => Some(Box::new((&**node).clone())),
            None => None,
        };
        LinkedList { head, size: self.size }
    }
}

/// Whether two sequences have the same length and, position by position,
/// values that their type's `==` holds to be equal.
pub open spec fn equal_values<T: PartialEq>(a: Seq<T>, b: Seq<T>) -> bool {
    &&& a.len() == b.len()
    &&& forall|i: int| 0 <= i < a.len() ==> (#[trigger] a[i]).eq_spec(&b[i])
}

impl<T: PartialEq> PartialEq for LinkedList<T> {
    /// Whether the two lists have the same length and equal values at every
    /// position.
    fn eq(&self, rhs: &LinkedList<T>) -> (same: bool) {
        proof {
            use_type_invariant(self);
            use_type_invariant(rhs);
        }
        if self.size != rhs.size {
            return false;
        }
        let mut l: &Option<Box<Node<T>>> = &self.head;
        let mut r: &Option<Box<Node<T>>> = &rhs.head;
        let ghost mut seen: int = 0;
        let mut same = true;
        loop
            invariant
                0 <= seen <= self@.len(),
                self@.len() == rhs@.len(),
                Node::chain(*l) == self@.skip(seen),
                Node::chain(*r) == rhs@.skip(seen),
                T::obeys_eq_spec() ==> forall|i: int|
                    0 <= i < seen ==> (#[trigger] self@[i]).eq_spec(&rhs@[i]),
            ensures
                T::obeys_eq_spec() ==> same == equal_values(self@, rhs@),
            decreases self@.len() - seen,
        {
            match l {
                Some(node) => {
                    assert(node.items()[0] == node.value);
                    assert(self@.skip(seen).len() > 0);
                    match r {
                        Some(rnode) => {
                            assert(rnode.items()[0] == rnode.value);
                            assert(node.value == self@.skip(seen)[0]);
                            assert(rnode.value == rhs@.skip(seen)[0]);
                            if node.value != rnode.value {
                                same = false;
                                break ;
                            }
                            assert(Node::chain(node.next) =~= node.items().drop_first());
                            assert(self@.skip(seen).drop_first() =~= self@.skip(seen + 1));
                            assert(Node::chain(rnode.next) =~= rnode.items().drop_first());
                            assert(rhs@.skip(seen).drop_first() =~= rhs@.skip(seen + 1));
                            l = &node.next;
                            r = &rnode.next;
                            proof {
                                seen = seen + 1;
                            }
                        },
                        None => {
                            assert(rhs@.skip(seen).len() == 0);
                            same = false;
                            break ;
                        },
                    }
                },
                None => {
                    assert(self@.skip(seen).len() == 0);
                    same = true;
                    break ;
                },
            }
        }
        same
    }
}

impl<T: PartialEq> PartialEqSpecImpl for LinkedList<T> {
    open spec fn obeys_eq_spec() -> bool {
        T::obeys_eq_spec()
    }

    open spec fn eq_spec(&self, rhs: &LinkedList<T>) -> bool {
        equal_values(self@, rhs@)
    }
}

/// The text of a list whose values read as `parts`: every value with a space
/// in front of it, in the order of the list.
pub open spec fn spaced(parts: Seq<Seq<char>>) -> Seq<char>
    decreases parts.len(),
{
    if parts.len() == 0 {
        Seq::empty()
    } else {
        spaced(parts.drop_last()) + seq![' '] + parts.last()
    }
}

impl<T: std::fmt::Display> LinkedList<T> {
    /// The values of the list as text, each as its type displays it, with a
    /// space in front of each.
    pub fn render(&self) -> (text: String)
        ensures
            exists|parts: Seq<String>|
                {
                    &&& parts.len() == self@.len()
                    &&& forall|i: int|
                        0 <= i < parts.len() ==> vstd::string::to_string_from_display_ensures::<T>(
                            &self@[i],
                            #[trigger] parts[i],
                        )
                    &&& text@ == spaced(parts.map_values(|part: String| part@))
                },
    {
        let mut current: &Option<Box<Node<T>>> = &self.head;
        let mut text = String::new();
        let ghost mut parts: Seq<String> = Seq::empty();
        let ghost mut seen: int = 0;
        assert(parts.map_values(|part: String| part@) =~= Seq::<Seq<char>>::empty());
        loop
            invariant
                0 <= seen <= self@.len(),
                parts.len() == seen,
                Node::chain(*current) == self@.skip(seen),
                forall|i: int|
                    0 <= i < parts.len() ==> vstd::string::to_string_from_display_ensures::<T>(
                        &self@[i],
                        #[trigger] parts[i],
                    ),
                text@ == spaced(parts.map_values(|part: String| part@)),
            ensures
                seen == self@.len(),
                parts.len() == seen,
                forall|i: int|
                    0 <= i < parts.len() ==> vstd::string::to_string_from_display_ensures::<T>(
                        &self@[i],
                        #[trigger] parts[i],
                    ),
                text@ == spaced(parts.map_values(|part: String| part@)),
            decreases self@.len() - seen,
        {
            match current {
                Some(node) => {
                    assert(node.items()[0] == node.value);
                    assert(self@.skip(seen).len() > 0);
                    assert(node.value == self@.skip(seen)[0]);
                    assert(Node::chain(node.next) =~= node.items().drop_first());
                    assert(self@.skip(seen).drop_first() =~= self@.skip(seen + 1));
                    let part = node.value.to_string();
                    proof {
                        let before = parts.map_values(|part: String| part@);
                        parts = parts.push(part);
                        let after = parts.map_values(|part: String| part@);
                        assert(after.drop_last() =~= before);
                        assert(after.last() == part@);
                        seen = seen + 1;
                    }
                    text.append(" ");
                    text.append(part.as_str());
                    proof {
                        reveal_strlit(" ");
                        assert(" "@ =~= seq![' ']);
                    }
                    current = &node.next;
                },
                None => {
                    assert(self@.skip(seen).len() == 0);
                    break ;
                },
            }
        }
        text
    }
}

} // verus!
