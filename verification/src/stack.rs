//! The ownership stack: a singly-linked, last-in-first-out chain of `i32`
//! values in which every node is owned by exactly one link.

use vstd::prelude::*;

verus! {

/// A link either owns the rest of the chain or marks its end. It is the only
/// reference type in the structure: never shared, never counted.
enum Link {
    Empty,
    More(Box<Node>),
}

/// One element of the chain: a value together with ownership of the whole
/// suffix that follows it.
struct Node {
    elem: i32,
    next: Link,
}

/// A last-in-first-out stack of `i32` values, viewed abstractly as a
/// `Seq<i32>` whose last element is the top of the stack.
pub struct List {
    head: Link,
}

/// The sequence of values hanging off a link, bottom first: the element of
/// the front node comes last, since the front of the chain is the top of the
/// stack.
spec fn link_view(l: Link) -> Seq<i32>
    decreases l,
{
    match l {
        Link::Empty => Seq::empty(),
        Link::More(node) => link_view(node.next).push(node.elem),
    }
}

impl View for List {
    type V = Seq<i32>;

    closed spec fn view(&self) -> Seq<i32> {
        link_view(self.head)
    }
}

/// The value the next pop returns from a stack viewed as `s`: the top of the
/// stack if there is one, and no value otherwise.
pub open spec fn top(s: Seq<i32>) -> Option<i32> {
    if s.len() == 0 {
        None
    } else {
        Some(s.last())
    }
}

/// The stack left behind by one pop from a stack viewed as `s`: unchanged
/// when empty, otherwise `s` without its top.
pub open spec fn rest(s: Seq<i32>) -> Seq<i32> {
    if s.len() == 0 {
        s
    } else {
        s.drop_last()
    }
}

/// Moves the chain out of a slot, leaving the empty marker behind: the
/// take-and-replace step that keeps every node under exactly one owner while
/// it changes hands.
fn take_link(slot: &mut Link) -> (taken: Link)
    ensures
        taken == *old(slot),
        *final(slot) == Link::Empty,
    opens_invariants none
    no_unwind
{
    let mut taken = Link::Empty;
    core::mem::swap(slot, &mut taken);
    taken
}

impl List {
    /// Returns an empty stack.
    pub fn new() -> (list: List)
        ensures
            list@ == Seq::<i32>::empty(),
    {
        List { head: Link::Empty }
    }

    /// Pushes `elem` on top of the stack. Never fails: the new node takes
    /// ownership of the old chain and becomes the new head.
    pub fn push(&mut self, elem: i32)
        ensures
            final(self)@ == old(self)@.push(elem),
    {
        let new_node = Box::new(Node { elem, next: take_link(&mut self.head) });
        self.head = Link::More(new_node);
    }

    /// Pops the top of the stack, or returns no value when the stack is
    /// empty. The popped node's successor becomes the new head; nothing is
    /// left dangling.
    pub fn pop(&mut self) -> (popped: Option<i32>)
        ensures
            popped == top(old(self)@),
            final(self)@ == rest(old(self)@),
    {
        match take_link(&mut self.head) {
            Link::Empty => None,
            Link::More(node) => {
                self.head = node.next;
                Some(node.elem)
            },
        }
    }
}

impl Drop for List {
    /// Tears the chain down iteratively: each iteration moves one node's
    /// successor out before that node is released, so destruction never
    /// recurses down the chain, however long the stack has grown.
    fn drop(&mut self)
        opens_invariants none
        no_unwind
    {
        let mut cur = take_link(&mut self.head);
        loop
            decreases link_view(cur).len(),
        {
            match cur {
                Link::Empty => {
                    break ;
                },
                Link::More(node) => {
                    cur = node.next;
                },
            }
        }
    }
}

} // verus!
