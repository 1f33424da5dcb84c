//! A singly linked stack of integers.

use vstd::prelude::*;

verus! {

pub struct Node {
    value: i32,
    next: Option<Box<Node>>,
}

/// The values of a chain of nodes, from `link` on.
pub closed spec fn chain_values(link: Option<Box<Node>>) -> Seq<i32>
    decreases link,
{
    match link {
        None => Seq::empty(),
        Some(node) => seq![node.value] + chain_values(node.next),
    }
}

impl Node {
    /// The values from this node to the end of its chain.
    pub closed spec fn values(&self) -> Seq<i32> {
        seq![self.value] + chain_values(self.next)
    }

    /// A node holding `value` in front of the chain `next`.
    pub fn new(value: i32, next: Option<Box<Node>>) -> (r: Node)
        ensures
            r.values() == seq![value] + chain_values(next),
    {
        Node { value, next }
    }
}

pub struct LinkedList {
    head: Option<Box<Node>>,
    size: usize,
}

impl View for LinkedList {
    type V = Seq<i32>;

    closed spec fn view(&self) -> Seq<i32> {
        chain_values(self.head)
    }
}

impl LinkedList {
    /// The size field counts the nodes.
    pub closed spec fn wf(&self) -> bool {
        self.size == chain_values(self.head).len()
    }

    /// An empty list.
    pub fn new() -> (r: LinkedList)
        ensures
            r.wf(),
            r@ == Seq::<i32>::empty(),
    {
        LinkedList { head: None, size: 0 }
    }

    /// Number of values held.
    pub fn get_size(&self) -> (r: usize)
        requires
            self.wf(),
        ensures
            r == self@.len(),
    {
        self.size
    }

    /// Whether the list holds nothing.
    pub fn is_empty(&self) -> (r: bool)
        requires
            self.wf(),
        ensures
            r == (self@.len() == 0),
    {
        self.get_size() == 0
    }

    /// Puts `value` in front.
    pub fn push(&mut self, value: i32)
        requires
            old(self).wf(),
            old(self)@.len() < usize::MAX,
        ensures
            final(self).wf(),
            final(self)@ == seq![value] + old(self)@,
    {
        let new_node = Box::new(Node::new(value, self.head.take()));
        self.head = Some(new_node);
        self.size += 1;
    }

    /// Takes the front value off, or returns `None` when the list is empty.
    pub fn pop(&mut self) -> (r: Option<i32>)
        requires
            old(self).wf(),
        ensures
            final(self).wf(),
            old(self)@.len() == 0 ==> r is None && final(self)@ == old(self)@,
            old(self)@.len() > 0 ==> r == Some(old(self)@[0]) && final(self)@ == old(self)@.drop_first(),
    {
        match self.head.take() {
            None => None,
            Some(node) => {
                assert(old(self)@ =~= seq![node.value] + chain_values(node.next));
                self.head = node.next;
                self.size -= 1;
                assert(old(self)@.drop_first() =~= chain_values(self.head));
                Some(node.value)
            },
        }
    }

    /// The values, front first.
    pub fn to_vec(&self) -> (r: Vec<i32>)
        ensures
            r@ == self@,
    {
        let mut out: Vec<i32> = Vec::new();
        let mut cur: &Option<Box<Node>> = &self.head;
        while cur.is_some()
            invariant
                out@ + chain_values(*cur) == self@,
            decreases chain_values(*cur).len(),
        {
            let node = cur.as_ref().unwrap();
            assert(chain_values(*cur) == seq![node.value] + chain_values(node.next));
            out.push(node.value);
            cur = &node.next;
            assert(out@ + chain_values(*cur) =~= self@);
        }
        assert(out@ + chain_values(*cur) =~= out@);
        out
    }
}

} // verus!
