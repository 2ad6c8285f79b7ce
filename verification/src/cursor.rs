//! Cursors: one pass over the bytes of a buffer, forward or backward.
//!
//! A cursor holds the leaf it is reading and a stack of the subtrees it has
//! still to visit. It shares those nodes with the buffer it was taken from
//! and never changes them.

use crate::node::{share, Node};
use std::sync::Arc;
use vstd::pervasive::unreached;
use vstd::prelude::*;
use vstd::std_specs::iter::IteratorSpecImpl;

verus! {

/// Every subtree on the stack is well-formed.
pub(crate) open spec fn all_wf(pending: Seq<Arc<Node>>) -> bool {
    forall|i: int| 0 <= i < pending.len() ==> (#[trigger] pending[i]).wf()
}

/// The bytes of the subtrees on the stack, from the top of the stack down.
pub(crate) open spec fn pending_forward(pending: Seq<Arc<Node>>) -> Seq<u8>
    decreases pending.len(),
{
    if pending.len() == 0 {
        Seq::empty()
    } else {
        pending.last().content() + pending_forward(pending.drop_last())
    }
}

/// Walks from `start` down to its leftmost leaf and puts the right-hand
/// subtrees passed on the way onto the stack.
fn descend_left(start: Arc<Node>, pending: &mut Vec<Arc<Node>>) -> (res: Arc<Node>)
    requires
        start.wf(),
        all_wf(old(pending)@),
    ensures
        *res is Leaf,
        res.wf(),
        all_wf(final(pending)@),
        res.content() + pending_forward(final(pending)@) == start.content() + pending_forward(
            old(pending)@,
        ),
{
    let mut node = start;
    loop
        invariant
            node.wf(),
            all_wf(pending@),
            node.content() + pending_forward(pending@) == start.content() + pending_forward(
                old(pending)@,
            ),
        decreases node.depth(),
    {
        let below = match &*node {
            Node::Leaf { .. } => None,
            Node::Internal { left, right, .. } => {
                proof {
                    let grown = pending@.push(*right);
                    assert(grown.drop_last() =~= pending@);
                }
                pending.push(share(right));
                Some(share(left))
            },
        };
        match below {
            None => {
                return node;
            },
            Some(left) => {
                node = left;
            },
        }
    }
}

/// A forward cursor over the bytes of one buffer.
pub struct FlexVectorIter {
    pending: Vec<Arc<Node>>,
    current: Option<Arc<Node>>,
    pos: usize,
}

impl FlexVectorIter {
    /// The stack holds well-formed subtrees. While the traversal lasts, the
    /// cursor stands on a byte of a leaf; once it has ended, nothing is left
    /// on the stack.
    #[verifier::type_invariant]
    spec fn inv(self) -> bool {
        &&& all_wf(self.pending@)
        &&& match self.current {
            Some(leaf) => *leaf is Leaf && leaf.wf() && self.pos < leaf.content().len(),
            None => self.pending@.len() == 0,
        }
    }

    /// The bytes that the cursor has still to produce, in the order in which
    /// it will produce them.
    pub closed spec fn upcoming(self) -> Seq<u8> {
        match self.current {
            Some(leaf) => leaf.content().subrange(self.pos as int, leaf.content().len() as int)
                + pending_forward(self.pending@),
            None => Seq::empty(),
        }
    }

    /// A cursor that will produce the bytes below `root`, first to last.
    pub(crate) fn new(root: &Option<Arc<Node>>) -> (res: FlexVectorIter)
        requires
            root matches Some(node) ==> node.wf(),
        ensures
            res.upcoming() == match *root {
                Some(node) => node.content(),
                None => Seq::empty(),
            },
    {
        match root {
            None => FlexVectorIter { pending: Vec::new(), current: None, pos: 0 },
            Some(node) => {
                let mut pending: Vec<Arc<Node>> = Vec::new();
                let leaf = descend_left(share(node), &mut pending);
                FlexVectorIter { pending, current: Some(leaf), pos: 0 }
            },
        }
    }

    /// Whether the cursor has a byte left to produce.
    pub fn has_next(&self) -> (res: bool)
        ensures
            res == (self.upcoming().len() > 0),
    {
        proof {
            use_type_invariant(self);
        }
        self.current.is_some()
    }
}

impl Iterator for FlexVectorIter {
    type Item = u8;

    /// Produces the next byte and moves past it; produces nothing, and
    /// stays where it is, once every byte is out.
    fn next(&mut self) -> (ret: Option<u8>)
        ensures
            old(self).upcoming().len() > 0 ==> ret == Some(old(self).upcoming()[0])
                && final(self).upcoming() == old(self).upcoming().drop_first(),
            old(self).upcoming().len() == 0 ==> ret is None && final(self).upcoming()
                == old(self).upcoming(),
    {
        proof {
            use_type_invariant(&*self);
        }
        let (byte, len) = match &self.current {
            None => {
                return None;
            },
            Some(leaf) => match &**leaf {
                Node::Leaf { bytes } => (bytes[self.pos], bytes.len()),
                Node::Internal { .. } => unreached(),
            },
        };
        if self.pos + 1 < len {
            self.pos = self.pos + 1;
        } else {
            let mut pending: Vec<Arc<Node>> = Vec::new();
            std::mem::swap(&mut pending, &mut self.pending);
            match pending.pop() {
                None => {
                    self.current = None;
                },
                Some(node) => {
                    let leaf = descend_left(node, &mut pending);
                    self.pos = 0;
                    self.current = Some(leaf);
                    self.pending = pending;
                },
            }
        }
        Some(byte)
    }
}

impl IteratorSpecImpl for FlexVectorIter {
    open spec fn obeys_prophetic_iter_laws(&self) -> bool {
        true
    }

    open spec fn remaining(&self) -> Seq<u8> {
        self.upcoming()
    }

    open spec fn will_return_none(&self) -> bool {
        true
    }

    open spec fn decrease(&self) -> Option<nat> {
        Some(self.upcoming().len())
    }

    open spec fn initial_value_relation(&self, init: &Self) -> bool {
        self.upcoming() == init.upcoming()
    }

    open spec fn peek(&self, index: int) -> Option<u8> {
        if 0 <= index < self.upcoming().len() {
            Some(self.upcoming()[index])
        } else {
            None
        }
    }
}

/// The bytes of the subtrees on the stack, each read last to first, from
/// the top of the stack down.
pub(crate) open spec fn pending_backward(pending: Seq<Arc<Node>>) -> Seq<u8>
    decreases pending.len(),
{
    if pending.len() == 0 {
        Seq::empty()
    } else {
        pending.last().content().reverse() + pending_backward(pending.drop_last())
    }
}

/// Walks from `start` down to its rightmost leaf and puts the left-hand
/// subtrees passed on the way onto the stack.
fn descend_right(start: Arc<Node>, pending: &mut Vec<Arc<Node>>) -> (res: Arc<Node>)
    requires
        start.wf(),
        all_wf(old(pending)@),
    ensures
        *res is Leaf,
        res.wf(),
        all_wf(final(pending)@),
        res.content().reverse() + pending_backward(final(pending)@) == start.content().reverse()
            + pending_backward(old(pending)@),
{
    let mut node = start;
    loop
        invariant
            node.wf(),
            all_wf(pending@),
            node.content().reverse() + pending_backward(pending@) == start.content().reverse()
                + pending_backward(old(pending)@),
        decreases node.depth(),
    {
        let below = match &*node {
            Node::Leaf { .. } => None,
            Node::Internal { left, right, .. } => {
                proof {
                    let grown = pending@.push(*left);
                    assert(grown.drop_last() =~= pending@);
                }
                pending.push(share(left));
                Some(share(right))
            },
        };
        match below {
            None => {
                return node;
            },
            Some(right) => {
                node = right;
            },
        }
    }
}

/// A backward cursor over the bytes of one buffer.
pub struct FlexVectorRIter {
    pending: Vec<Arc<Node>>,
    current: Option<Arc<Node>>,
    left: usize,
}

impl FlexVectorRIter {
    /// The stack holds well-formed subtrees. While the traversal lasts, the
    /// cursor stands behind a byte of a leaf; once it has ended, nothing is
    /// left on the stack.
    #[verifier::type_invariant]
    spec fn inv(self) -> bool {
        &&& all_wf(self.pending@)
        &&& match self.current {
            Some(leaf) => *leaf is Leaf && leaf.wf() && 0 < self.left <= leaf.content().len(),
            None => self.pending@.len() == 0,
        }
    }

    /// The bytes that the cursor has still to produce, in the order in which
    /// it will produce them.
    pub closed spec fn upcoming(self) -> Seq<u8> {
        match self.current {
            Some(leaf) => leaf.content().subrange(0, self.left as int).reverse()
                + pending_backward(self.pending@),
            None => Seq::empty(),
        }
    }

    /// A cursor that will produce the bytes below `root`, last to first.
    pub(crate) fn new(root: &Option<Arc<Node>>) -> (res: FlexVectorRIter)
        requires
            root matches Some(node) ==> node.wf(),
        ensures
            res.upcoming() == match *root {
                Some(node) => node.content().reverse(),
                None => Seq::empty(),
            },
    {
        match root {
            None => {
                FlexVectorRIter { pending: Vec::new(), current: None, left: 0 }
            },
            Some(node) => {
                let mut pending: Vec<Arc<Node>> = Vec::new();
                let leaf = descend_right(share(node), &mut pending);
                let left = leaf.size();
                FlexVectorRIter { pending, current: Some(leaf), left }
            },
        }
    }

    /// Whether the cursor has a byte left to produce.
    pub fn has_next(&self) -> (res: bool)
        ensures
            res == (self.upcoming().len() > 0),
    {
        proof {
            use_type_invariant(self);
        }
        self.current.is_some()
    }
}

impl Iterator for FlexVectorRIter {
    type Item = u8;

    /// Produces the next byte and moves past it; produces nothing, and
    /// stays where it is, once every byte is out.
    fn next(&mut self) -> (ret: Option<u8>)
        ensures
            old(self).upcoming().len() > 0 ==> ret == Some(old(self).upcoming()[0])
                && final(self).upcoming() == old(self).upcoming().drop_first(),
            old(self).upcoming().len() == 0 ==> ret is None && final(self).upcoming()
                == old(self).upcoming(),
    {
        proof {
            use_type_invariant(&*self);
        }
        let byte = match &self.current {
            None => {
                return None;
            },
            Some(leaf) => match &**leaf {
                Node::Leaf { bytes } => bytes[self.left - 1],
                Node::Internal { .. } => unreached(),
            },
        };
        if self.left > 1 {
            self.left = self.left - 1;
        } else {
            let mut pending: Vec<Arc<Node>> = Vec::new();
            std::mem::swap(&mut pending, &mut self.pending);
            match pending.pop() {
                None => {
                    self.current = None;
                },
                Some(node) => {
                    let leaf = descend_right(node, &mut pending);
                    let left = leaf.size();
                    self.current = Some(leaf);
                    self.left = left;
                    self.pending = pending;
                },
            }
        }
        Some(byte)
    }
}

impl IteratorSpecImpl for FlexVectorRIter {
    open spec fn obeys_prophetic_iter_laws(&self) -> bool {
        true
    }

    open spec fn remaining(&self) -> Seq<u8> {
        self.upcoming()
    }

    open spec fn will_return_none(&self) -> bool {
        true
    }

    open spec fn decrease(&self) -> Option<nat> {
        Some(self.upcoming().len())
    }

    open spec fn initial_value_relation(&self, init: &Self) -> bool {
        self.upcoming() == init.upcoming()
    }

    open spec fn peek(&self, index: int) -> Option<u8> {
        if 0 <= index < self.upcoming().len() {
            Some(self.upcoming()[index])
        } else {
            None
        }
    }
}

} // verus!
