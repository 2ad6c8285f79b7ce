//! The immutable tree that backs a buffer.
//!
//! A node is never changed once it is built. An edit builds new nodes along
//! one path and shares every other subtree with the tree it started from.

use crate::model::{lemma_run_start_right, run_start};
use std::sync::Arc;
use vstd::prelude::*;
use vstd::seq_lib::lemma_flatten_concat;

verus! {

/// The largest number of bytes one leaf holds.
pub const LEAF_CAPACITY: usize = 64;

/// A node of the tree: a short run of bytes, or two shared subtrees in order.
pub(crate) enum Node {
    Leaf { bytes: Vec<u8> },
    Internal { left: Arc<Node>, right: Arc<Node>, size: usize, height: usize },
}

impl Node {
    /// The bytes below this node, left to right.
    pub(crate) open spec fn content(&self) -> Seq<u8>
        decreases self,
    {
        match *self {
            Node::Leaf { bytes } => bytes@,
            Node::Internal { left, right, .. } => left.content() + right.content(),
        }
    }

    /// The number of edges on the longest path down to a leaf.
    pub(crate) open spec fn depth(&self) -> nat
        decreases self,
    {
        match *self {
            Node::Leaf { .. } => 0,
            Node::Internal { left, right, .. } => 1 + if left.depth() >= right.depth() {
                left.depth()
            } else {
                right.depth()
            },
        }
    }

    /// The runs of bytes held by the leaves below this node, left to right.
    pub(crate) open spec fn runs(&self) -> Seq<Seq<u8>>
        decreases self,
    {
        match *self {
            Node::Leaf { bytes } => seq![bytes@],
            Node::Internal { left, right, .. } => left.runs() + right.runs(),
        }
    }

    /// Every leaf holds between one and `LEAF_CAPACITY` bytes, every internal
    /// node caches the size and depth of its subtree, and the depths of its
    /// two children differ by at most one.
    pub(crate) open spec fn wf(&self) -> bool
        decreases self,
    {
        match *self {
            Node::Leaf { bytes } => 1 <= bytes@.len() <= LEAF_CAPACITY,
            Node::Internal { left, right, size, height } => {
                &&& left.wf()
                &&& right.wf()
                &&& size == left.content().len() + right.content().len()
                &&& height == self.depth()
                &&& left.depth() <= right.depth() + 1
                &&& right.depth() <= left.depth() + 1
            },
        }
    }

    /// A well-formed tree holds more bytes than it is deep: every leaf holds
    /// a byte, and a tree of depth `d` has more than `d` leaves. So the depth
    /// fits where the size fits.
    pub(crate) proof fn lemma_depth_below_len(&self)
        requires
            self.wf(),
        ensures
            self.depth() < self.content().len(),
        decreases self,
    {
        match *self {
            Node::Leaf { .. } => {},
            Node::Internal { left, right, .. } => {
                left.lemma_depth_below_len();
                right.lemma_depth_below_len();
            },
        }
    }

    /// The runs of a tree, one after another, are its content.
    pub(crate) proof fn lemma_runs_flatten(&self)
        ensures
            self.runs().flatten() == self.content(),
        decreases self,
    {
        match *self {
            Node::Leaf { bytes } => {
                self.runs().lemma_flatten_one_element();
            },
            Node::Internal { left, right, .. } => {
                left.lemma_runs_flatten();
                right.lemma_runs_flatten();
                lemma_flatten_concat(left.runs(), right.runs());
            },
        }
    }

    /// The runs of a tree, one after another, are as long as its content.
    pub(crate) proof fn lemma_runs_len(&self)
        ensures
            run_start(self.runs(), self.runs().len() as int) == self.content().len(),
        decreases self,
    {
        match *self {
            Node::Leaf { bytes } => {
                assert(run_start(self.runs(), 1) == run_start(self.runs(), 0) + bytes@.len());
            },
            Node::Internal { left, right, .. } => {
                left.lemma_runs_len();
                right.lemma_runs_len();
                lemma_run_start_right(left.runs(), right.runs(), right.runs().len() as int);
            },
        }
    }

    /// The cached number of bytes below this node.
    pub(crate) fn size(&self) -> (n: usize)
        requires
            self.wf(),
        ensures
            n == self.content().len(),
    {
        match self {
            Node::Leaf { bytes } => bytes.len(),
            Node::Internal { size, .. } => *size,
        }
    }

    /// The cached depth of this node.
    pub(crate) fn height(&self) -> (h: usize)
        requires
            self.wf(),
        ensures
            h == self.depth(),
    {
        match self {
            Node::Leaf { .. } => 0,
            Node::Internal { height, .. } => *height,
        }
    }
}

/// `Arc::clone`: a second handle to the same node. The node itself is not
/// copied, so the handle that comes back points at a value equal to the one
/// behind `node`.
#[verifier::external_body]
pub(crate) fn share(node: &Arc<Node>) -> (res: Arc<Node>)
    ensures
        res == *node,
{
    Arc::clone(node)
}

/// A leaf that holds `bytes`.
pub(crate) fn leaf(bytes: Vec<u8>) -> (res: Arc<Node>)
    requires
        1 <= bytes@.len() <= LEAF_CAPACITY,
    ensures
        res.wf(),
        res.content() == bytes@,
        res.runs() == seq![bytes@],
        res.depth() == 0,
{
    Arc::new(Node::Leaf { bytes })
}

/// An internal node over `left` and `right`, which it shares with whoever
/// else holds them.
pub(crate) fn branch(left: &Arc<Node>, right: &Arc<Node>) -> (res: Arc<Node>)
    requires
        left.wf(),
        right.wf(),
        left.content().len() + right.content().len() <= usize::MAX,
        left.depth() <= right.depth() + 1,
        right.depth() <= left.depth() + 1,
    ensures
        res.wf(),
        res.content() == left.content() + right.content(),
        res.runs() == left.runs() + right.runs(),
        res.depth() == 1 + if left.depth() >= right.depth() {
            left.depth()
        } else {
            right.depth()
        },
        *res matches Node::Internal { left: l, right: r, .. } && l == *left && r == *right,
{
    proof {
        left.lemma_depth_below_len();
        right.lemma_depth_below_len();
    }
    let size = left.size() + right.size();
    let lh = left.height();
    let rh = right.height();
    let height = 1 + if lh >= rh {
        lh
    } else {
        rh
    };
    Arc::new(Node::Internal { left: share(left), right: share(right), size, height })
}

} // verus!
