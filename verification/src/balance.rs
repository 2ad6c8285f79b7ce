//! Joining two trees into one whose depth stays balanced.
//!
//! The taller tree is walked down along the side that faces the other tree
//! until a subtree of about the other's depth is found. The two are paired
//! there, and the path back up is rebuilt, with a rotation wherever the new
//! pair made its side too deep. No leaf is touched on the way.

use crate::node::{branch, Node};
use std::sync::Arc;
use vstd::pervasive::unreached;
use vstd::prelude::*;

verus! {

/// The larger of two depths.
pub(crate) open spec fn deeper(a: nat, b: nat) -> nat {
    if a >= b {
        a
    } else {
        b
    }
}

/// The two children of an internal node.
fn children(node: &Arc<Node>) -> (res: (&Arc<Node>, &Arc<Node>))
    requires
        **node is Internal,
    ensures
        **node matches Node::Internal { left, right, .. } && left == *res.0 && right == *res.1,
{
    match &**node {
        Node::Internal { left, right, .. } => (left, right),
        Node::Leaf { .. } => unreached(),
    }
}

/// One node over `left` and `rest`, where `rest` may be two levels deeper
/// than `left`. If it is, `rest` is taken apart and its pieces are paired
/// anew with `left`: by one rotation where the right child of `rest` is the
/// deeper one, by two where the left child is.
fn rebuild_right(left: &Arc<Node>, rest: &Arc<Node>) -> (res: Arc<Node>)
    requires
        left.wf(),
        rest.wf(),
        left.content().len() + rest.content().len() <= usize::MAX,
        left.depth() <= rest.depth() + 1,
        rest.depth() <= left.depth() + 2,
        rest.depth() == left.depth() + 2 ==> (**rest matches Node::Internal {
            left: a,
            right: b,
            ..
        } && a.depth() != b.depth()),
    ensures
        res.wf(),
        res.content() == left.content() + rest.content(),
        res.runs() == left.runs() + rest.runs(),
        rest.depth() <= left.depth() + 1 ==> (*res matches Node::Internal {
            left: a,
            right: b,
            ..
        } && a == *left && b == *rest),
        rest.depth() == left.depth() + 2 ==> res.depth() == rest.depth(),
{
    proof {
        left.lemma_depth_below_len();
    }
    if rest.height() <= left.height() + 1 {
        branch(left, rest)
    } else {
        let (a, b) = children(rest);
        if a.height() > b.height() {
            let (a1, a2) = children(a);
            proof {
                assert(a.wf() && a.content() == a1.content() + a2.content() && a.runs()
                    == a1.runs() + a2.runs());
            }
            let inner_left = branch(left, a1);
            let inner_right = branch(a2, b);
            branch(&inner_left, &inner_right)
        } else {
            let inner = branch(left, a);
            branch(&inner, b)
        }
    }
}

/// One node over `rest` and `right`, where `rest` may be two levels deeper
/// than `right`: the mirror image of `rebuild_right`.
fn rebuild_left(rest: &Arc<Node>, right: &Arc<Node>) -> (res: Arc<Node>)
    requires
        rest.wf(),
        right.wf(),
        rest.content().len() + right.content().len() <= usize::MAX,
        right.depth() <= rest.depth() + 1,
        rest.depth() <= right.depth() + 2,
        rest.depth() == right.depth() + 2 ==> (**rest matches Node::Internal {
            left: a,
            right: b,
            ..
        } && a.depth() != b.depth()),
    ensures
        res.wf(),
        res.content() == rest.content() + right.content(),
        res.runs() == rest.runs() + right.runs(),
        rest.depth() <= right.depth() + 1 ==> (*res matches Node::Internal {
            left: a,
            right: b,
            ..
        } && a == *rest && b == *right),
        rest.depth() == right.depth() + 2 ==> res.depth() == rest.depth(),
{
    proof {
        right.lemma_depth_below_len();
    }
    if rest.height() <= right.height() + 1 {
        branch(rest, right)
    } else {
        let (a, b) = children(rest);
        if b.height() > a.height() {
            let (b1, b2) = children(b);
            proof {
                assert(b.wf() && b.content() == b1.content() + b2.content() && b.runs()
                    == b1.runs() + b2.runs());
            }
            let inner_left = branch(a, b1);
            let inner_right = branch(b2, right);
            branch(&inner_left, &inner_right)
        } else {
            let inner = branch(b, right);
            branch(a, &inner)
        }
    }
}

/// Joins a tree with one on its right that is at least two levels
/// shallower. The result is as deep as `tall` or one level deeper, and where
/// it is deeper its right child is the deeper of its two children.
fn join_right(tall: &Arc<Node>, short: &Arc<Node>) -> (res: Arc<Node>)
    requires
        tall.wf(),
        short.wf(),
        tall.content().len() + short.content().len() <= usize::MAX,
        tall.depth() > short.depth() + 1,
    ensures
        res.wf(),
        res.content() == tall.content() + short.content(),
        res.runs() == tall.runs() + short.runs(),
        tall.depth() <= res.depth() <= tall.depth() + 1,
        res.depth() == tall.depth() + 1 ==> (*res matches Node::Internal {
            left: a,
            right: b,
            ..
        } && a.depth() + 1 == b.depth()),
    decreases tall.depth(),
{
    let (left, mid) = children(tall);
    let rest = if mid.height() <= short.height() + 1 {
        branch(mid, short)
    } else {
        join_right(mid, short)
    };
    rebuild_right(left, &rest)
}

/// Joins a tree with one on its left that is at least two levels shallower:
/// the mirror image of `join_right`.
fn join_left(short: &Arc<Node>, tall: &Arc<Node>) -> (res: Arc<Node>)
    requires
        tall.wf(),
        short.wf(),
        short.content().len() + tall.content().len() <= usize::MAX,
        tall.depth() > short.depth() + 1,
    ensures
        res.wf(),
        res.content() == short.content() + tall.content(),
        res.runs() == short.runs() + tall.runs(),
        tall.depth() <= res.depth() <= tall.depth() + 1,
        res.depth() == tall.depth() + 1 ==> (*res matches Node::Internal {
            left: a,
            right: b,
            ..
        } && b.depth() + 1 == a.depth()),
    decreases tall.depth(),
{
    let (mid, right) = children(tall);
    let rest = if mid.height() <= short.height() + 1 {
        branch(short, mid)
    } else {
        join_left(short, mid)
    };
    rebuild_left(&rest, right)
}

/// One tree that holds the bytes of `left` followed by those of `right`.
/// Both trees are shared, not copied, and the leaves of the result are the
/// leaves of `left` followed by the leaves of `right`.
pub(crate) fn join(left: &Arc<Node>, right: &Arc<Node>) -> (res: Arc<Node>)
    requires
        left.wf(),
        right.wf(),
        left.content().len() + right.content().len() <= usize::MAX,
    ensures
        res.wf(),
        res.content() == left.content() + right.content(),
        res.runs() == left.runs() + right.runs(),
        deeper(left.depth(), right.depth()) <= res.depth() <= deeper(left.depth(), right.depth())
            + 1,
{
    proof {
        left.lemma_depth_below_len();
        right.lemma_depth_below_len();
    }
    let lh = left.height();
    let rh = right.height();
    if lh > rh + 1 {
        join_right(left, right)
    } else if rh > lh + 1 {
        join_left(left, right)
    } else {
        branch(left, right)
    }
}

} // verus!
