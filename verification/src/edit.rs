//! Edits on a tree: putting a short run of bytes in, and cutting a tree off
//! before or after a position.
//!
//! Each edit walks down the one path that leads to the position, builds new
//! leaves there, and joins them with the untouched subtrees on the way back.

use crate::balance::join;
use crate::model::{
    lemma_within_one_run_left, lemma_within_one_run_right, run_start, spliced, within_one_run,
};
use crate::node::{branch, leaf, share, Node, LEAF_CAPACITY};
use std::sync::Arc;
use vstd::prelude::*;
use vstd::slice::{slice_subrange, slice_to_vec};

verus! {

/// A vector that holds the bytes of `first` followed by those of `second`.
fn gather(first: &[u8], second: &[u8]) -> (res: Vec<u8>)
    ensures
        res@ == first@ + second@,
{
    let mut res = slice_to_vec(first);
    res.extend_from_slice(second);
    res
}

/// The tree with `run` put in at `index`. The run ends up whole inside one
/// leaf: in the leaf that held position `index` if there is room, and
/// otherwise in a leaf next to what is left of that one.
pub(crate) fn insert_run(node: &Arc<Node>, index: usize, run: &[u8]) -> (res: Arc<Node>)
    requires
        node.wf(),
        index <= node.content().len(),
        1 <= run@.len() <= LEAF_CAPACITY,
        node.content().len() + run@.len() <= usize::MAX,
    ensures
        res.wf(),
        res.content() == spliced(node.content(), index as int, run@),
        within_one_run(res.runs(), index as int, run@.len() as int),
    decreases node.depth(),
{
    match &**node {
        Node::Leaf { bytes } => {
            let len = bytes.len();
            let head = slice_subrange(bytes.as_slice(), 0, index);
            let tail = slice_subrange(bytes.as_slice(), index, len);
            if len + run.len() <= LEAF_CAPACITY {
                let mut all = gather(head, run);
                all.extend_from_slice(tail);
                let res = leaf(all);
                assert(run_start(res.runs(), 0) == 0);
                res
            } else if index + run.len() <= LEAF_CAPACITY {
                let before = leaf(gather(head, run));
                let after = leaf(slice_to_vec(tail));
                let res = branch(&before, &after);
                assert(run_start(res.runs(), 0) == 0);
                res
            } else if run.len() + (len - index) <= LEAF_CAPACITY {
                let before = leaf(slice_to_vec(head));
                let after = leaf(gather(run, tail));
                let res = branch(&before, &after);
                assert(run_start(res.runs(), 1) == run_start(res.runs(), 0) + head@.len());
                res
            } else {
                let before = leaf(slice_to_vec(head));
                let middle = leaf(slice_to_vec(run));
                let after = leaf(slice_to_vec(tail));
                let both = branch(&before, &middle);
                let res = branch(&both, &after);
                assert(run_start(res.runs(), 1) == run_start(res.runs(), 0) + head@.len());
                res
            }
        },
        Node::Internal { left, right, .. } => {
            let left_size = left.size();
            if index <= left_size {
                let grown = insert_run(left, index, run);
                proof {
                    lemma_within_one_run_left(
                        grown.runs(),
                        right.runs(),
                        index as int,
                        run@.len() as int,
                    );
                }
                join(&grown, right)
            } else {
                let grown = insert_run(right, index - left_size, run);
                proof {
                    left.lemma_runs_len();
                    lemma_within_one_run_right(
                        left.runs(),
                        grown.runs(),
                        index - left_size,
                        run@.len() as int,
                    );
                }
                join(left, &grown)
            }
        },
    }
}

/// The tree that holds the first `count` bytes of `node`.
pub(crate) fn prefix(node: &Arc<Node>, count: usize) -> (res: Arc<Node>)
    requires
        node.wf(),
        0 < count <= node.content().len(),
    ensures
        res.wf(),
        res.content() == node.content().subrange(0, count as int),
    decreases node.depth(),
{
    if count == node.size() {
        return share(node);
    }
    match &**node {
        Node::Leaf { bytes } => leaf(slice_to_vec(slice_subrange(bytes.as_slice(), 0, count))),
        Node::Internal { left, right, .. } => {
            let left_size = left.size();
            if count <= left_size {
                prefix(left, count)
            } else {
                let kept = prefix(right, count - left_size);
                join(left, &kept)
            }
        },
    }
}

/// The tree that holds the bytes of `node` from position `start` on.
pub(crate) fn suffix(node: &Arc<Node>, start: usize) -> (res: Arc<Node>)
    requires
        node.wf(),
        start < node.content().len(),
    ensures
        res.wf(),
        res.content() == node.content().subrange(start as int, node.content().len() as int),
    decreases node.depth(),
{
    if start == 0 {
        return share(node);
    }
    match &**node {
        Node::Leaf { bytes } => leaf(
            slice_to_vec(slice_subrange(bytes.as_slice(), start, bytes.len())),
        ),
        Node::Internal { left, right, .. } => {
            let left_size = left.size();
            if start >= left_size {
                suffix(right, start - left_size)
            } else {
                let kept = suffix(left, start);
                join(&kept, right)
            }
        },
    }
}

/// One tree for the bytes of `left` followed by those of `right`. Where one
/// of the two is a single leaf, its bytes go into the other's boundary leaf
/// if they fit there; otherwise both trees are shared whole.
pub(crate) fn concat_nodes(left: &Arc<Node>, right: &Arc<Node>) -> (res: Arc<Node>)
    requires
        left.wf(),
        right.wf(),
        left.content().len() + right.content().len() <= usize::MAX,
    ensures
        res.wf(),
        res.content() == left.content() + right.content(),
{
    match (&**left, &**right) {
        (_, Node::Leaf { bytes }) => {
            insert_run(left, left.size(), bytes.as_slice())
        },
        (Node::Leaf { bytes }, _) => {
            insert_run(right, 0, bytes.as_slice())
        },
        _ => join(left, right),
    }
}

} // verus!
