//! The persistent buffer: a handle to the root of a tree of bytes.

use crate::cursor::{FlexVectorIter, FlexVectorRIter};
use crate::edit::{concat_nodes, insert_run, prefix, suffix};
use crate::encode::encode_char;
use crate::model::{deleted, inserted, range_deleted, run_start, spliced, within_one_run};
use crate::node::{leaf, share, Node, LEAF_CAPACITY};
use std::sync::Arc;
use vstd::prelude::*;
use vstd::slice::{slice_subrange, slice_to_vec};
use vstd::string::StringSliceAdditionalSpecFns;
use vstd::utf8::encode_scalar;

verus! {

/// The bytes below an optional root: none where there is no root.
pub(crate) open spec fn root_content(root: Option<Arc<Node>>) -> Seq<u8> {
    match root {
        Some(node) => node.content(),
        None => Seq::empty(),
    }
}

/// The runs held by the leaves below an optional root, left to right.
pub(crate) open spec fn root_runs(root: Option<Arc<Node>>) -> Seq<Seq<u8>> {
    match root {
        Some(node) => node.runs(),
        None => Seq::empty(),
    }
}

/// An optional root is well-formed when the tree below it is.
pub(crate) open spec fn root_wf(root: Option<Arc<Node>>) -> bool {
    match root {
        Some(node) => node.wf(),
        None => true,
    }
}

/// A second handle to the same optional root.
fn share_root(root: &Option<Arc<Node>>) -> (res: Option<Arc<Node>>)
    ensures
        res == *root,
{
    match root {
        Some(node) => Some(share(node)),
        None => None,
    }
}

/// The root for the bytes of `left` followed by those of `right`.
fn concat_roots(left: &Option<Arc<Node>>, right: &Option<Arc<Node>>) -> (res: Option<Arc<Node>>)
    requires
        root_wf(*left),
        root_wf(*right),
        root_content(*left).len() + root_content(*right).len() <= usize::MAX,
    ensures
        root_wf(res),
        root_content(res) == root_content(*left) + root_content(*right),
{
    match (left, right) {
        (Some(l), Some(r)) => Some(concat_nodes(l, r)),
        (Some(l), None) => {
            Some(share(l))
        },
        (None, _) => {
            share_root(right)
        },
    }
}

/// An immutable sequence of bytes. Every edit gives back a new buffer and
/// leaves this one as it was; the two share all of the tree that the edit
/// did not have to rebuild.
pub struct FlexVector {
    root: Option<Arc<Node>>,
    size: usize,
}

impl View for FlexVector {
    type V = Seq<u8>;

    /// The bytes that the buffer holds, first to last.
    closed spec fn view(&self) -> Seq<u8> {
        root_content(self.root)
    }
}

/// The bytes of the buffer that an operation gave back, if it gave one.
pub open spec fn bytes_of(res: Option<FlexVector>) -> Option<Seq<u8>> {
    match res {
        Some(v) => Some(v@),
        None => None,
    }
}

impl FlexVector {
    /// The tree is well-formed and the cached size is the number of its
    /// bytes; a buffer without a root has size zero.
    #[verifier::type_invariant]
    spec fn inv(self) -> bool {
        &&& root_wf(self.root)
        &&& self.size == root_content(self.root).len()
    }

    /// How the bytes of the buffer are laid out in memory: the runs of bytes
    /// that are stored together, first to last. Read one after another they
    /// are the bytes of the buffer.
    pub closed spec fn runs(&self) -> Seq<Seq<u8>> {
        root_runs(self.root)
    }

    /// The runs of a buffer, one after another, are its bytes.
    pub proof fn lemma_runs(&self)
        ensures
            self.runs().flatten() == self@,
            run_start(self.runs(), self.runs().len() as int) == self@.len(),
    {
        match self.root {
            Some(node) => {
                node.lemma_runs_flatten();
                node.lemma_runs_len();
            },
            None => {},
        }
    }

    /// The buffer over `root`.
    fn from_root(root: Option<Arc<Node>>) -> (res: FlexVector)
        requires
            root_wf(root),
        ensures
            res@ == root_content(root),
            res.runs() == root_runs(root),
    {
        let size = match &root {
            Some(node) => node.size(),
            None => 0,
        };
        FlexVector { root, size }
    }

    /// This buffer with `bytes` put in at `index`.
    fn insert_bytes(&self, index: usize, bytes: &[u8]) -> (res: FlexVector)
        requires
            index <= self@.len(),
            self@.len() + bytes@.len() <= usize::MAX,
        ensures
            res@ == spliced(self@, index as int, bytes@),
            1 <= bytes@.len() <= LEAF_CAPACITY ==> within_one_run(
                res.runs(),
                index as int,
                bytes@.len() as int,
            ),
    {
        proof {
            use_type_invariant(self);
        }
        let mut root = share_root(&self.root);
        let mut done: usize = 0;
        while done < bytes.len()
            invariant
                done <= bytes@.len(),
                index <= self@.len(),
                self@.len() + bytes@.len() <= usize::MAX,
                root_wf(root),
                root_content(root) == spliced(self@, index as int, bytes@.subrange(0, done as int)),
                bytes@.len() <= LEAF_CAPACITY ==> done == 0 || done == bytes@.len(),
                0 < done && bytes@.len() <= LEAF_CAPACITY ==> within_one_run(
                    root_runs(root),
                    index as int,
                    bytes@.len() as int,
                ),
            decreases bytes@.len() - done,
        {
            let left = bytes.len() - done;
            let step = if left < LEAF_CAPACITY {
                left
            } else {
                LEAF_CAPACITY
            };
            let run = slice_subrange(bytes, done, done + step);
            let grown = match &root {
                Some(node) => insert_run(node, index + done, run),
                None => leaf(slice_to_vec(run)),
            };
            assert(run_start(grown.runs(), 0) == 0);
            root = Some(grown);
            done = done + step;
        }
        FlexVector::from_root(root)
    }

    /// The empty buffer.
    pub fn new() -> (res: FlexVector)
        ensures
            res@ == Seq::<u8>::empty(),
    {
        FlexVector { root: None, size: 0 }
    }

    /// The number of bytes in the buffer.
    pub fn len(&self) -> (n: usize)
        ensures
            n == self@.len(),
    {
        proof {
            use_type_invariant(self);
        }
        self.size
    }

    /// This buffer with `elem` added at the end.
    pub fn push_back(&self, elem: u8) -> (res: FlexVector)
        requires
            self@.len() + 1 <= usize::MAX,
        ensures
            res@ == self@.push(elem),
    {
        let run = [elem];
        self.insert_bytes(self.len(), run.as_slice())
    }

    /// This buffer with the UTF-8 encoding of `elem` added at the end.
    pub fn push_back_char(&self, elem: char) -> (res: FlexVector)
        requires
            self@.len() + encode_scalar(elem as u32).len() <= usize::MAX,
        ensures
            res@ == self@ + encode_scalar(elem as u32),
            within_one_run(
                res.runs(),
                self@.len() as int,
                encode_scalar(elem as u32).len() as int,
            ),
    {
        let run = encode_char(elem);
        self.insert_bytes(self.len(), run.as_slice())
    }

    /// This buffer with the bytes of `string` added at the end.
    pub fn push_back_string(&self, string: &str) -> (res: FlexVector)
        requires
            self@.len() + string.spec_bytes().len() <= usize::MAX,
        ensures
            res@ == self@ + string.spec_bytes(),
            1 <= string.spec_bytes().len() <= LEAF_CAPACITY ==> within_one_run(
                res.runs(),
                self@.len() as int,
                string.spec_bytes().len() as int,
            ),
    {
        let run = string.as_bytes();
        self.insert_bytes(self.len(), run)
    }

    /// This buffer with `elem` added at the front.
    pub fn push_front(&self, elem: u8) -> (res: FlexVector)
        requires
            self@.len() + 1 <= usize::MAX,
        ensures
            res@ == seq![elem] + self@,
    {
        let run = [elem];
        self.insert_bytes(0, run.as_slice())
    }

    /// This buffer with the UTF-8 encoding of `elem` added at the front.
    pub fn push_front_char(&self, elem: char) -> (res: FlexVector)
        requires
            self@.len() + encode_scalar(elem as u32).len() <= usize::MAX,
        ensures
            res@ == encode_scalar(elem as u32) + self@,
            within_one_run(res.runs(), 0, encode_scalar(elem as u32).len() as int),
    {
        let run = encode_char(elem);
        self.insert_bytes(0, run.as_slice())
    }

    /// This buffer with the bytes of `string` added at the front.
    pub fn push_front_string(&self, string: &str) -> (res: FlexVector)
        requires
            self@.len() + string.spec_bytes().len() <= usize::MAX,
        ensures
            res@ == string.spec_bytes() + self@,
            1 <= string.spec_bytes().len() <= LEAF_CAPACITY ==> within_one_run(
                res.runs(),
                0,
                string.spec_bytes().len() as int,
            ),
    {
        let run = string.as_bytes();
        self.insert_bytes(0, run)
    }

    /// This buffer with `elem` put in at `index`, or nothing when `index`
    /// lies past the end.
    pub fn insert(&self, index: usize, elem: u8) -> (res: Option<FlexVector>)
        requires
            index <= self@.len() ==> self@.len() + 1 <= usize::MAX,
        ensures
            bytes_of(res) == inserted(self@, index as int, seq![elem]),
    {
        if index > self.len() {
            None
        } else {
            let run = [elem];
            Some(self.insert_bytes(index, run.as_slice()))
        }
    }

    /// This buffer with the UTF-8 encoding of `elem` put in at `index`, or
    /// nothing when `index` lies past the end.
    pub fn insert_char(&self, index: usize, elem: char) -> (res: Option<FlexVector>)
        requires
            index <= self@.len() ==> self@.len() + encode_scalar(elem as u32).len() <= usize::MAX,
        ensures
            bytes_of(res) == inserted(self@, index as int, encode_scalar(elem as u32)),
            res matches Some(v) ==> within_one_run(
                v.runs(),
                index as int,
                encode_scalar(elem as u32).len() as int,
            ),
    {
        if index > self.len() {
            None
        } else {
            let run = encode_char(elem);
            Some(self.insert_bytes(index, run.as_slice()))
        }
    }

    /// This buffer with the bytes of `string` put in at `index`, or nothing
    /// when `index` lies past the end.
    pub fn insert_string(&self, index: usize, string: &str) -> (res: Option<FlexVector>)
        requires
            index <= self@.len() ==> self@.len() + string.spec_bytes().len() <= usize::MAX,
        ensures
            bytes_of(res) == inserted(self@, index as int, string.spec_bytes()),
            res matches Some(v) ==> (1 <= string.spec_bytes().len() <= LEAF_CAPACITY
                ==> within_one_run(v.runs(), index as int, string.spec_bytes().len() as int)),
    {
        if index > self.len() {
            None
        } else {
            Some(self.insert_bytes(index, string.as_bytes()))
        }
    }

    /// This buffer without the byte at `index`, or nothing when there is no
    /// byte at `index`.
    pub fn delete(&self, index: usize) -> (res: Option<FlexVector>)
        ensures
            bytes_of(res) == deleted(self@, index as int),
    {
        if index >= self.len() {
            None
        } else {
            self.delete_range(index, index + 1)
        }
    }

    /// This buffer without the bytes from `start` up to, but not including,
    /// `end`; nothing when the range is empty or reaches past the end.
    pub fn delete_range(&self, start: usize, end: usize) -> (res: Option<FlexVector>)
        ensures
            bytes_of(res) == range_deleted(self@, start as int, end as int),
    {
        proof {
            use_type_invariant(self);
        }
        if start >= end || end > self.len() {
            return None;
        }
        match &self.root {
            None => None,
            Some(node) => {
                let before = if start == 0 {
                    None
                } else {
                    Some(prefix(node, start))
                };
                let after = if end == self.size {
                    None
                } else {
                    Some(suffix(node, end))
                };
                Some(FlexVector::from_root(concat_roots(&before, &after)))
            },
        }
    }

    /// The buffer that holds the bytes of this one followed by those of
    /// `other`. The two trees are shared, not copied; only where one side is
    /// a single leaf may its bytes be copied into the boundary leaf of the
    /// other.
    pub fn concat(&self, other: &FlexVector) -> (res: FlexVector)
        requires
            self@.len() + other@.len() <= usize::MAX,
        ensures
            res@ == self@ + other@,
    {
        proof {
            use_type_invariant(self);
            use_type_invariant(other);
        }
        FlexVector::from_root(concat_roots(&self.root, &other.root))
    }

    /// A cursor that produces the bytes of this buffer, first to last.
    pub fn bytes(&self) -> (res: FlexVectorIter)
        ensures
            res.upcoming() == self@,
    {
        proof {
            use_type_invariant(self);
        }
        FlexVectorIter::new(&self.root)
    }

    /// A cursor that produces the bytes of this buffer, last to first.
    pub fn reverse_bytes(&self) -> (res: FlexVectorRIter)
        ensures
            res.upcoming() == self@.reverse(),
    {
        proof {
            use_type_invariant(self);
        }
        FlexVectorRIter::new(&self.root)
    }
}

impl core::ops::Add for FlexVector {
    type Output = FlexVector;

    /// `a + b` is `a.concat(&b)`.
    fn add(self, other: FlexVector) -> (res: FlexVector)
        ensures
            res@ == self@ + other@,
    {
        self.concat(&other)
    }
}

/// `+` needs what `concat` needs. What it gives is a new tree, which is
/// stated by its bytes, in the `ensures` of `add`, and not as a value here.
impl vstd::std_specs::ops::AddSpecImpl for FlexVector {
    open spec fn obeys_add_spec() -> bool {
        false
    }

    open spec fn add_req(self, other: FlexVector) -> bool {
        self@.len() + other@.len() <= usize::MAX
    }

    open spec fn add_spec(self, other: FlexVector) -> FlexVector {
        self
    }
}

impl<'a, 'b> core::ops::Add<&'a FlexVector> for &'b FlexVector {
    type Output = FlexVector;

    /// `&a + &b` is `a.concat(b)`.
    fn add(self, other: &'a FlexVector) -> (res: FlexVector)
        ensures
            res@ == self@ + other@,
    {
        self.concat(other)
    }
}

/// As for the sum of two buffers by value.
impl<'a, 'b> vstd::std_specs::ops::AddSpecImpl<&'a FlexVector> for &'b FlexVector {
    open spec fn obeys_add_spec() -> bool {
        false
    }

    open spec fn add_req(self, other: &'a FlexVector) -> bool {
        self@.len() + other@.len() <= usize::MAX
    }

    open spec fn add_spec(self, other: &'a FlexVector) -> FlexVector {
        *self
    }
}

impl<'a> core::ops::Add<&'a FlexVector> for FlexVector {
    type Output = FlexVector;

    /// `a + &b` is `a.concat(b)`.
    fn add(self, other: &'a FlexVector) -> (res: FlexVector)
        ensures
            res@ == self@ + other@,
    {
        self.concat(other)
    }
}

/// As for the sum of two buffers by value.
impl<'a> vstd::std_specs::ops::AddSpecImpl<&'a FlexVector> for FlexVector {
    open spec fn obeys_add_spec() -> bool {
        false
    }

    open spec fn add_req(self, other: &'a FlexVector) -> bool {
        self@.len() + other@.len() <= usize::MAX
    }

    open spec fn add_spec(self, other: &'a FlexVector) -> FlexVector {
        self
    }
}

impl Clone for FlexVector {
    /// A second handle to the same tree: no byte is copied.
    fn clone(&self) -> (res: FlexVector)
        ensures
            res == *self,
    {
        proof {
            use_type_invariant(self);
        }
        FlexVector { root: share_root(&self.root), size: self.size }
    }
}

} // verus!
