//! Laws that relate the operations of a buffer to one another.
//!
//! Each law is stated on what the contracts of the operations speak of: the
//! bytes `b@` of a buffer, the bytes that a cursor has still to produce, and
//! the functions of the model that say what an edit gives.

use crate::buffer::FlexVector;
use crate::cursor::{FlexVectorIter, FlexVectorRIter};
use crate::model::{deleted, inserted, range_deleted};
use vstd::prelude::*;

verus! {

/// An edit leaves the buffer it is applied to as it was. `edit` stands for
/// any operation that is given the buffer by shared reference, as all edits
/// are: the buffer that went in comes back with the bytes it held, beside
/// what `edit` returned.
pub fn edit_and_keep<F: FnOnce(&FlexVector) -> FlexVector>(b: FlexVector, edit: F) -> (res: (
    FlexVector,
    FlexVector,
))
    requires
        edit.requires((&b,)),
    ensures
        res.0@ == b@,
        res.0.runs() == b.runs(),
        edit.ensures((&b,), res.1),
{
    let edited = edit(&b);
    (b, edited)
}

/// A pass over a buffer produces as many bytes as the buffer is long,
/// whichever way it runs. `forward` is a cursor as `b.bytes()` returns it,
/// `backward` one as `b.reverse_bytes()` returns it.
pub proof fn lemma_traversal_counts(
    b: FlexVector,
    forward: FlexVectorIter,
    backward: FlexVectorRIter,
)
    requires
        forward.upcoming() == b@,
        backward.upcoming() == b@.reverse(),
    ensures
        forward.upcoming().len() == b@.len(),
        backward.upcoming().len() == forward.upcoming().len(),
{
}

/// What a backward pass produces, read in reverse, is what a forward pass
/// produces. `forward` is a cursor as `b.bytes()` returns it, `backward` one
/// as `b.reverse_bytes()` returns it.
pub proof fn lemma_backward_is_forward_reversed(
    b: FlexVector,
    forward: FlexVectorIter,
    backward: FlexVectorRIter,
)
    requires
        forward.upcoming() == b@,
        backward.upcoming() == b@.reverse(),
    ensures
        backward.upcoming().reverse() == forward.upcoming(),
{
}

/// Adding bytes to an empty buffer, at the end or at the front, gives a
/// buffer that holds exactly those bytes.
pub proof fn lemma_push_to_empty(empty: FlexVector, run: Seq<u8>, elem: u8)
    requires
        empty@ == Seq::<u8>::empty(),
    ensures
        empty@ + run == run,
        run + empty@ == run,
        empty@.push(elem) == seq![elem],
        seq![elem] + empty@ == seq![elem],
{
}

/// An insert one past the end gives nothing. An insert at the end always
/// gives a buffer, the one that adding at the end gives; an insert at the
/// front gives the one that adding at the front gives.
pub proof fn lemma_insert_bounds(b: FlexVector, run: Seq<u8>, elem: u8)
    ensures
        inserted(b@, b@.len() as int + 1, run) is None,
        inserted(b@, b@.len() as int, run) == Some(b@ + run),
        inserted(b@, b@.len() as int, seq![elem]) == Some(b@.push(elem)),
        inserted(b@, 0, run) == Some(run + b@),
{
}

/// An insert gives a buffer exactly when the index is not past the end, a
/// delete exactly when there is a byte at the index, and a range delete
/// exactly when the range is not empty and does not reach past the end.
pub proof fn lemma_edit_succeeds(b: FlexVector, index: nat, end: nat, run: Seq<u8>)
    ensures
        inserted(b@, index as int, run) is Some <==> index <= b@.len(),
        deleted(b@, index as int) is Some <==> index < b@.len(),
        range_deleted(b@, index as int, end as int) is Some <==> index < end && end <= b@.len(),
{
}

/// A buffer that an insert gives is longer than the one it came from by the
/// number of bytes put in; one that a delete gives is shorter by the number
/// of bytes taken out.
pub proof fn lemma_edit_lengths(b: FlexVector, index: int, end: int, run: Seq<u8>)
    ensures
        inserted(b@, index, run) matches Some(t) ==> t.len() == b@.len() + run.len(),
        deleted(b@, index) matches Some(t) ==> t.len() == b@.len() - 1,
        range_deleted(b@, index, end) matches Some(t) ==> t.len() == b@.len() - (end - index),
{
}

/// Deleting the whole of a buffer that is not empty always gives a buffer,
/// and that buffer is empty.
pub proof fn lemma_delete_everything(b: FlexVector)
    requires
        b@.len() > 0,
    ensures
        range_deleted(b@, 0, b@.len() as int) == Some(Seq::<u8>::empty()),
{
}

/// Concatenating three buffers gives the same bytes whichever two are put
/// together first.
pub proof fn lemma_concat_associative(a: FlexVector, b: FlexVector, c: FlexVector)
    ensures
        (a@ + b@) + c@ == a@ + (b@ + c@),
{
}

} // verus!
