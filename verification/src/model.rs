//! What each edit does, stated on plain sequences of bytes.
//!
//! The contracts of the buffer's operations are written with these
//! functions, and the laws that relate the operations are proved about them.

use vstd::prelude::*;

verus! {

/// `s` with `run` put in so that its first byte stands at position `index`.
pub open spec fn spliced(s: Seq<u8>, index: int, run: Seq<u8>) -> Seq<u8>
    recommends
        0 <= index <= s.len(),
{
    s.subrange(0, index) + run + s.subrange(index, s.len() as int)
}

/// `s` without the bytes at positions `start` up to, but not including, `end`.
pub open spec fn excised(s: Seq<u8>, start: int, end: int) -> Seq<u8>
    recommends
        0 <= start <= end <= s.len(),
{
    s.subrange(0, start) + s.subrange(end, s.len() as int)
}

/// What inserting `run` at `index` gives: nothing when `index` lies past the
/// end of `s`, and otherwise `s` with `run` put in at `index`.
pub open spec fn inserted(s: Seq<u8>, index: int, run: Seq<u8>) -> Option<Seq<u8>> {
    if 0 <= index <= s.len() {
        Some(spliced(s, index, run))
    } else {
        None
    }
}

/// What deleting the range from `start` to `end` gives: nothing when the
/// range is empty or reaches past the end of `s`, and otherwise `s` without
/// that range.
pub open spec fn range_deleted(s: Seq<u8>, start: int, end: int) -> Option<Seq<u8>> {
    if 0 <= start < end <= s.len() {
        Some(excised(s, start, end))
    } else {
        None
    }
}

/// What deleting the byte at `index` gives: nothing when `s` has no byte
/// there, and otherwise `s` without it.
pub open spec fn deleted(s: Seq<u8>, index: int) -> Option<Seq<u8>> {
    range_deleted(s, index, index + 1)
}

/// The position at which run `k` starts when the runs stand one after
/// another: the number of bytes in the runs before it.
pub open spec fn run_start(runs: Seq<Seq<u8>>, k: int) -> int
    decreases k,
{
    if k <= 0 {
        0
    } else {
        run_start(runs, k - 1) + runs[k - 1].len()
    }
}

/// The `len` positions from `start` on all lie in one and the same run: no
/// boundary between two runs falls among them.
pub open spec fn within_one_run(runs: Seq<Seq<u8>>, start: int, len: int) -> bool {
    exists|k: int|
        0 <= k < runs.len() && #[trigger] run_start(runs, k) <= start && start + len <= run_start(
            runs,
            k,
        ) + runs[k].len()
}

/// Runs that follow do not move the start of a run.
pub proof fn lemma_run_start_left(a: Seq<Seq<u8>>, b: Seq<Seq<u8>>, k: int)
    requires
        0 <= k <= a.len(),
    ensures
        run_start(a + b, k) == run_start(a, k),
    decreases k,
{
    if k > 0 {
        lemma_run_start_left(a, b, k - 1);
    }
}

/// Runs that come before move the start of a run by their total length.
pub proof fn lemma_run_start_right(a: Seq<Seq<u8>>, b: Seq<Seq<u8>>, k: int)
    requires
        0 <= k <= b.len(),
    ensures
        run_start(a + b, a.len() + k) == run_start(a, a.len() as int) + run_start(b, k),
    decreases k,
{
    if k > 0 {
        lemma_run_start_right(a, b, k - 1);
    } else {
        lemma_run_start_left(a, b, a.len() as int);
    }
}

/// A range that lies in one run still does when more runs follow.
pub proof fn lemma_within_one_run_left(a: Seq<Seq<u8>>, b: Seq<Seq<u8>>, start: int, len: int)
    requires
        within_one_run(a, start, len),
    ensures
        within_one_run(a + b, start, len),
{
    let k = choose|k: int|
        0 <= k < a.len() && #[trigger] run_start(a, k) <= start && start + len <= run_start(a, k)
            + a[k].len();
    lemma_run_start_left(a, b, k);
}

/// A range that lies in one run still does, further on by their total
/// length, when more runs come before.
pub proof fn lemma_within_one_run_right(a: Seq<Seq<u8>>, b: Seq<Seq<u8>>, start: int, len: int)
    requires
        within_one_run(b, start, len),
    ensures
        within_one_run(a + b, run_start(a, a.len() as int) + start, len),
{
    let k = choose|k: int|
        0 <= k < b.len() && #[trigger] run_start(b, k) <= start && start + len <= run_start(b, k)
            + b[k].len();
    lemma_run_start_right(a, b, k);
}

} // verus!
