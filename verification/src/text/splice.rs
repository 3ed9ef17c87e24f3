//! Replacing a range of a sequence, the one edit every text mutation is made of.

use vstd::prelude::*;

verus! {

/// `s` with the elements at `[start, end)` replaced by `replacement`.
pub open spec fn splice<T>(s: Seq<T>, start: int, end: int, replacement: Seq<T>) -> Seq<T> {
    s.subrange(0, start) + replacement + s.subrange(end, s.len() as int)
}

/// Putting the removed elements back where they were undoes a removal.
pub proof fn lemma_splice_undo_removal<T>(s: Seq<T>, start: int, end: int)
    requires
        0 <= start <= end <= s.len(),
    ensures
        splice(splice(s, start, end, Seq::empty()), start, start, s.subrange(start, end)) == s,
{
}

} // verus!
