//! What editing at several carats at once does to a text, carat by carat.
//!
//! The carats are worked through in ascending order. An edit at one carat
//! moves everything behind it, so each carat is first brought from the
//! indices it was recorded in to the text as the carats before it left it:
//! by the shift, the number of characters put in or taken out so far.

use crate::text::attributed_string::RichText;
use crate::text::boundaries::is_newline;
use crate::text::boundaries::is_whitespace;
use crate::text::boundaries::lemma_run_start;
use crate::text::boundaries::line_start;
use crate::text::boundaries::line_start_in;
use crate::text::boundaries::word_start;
use crate::text::boundaries::word_start_in;
use crate::ui::history::text_field::carat_snapshot::CaratSnapshot;
use crate::ui::view::text_field::CursorMovement;
use vstd::prelude::*;

verus! {

/// How far the first `k` insertions of `inserted` characters have moved what
/// stands behind them: each put `inserted` characters in and took the
/// selection of its carat out.
pub open spec fn insertion_shift(carats: Seq<CaratSnapshot>, inserted: int, k: int) -> int
    decreases k,
{
    if k <= 0 {
        0
    } else {
        insertion_shift(carats, inserted, k - 1) + inserted - (carats[k - 1].extent_end()
            - carats[k - 1].extent_start())
    }
}

/// The text after `inserted` was put in at the first `k` carats, in place of
/// what they selected.
pub open spec fn text_after_insertions(
    text: RichText,
    carats: Seq<CaratSnapshot>,
    inserted: Seq<char>,
    k: int,
) -> RichText
    decreases k,
{
    if k <= 0 {
        text
    } else {
        let shift = insertion_shift(carats, inserted.len() as int, k - 1);
        text_after_insertions(text, carats, inserted, k - 1).replaced(
            carats[k - 1].extent_start() + shift,
            carats[k - 1].extent_end() + shift,
            inserted,
        )
    }
}

/// Where carat `k` stands after the insertions: behind its own copy of the
/// inserted text, with nothing selected.
pub open spec fn carat_after_insertion(carats: Seq<CaratSnapshot>, inserted: int, k: int) -> CaratSnapshot {
    CaratSnapshot::at(carats[k].extent_start() + insertion_shift(carats, inserted, k) + inserted)
}

/// The carats after an insertion of `inserted` characters at each of them.
pub open spec fn carats_after_insertions(carats: Seq<CaratSnapshot>, inserted: int) -> Seq<CaratSnapshot> {
    Seq::new(carats.len(), |k: int| carat_after_insertion(carats, inserted, k))
}

/// Where a backspace that ends at `end` begins. One step by character goes
/// back one character, `count` steps go back `count`, and none goes before
/// the start of the text. One step by word goes back to the start of the
/// word, one step by line to the start of the line; after that there is
/// nothing left to go back over, so further steps change nothing.
pub open spec fn span_start(text: Seq<char>, end: int, movement: CursorMovement, count: int) -> int {
    if count <= 0 {
        end
    } else {
        match movement {
            CursorMovement::Character => if end - count < 0 {
                0
            } else {
                end - count
            },
            CursorMovement::Word => word_start(text, end),
            CursorMovement::Line => line_start(text, end),
        }
    }
}

/// The characters `[start, end)` that a backspace at `carat` takes out of
/// `text`, where the carats before it have already taken `shift` characters
/// out. A carat that selects text takes out what it selects, whatever the
/// movement and the count; any other takes out what lies before it.
pub open spec fn deletion_span(
    text: Seq<char>,
    carat: CaratSnapshot,
    shift: int,
    movement: CursorMovement,
    count: int,
) -> (int, int) {
    if carat.selects() {
        (carat.extent_start() - shift, carat.extent_end() - shift)
    } else {
        let end = carat.character_index - shift;
        (span_start(text, end, movement, count), end)
    }
}

/// The text after the backspace at the first `k` carats.
pub open spec fn text_after_deletions(
    text: RichText,
    carats: Seq<CaratSnapshot>,
    movement: CursorMovement,
    count: int,
    k: int,
) -> RichText
    decreases k,
{
    if k <= 0 {
        text
    } else {
        let before = text_after_deletions(text, carats, movement, count, k - 1);
        let span = deletion_span(
            before.text,
            carats[k - 1],
            text.len() - before.len(),
            movement,
            count,
        );
        before.replaced(span.0, span.1, Seq::empty())
    }
}

/// The characters that the backspace at carat `k` takes out, as indices into
/// the text that the carats before it have left.
pub open spec fn span_of_deletion(
    text: RichText,
    carats: Seq<CaratSnapshot>,
    movement: CursorMovement,
    count: int,
    k: int,
) -> (int, int) {
    let before = text_after_deletions(text, carats, movement, count, k);
    deletion_span(before.text, carats[k], text.len() - before.len(), movement, count)
}

/// The text that the backspace at carat `k` takes out.
pub open spec fn removed_by_deletion(
    text: RichText,
    carats: Seq<CaratSnapshot>,
    movement: CursorMovement,
    count: int,
    k: int,
) -> Seq<char> {
    let span = span_of_deletion(text, carats, movement, count, k);
    text_after_deletions(text, carats, movement, count, k).text.subrange(span.0, span.1)
}

/// The text taken out at each carat, in the order of the carats.
pub open spec fn removed_by_deletions(
    text: RichText,
    carats: Seq<CaratSnapshot>,
    movement: CursorMovement,
    count: int,
) -> Seq<Seq<char>> {
    Seq::new(carats.len(), |k: int| removed_by_deletion(text, carats, movement, count, k))
}

/// The carats after the backspace: each stands where its deletion began,
/// with nothing selected.
pub open spec fn carats_after_deletions(
    text: RichText,
    carats: Seq<CaratSnapshot>,
    movement: CursorMovement,
    count: int,
) -> Seq<CaratSnapshot> {
    Seq::new(
        carats.len(),
        |k: int| CaratSnapshot::at(span_of_deletion(text, carats, movement, count, k).0),
    )
}

/// The text after the fragments `k..` were put back at their carats, the
/// last fragment first.
pub open spec fn text_after_reinsertions(
    text: RichText,
    carats: Seq<CaratSnapshot>,
    fragments: Seq<Seq<char>>,
    k: int,
) -> RichText
    decreases fragments.len() - k,
{
    if k >= fragments.len() {
        text
    } else {
        let at = carats[k].character_index as int;
        text_after_reinsertions(text, carats, fragments, k + 1).replaced(at, at, fragments[k])
    }
}

/// Whether the fragments `k..` can be put back: each carat lies inside the
/// text as the fragments behind it have left it.
pub open spec fn can_reinsert(
    text: RichText,
    carats: Seq<CaratSnapshot>,
    fragments: Seq<Seq<char>>,
    k: int,
) -> bool
    decreases fragments.len() - k,
{
    if k >= fragments.len() {
        true
    } else {
        &&& can_reinsert(text, carats, fragments, k + 1)
        &&& carats[k].character_index <= text_after_reinsertions(
            text,
            carats,
            fragments,
            k + 1,
        ).len()
    }
}

/// What can be put back from `k` on can be put back from any later index on.
pub proof fn lemma_can_reinsert_from(
    text: RichText,
    carats: Seq<CaratSnapshot>,
    fragments: Seq<Seq<char>>,
    k: int,
    later: int,
)
    requires
        0 <= k <= later,
        can_reinsert(text, carats, fragments, k),
    ensures
        can_reinsert(text, carats, fragments, later),
    decreases later - k,
{
    if k < later && k < fragments.len() {
        lemma_can_reinsert_from(text, carats, fragments, k + 1, later);
    }
}

/// A backspace begins inside the text, at or before its end.
pub proof fn lemma_span_start_bounds(text: Seq<char>, end: int, movement: CursorMovement, count: int)
    requires
        0 <= end <= text.len(),
    ensures
        0 <= span_start(text, end, movement, count) <= end,
{
    lemma_run_start(text, end, |c: char| is_whitespace(c));
    lemma_run_start(text, end, |c: char| is_newline(c));
}

/// Computes [`span_start`].
pub fn span_start_in(text: &str, end: usize, movement: CursorMovement, count: usize) -> (start: usize)
    requires
        end <= text@.len(),
    ensures
        start == span_start(text@, end as int, movement, count as int),
        start <= end,
{
    proof {
        lemma_span_start_bounds(text@, end as int, movement, count as int);
    }
    if count == 0 {
        end
    } else {
        match movement {
            CursorMovement::Character => if count >= end {
                0
            } else {
                end - count
            },
            CursorMovement::Word => word_start_in(text, end),
            CursorMovement::Line => line_start_in(text, end),
        }
    }
}

} // verus!
