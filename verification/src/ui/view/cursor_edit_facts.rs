//! What holds of the edits at several carats: where each step stands, and
//! what the steps add up to.

use crate::text::attributed_string::RichText;
use crate::text::boundaries::is_newline;
use crate::text::boundaries::is_whitespace;
use crate::text::boundaries::lemma_run_start;
use crate::text::boundaries::lemma_run_start_again;
use crate::text::boundaries::lemma_run_start_behind_break;
use crate::text::boundaries::lemma_single_line_starts_at_zero;
use crate::text::splice::splice;
use crate::ui::history::text_field::carat_snapshot::CaratSnapshot;
use crate::ui::history::text_field::carat_snapshot::carats_fit;
use crate::ui::history::text_field::carat_snapshot::carats_stand_apart;
use crate::ui::history::text_field::carat_snapshot::no_selections;
use crate::ui::history::text_field::carat_snapshot::nothing_selected;
use crate::ui::view::cursor_edits::carats_after_deletions;
use crate::ui::view::cursor_edits::carats_after_insertions;
use crate::ui::view::cursor_edits::insertion_shift;
use crate::ui::view::cursor_edits::lemma_span_start_bounds;
use crate::ui::view::cursor_edits::span_of_deletion;
use crate::ui::view::cursor_edits::span_start;
use crate::ui::view::cursor_edits::text_after_deletions;
use crate::ui::view::cursor_edits::text_after_insertions;
use crate::ui::view::text_field::CursorMovement;
use vstd::prelude::*;

verus! {

/// How a backspace stands before carat `k`: the text is well formed and
/// shorter by the shift, the shift does not reach past the carat before,
/// and the characters that carat `k` takes out lie inside the text.
pub proof fn lemma_deletion_steps(
    text: RichText,
    carats: Seq<CaratSnapshot>,
    movement: CursorMovement,
    count: int,
    k: int,
)
    requires
        text.wf(),
        carats_fit(carats, text.len() as int),
        0 <= k <= carats.len(),
    ensures
        text_after_deletions(text, carats, movement, count, k).wf(),
        text_after_deletions(text, carats, movement, count, k).len() <= text.len(),
        k == 0 ==> text_after_deletions(text, carats, movement, count, k).len() == text.len(),
        k > 0 ==> text.len() - text_after_deletions(text, carats, movement, count, k).len()
            <= carats[k - 1].extent_end(),
        k < carats.len() ==> 0 <= span_of_deletion(text, carats, movement, count, k).0
            <= span_of_deletion(text, carats, movement, count, k).1 <= text_after_deletions(
            text,
            carats,
            movement,
            count,
            k,
        ).len(),
        k < carats.len() ==> span_of_deletion(text, carats, movement, count, k).0
            <= carats[k].extent_start(),
    decreases k,
{
    if k > 0 {
        lemma_deletion_steps(text, carats, movement, count, k - 1);
    }
    if k < carats.len() {
        let now = text_after_deletions(text, carats, movement, count, k);
        if !carats[k].selects() {
            lemma_span_start_bounds(
                now.text,
                carats[k].character_index - (text.len() - now.len()),
                movement,
                count,
            );
        }
    }
}

/// One step by word or by line is all there is: more steps begin where one
/// step begins, and a second backspace from there, in the text that the
/// first has left, takes nothing.
pub proof fn lemma_further_steps_go_nowhere(
    text: Seq<char>,
    end: int,
    movement: CursorMovement,
    count: int,
)
    requires
        0 <= end <= text.len(),
        movement != CursorMovement::Character,
        count >= 1,
    ensures
        span_start(text, end, movement, count) == span_start(text, end, movement, 1),
        span_start(
            splice(text, span_start(text, end, movement, 1), end, Seq::empty()),
            span_start(text, end, movement, 1),
            movement,
            count,
        ) == span_start(text, end, movement, 1),
{
    let start = span_start(text, end, movement, 1);
    let later = splice(text, start, end, Seq::empty());
    lemma_span_start_bounds(text, end, movement, 1);
    assert(later.subrange(0, start) =~= text.subrange(0, start));
    match movement {
        CursorMovement::Word => {
            lemma_run_start_again(text, end, |c: char| is_whitespace(c), later);
        },
        CursorMovement::Line => {
            lemma_run_start_again(text, end, |c: char| is_newline(c), later);
        },
        CursorMovement::Character => {},
    }
}

/// A backspace puts no newline into a text that has none.
pub proof fn lemma_deletions_keep_a_single_line(
    text: RichText,
    carats: Seq<CaratSnapshot>,
    movement: CursorMovement,
    count: int,
    k: int,
)
    requires
        text.wf(),
        carats_fit(carats, text.len() as int),
        0 <= k <= carats.len(),
        forall|i: int| 0 <= i < text.len() ==> !is_newline(#[trigger] text.text[i]),
    ensures
        forall|i: int|
            0 <= i < text_after_deletions(text, carats, movement, count, k).len() ==> !is_newline(
                #[trigger] text_after_deletions(text, carats, movement, count, k).text[i],
            ),
    decreases k,
{
    if k > 0 {
        lemma_deletions_keep_a_single_line(text, carats, movement, count, k - 1);
        lemma_deletion_steps(text, carats, movement, count, k - 1);
    }
}

/// In a text of a single line, a backspace by line at a carat that selects
/// nothing takes out all that stands before the carat, wherever in the line
/// the carat stands, and leaves the carat at the start of the text.
pub proof fn lemma_line_backspace_on_a_single_line(
    text: RichText,
    carats: Seq<CaratSnapshot>,
    count: int,
    k: int,
)
    requires
        text.wf(),
        carats_fit(carats, text.len() as int),
        forall|i: int| 0 <= i < text.len() ==> !is_newline(#[trigger] text.text[i]),
        count >= 1,
        0 <= k < carats.len(),
        !carats[k].selects(),
    ensures
        span_of_deletion(text, carats, CursorMovement::Line, count, k).0 == 0,
        carats_after_deletions(text, carats, CursorMovement::Line, count)[k] == CaratSnapshot::at(0),
        k == 0 ==> span_of_deletion(text, carats, CursorMovement::Line, count, k) == (
            0int,
            carats[k].character_index as int,
        ),
        k == 0 ==> text_after_deletions(text, carats, CursorMovement::Line, count, 1).text
            == text.text.subrange(carats[k].character_index as int, text.len() as int),
{
    lemma_deletions_keep_a_single_line(text, carats, CursorMovement::Line, count, k);
    lemma_deletion_steps(text, carats, CursorMovement::Line, count, k);
    let before = text_after_deletions(text, carats, CursorMovement::Line, count, k);
    let end = carats[k].character_index - (text.len() - before.len());
    lemma_single_line_starts_at_zero(before.text, end);
}

/// Where a backspace at carats that select nothing puts carat `k + 1`: not
/// before carat `k`, as long as the backspace goes by word or by line, or by
/// no more characters than lie between the two carats.
proof fn lemma_deletion_keeps_order(
    text: RichText,
    carats: Seq<CaratSnapshot>,
    movement: CursorMovement,
    count: int,
    k: int,
)
    requires
        text.wf(),
        carats_fit(carats, text.len() as int),
        nothing_selected(carats),
        movement == CursorMovement::Character ==> carats_stand_apart(carats, count),
        0 <= k,
        k + 1 < carats.len(),
    ensures
        0 <= span_of_deletion(text, carats, movement, count, k).0 <= span_of_deletion(
            text,
            carats,
            movement,
            count,
            k + 1,
        ).0,
{
    lemma_deletion_steps(text, carats, movement, count, k);
    lemma_deletion_steps(text, carats, movement, count, k + 1);
    let before = text_after_deletions(text, carats, movement, count, k);
    let after = text_after_deletions(text, carats, movement, count, k + 1);
    let span = span_of_deletion(text, carats, movement, count, k);
    let end = carats[k + 1].character_index - (text.len() - after.len());
    if count > 0 && span.0 > 0 {
        match movement {
            CursorMovement::Word => {
                lemma_run_start(before.text, span.1, |c: char| is_whitespace(c));
                lemma_run_start_behind_break(after.text, end, |c: char| is_whitespace(c), span.0);
            },
            CursorMovement::Line => {
                lemma_run_start(before.text, span.1, |c: char| is_newline(c));
                lemma_run_start_behind_break(after.text, end, |c: char| is_newline(c), span.0);
            },
            CursorMovement::Character => {},
        }
    }
}

/// The carats that a backspace leaves behind can be edited at in the text it
/// leaves behind, as long as it started from carats that select nothing and
/// went by word or by line, or by no more characters than lie between any
/// two carats: they stand in ascending order inside the text and select
/// nothing. A backspace by more characters than that can put a carat before
/// the carat in front of it.
pub proof fn lemma_carats_after_deletions_fit(
    text: RichText,
    carats: Seq<CaratSnapshot>,
    movement: CursorMovement,
    count: int,
)
    requires
        text.wf(),
        carats_fit(carats, text.len() as int),
        nothing_selected(carats),
        movement == CursorMovement::Character ==> carats_stand_apart(carats, count),
    ensures
        carats_fit(
            carats_after_deletions(text, carats, movement, count),
            text_after_deletions(text, carats, movement, count, carats.len() as int).len() as int,
        ),
        no_selections(carats_after_deletions(text, carats, movement, count)),
{
    let n = carats.len() as int;
    let stands = carats_after_deletions(text, carats, movement, count);
    assert forall|j: int| 0 <= j < n implies #[trigger] stands[j].character_index
        == span_of_deletion(text, carats, movement, count, j).0 && stands[j].selection is None by {
        lemma_deletion_steps(text, carats, movement, count, j);
    }
    assert forall|i: int, j: int| 0 <= i <= j < n implies span_of_deletion(
        text,
        carats,
        movement,
        count,
        i,
    ).0 <= span_of_deletion(text, carats, movement, count, j).0 by {
        lemma_deletions_keep_order(text, carats, movement, count, i, j);
    }
    if n > 0 {
        lemma_deletion_steps(text, carats, movement, count, n - 1);
    }
}

/// The order that neighbours keep, kept from carat `i` to carat `j`.
proof fn lemma_deletions_keep_order(
    text: RichText,
    carats: Seq<CaratSnapshot>,
    movement: CursorMovement,
    count: int,
    i: int,
    j: int,
)
    requires
        text.wf(),
        carats_fit(carats, text.len() as int),
        nothing_selected(carats),
        movement == CursorMovement::Character ==> carats_stand_apart(carats, count),
        0 <= i <= j < carats.len(),
    ensures
        0 <= span_of_deletion(text, carats, movement, count, i).0 <= span_of_deletion(
            text,
            carats,
            movement,
            count,
            j,
        ).0,
    decreases j - i,
{
    if i < j {
        lemma_deletions_keep_order(text, carats, movement, count, i, j - 1);
        lemma_deletion_keeps_order(text, carats, movement, count, j - 1);
    } else {
        lemma_deletion_steps(text, carats, movement, count, i);
    }
}

/// Where the stretch of carat `k - 1` ends: the place from which the text
/// before carat `k` is still as it was. For the first carat that is the
/// start of the text.
pub open spec fn end_before(carats: Seq<CaratSnapshot>, k: int) -> int {
    if k <= 0 {
        0
    } else {
        carats[k - 1].extent_end()
    }
}

/// The typed text up to and with the copy for carat `k - 1`: for each carat
/// in turn, the text that lies between the carat before and this one, then
/// a copy of `inserted`.
pub open spec fn typed_head(
    text: Seq<char>,
    carats: Seq<CaratSnapshot>,
    inserted: Seq<char>,
    k: int,
) -> Seq<char>
    decreases k,
{
    if k <= 0 {
        Seq::empty()
    } else {
        typed_head(text, carats, inserted, k - 1) + text.subrange(
            end_before(carats, k - 1),
            carats[k - 1].extent_start(),
        ) + inserted
    }
}

/// What typing at the first `k` carats amounts to: the text between the
/// carats, with a copy of `inserted` in place of what each carat selects,
/// and behind the last of them the rest of the text as it was.
pub proof fn lemma_insertion_closed_form(
    text: RichText,
    carats: Seq<CaratSnapshot>,
    inserted: Seq<char>,
    k: int,
)
    requires
        text.wf(),
        carats_fit(carats, text.len() as int),
        0 <= k <= carats.len(),
    ensures
        text_after_insertions(text, carats, inserted, k).wf(),
        text_after_insertions(text, carats, inserted, k).len() == text.len() + insertion_shift(
            carats,
            inserted.len() as int,
            k,
        ),
        0 <= end_before(carats, k) <= text.len(),
        typed_head(text.text, carats, inserted, k).len() == end_before(carats, k)
            + insertion_shift(carats, inserted.len() as int, k),
        text_after_insertions(text, carats, inserted, k).text == typed_head(
            text.text,
            carats,
            inserted,
            k,
        ) + text.text.subrange(end_before(carats, k), text.len() as int),
    decreases k,
{
    if k > 0 {
        lemma_insertion_closed_form(text, carats, inserted, k - 1);
    }
}

/// The typed text up to carat `k` stays in front as more is typed.
pub proof fn lemma_typed_head_prefix(
    text: RichText,
    carats: Seq<CaratSnapshot>,
    inserted: Seq<char>,
    k: int,
    m: int,
)
    requires
        text.wf(),
        carats_fit(carats, text.len() as int),
        0 <= k <= m <= carats.len(),
    ensures
        typed_head(text.text, carats, inserted, k).len() <= typed_head(
            text.text,
            carats,
            inserted,
            m,
        ).len(),
        typed_head(text.text, carats, inserted, m).subrange(
            0,
            typed_head(text.text, carats, inserted, k).len() as int,
        ) == typed_head(text.text, carats, inserted, k),
    decreases m - k,
{
    if k < m {
        lemma_typed_head_prefix(text, carats, inserted, k, m - 1);
    }
}

/// The carats that typing leaves behind can be edited at in the typed text:
/// they stand in ascending order inside it and select nothing.
pub proof fn lemma_carats_after_insertions_fit(
    text: RichText,
    carats: Seq<CaratSnapshot>,
    inserted: Seq<char>,
)
    requires
        text.wf(),
        carats_fit(carats, text.len() as int),
        text_after_insertions(text, carats, inserted, carats.len() as int).len() <= usize::MAX,
    ensures
        carats_fit(
            carats_after_insertions(carats, inserted.len() as int),
            text_after_insertions(text, carats, inserted, carats.len() as int).len() as int,
        ),
        no_selections(carats_after_insertions(carats, inserted.len() as int)),
{
    let n = carats.len() as int;
    let len = inserted.len() as int;
    let typed = text_after_insertions(text, carats, inserted, n);
    let stands = carats_after_insertions(carats, len);
    lemma_insertion_closed_form(text, carats, inserted, n);
    assert forall|j: int| 0 <= j < n implies (#[trigger] stands[j]).selection is None
        && stands[j].character_index == typed_head(text.text, carats, inserted, j + 1).len()
        && stands[j].character_index <= typed.len() by {
        lemma_insertion_closed_form(text, carats, inserted, j + 1);
        lemma_typed_head_prefix(text, carats, inserted, j + 1, n);
    }
    assert forall|i: int, j: int| 0 <= i < j < n implies (#[trigger] stands[i]).extent_end() <= (
    #[trigger] stands[j]).extent_start() by {
        lemma_typed_head_prefix(text, carats, inserted, i + 1, j + 1);
    }
}

} // verus!
