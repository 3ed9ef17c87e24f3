//! Why undoing a command gives back the text and the carats it started from.

use crate::text::attributed_string::RichText;
use crate::text::splice::lemma_splice_undo_removal;
use crate::text::splice::splice;
use crate::ui::history::text_field::carat_snapshot::CaratSnapshot;
use crate::ui::history::text_field::carat_snapshot::carats_fit;
use crate::ui::history::text_field::carat_snapshot::no_selections;
use crate::ui::history::text_field::carat_snapshot::nothing_selected;
use crate::ui::history::text_field::text_backspace::TextBackspaceModel;
use crate::ui::history::text_field::text_insertion::TextInsertionModel;
use crate::ui::view::cursor_edit_facts::end_before;
use crate::ui::view::cursor_edit_facts::lemma_carats_after_insertions_fit;
use crate::ui::view::cursor_edit_facts::lemma_deletion_steps;
use crate::ui::view::cursor_edit_facts::lemma_insertion_closed_form;
use crate::ui::view::cursor_edit_facts::lemma_typed_head_prefix;
use crate::ui::view::cursor_edit_facts::typed_head;
use crate::ui::view::cursor_edits::can_reinsert;
use crate::ui::view::cursor_edits::carats_after_deletions;
use crate::ui::view::cursor_edits::carats_after_insertions;
use crate::ui::view::cursor_edits::removed_by_deletions;
use crate::ui::view::cursor_edits::span_of_deletion;
use crate::ui::view::cursor_edits::text_after_deletions;
use crate::ui::view::cursor_edits::text_after_insertions;
use crate::ui::view::cursor_edits::text_after_reinsertions;
use crate::ui::view::text_field::CursorMovement;
use crate::ui::view::text_field::TextFieldModel;
use vstd::prelude::*;

verus! {

/// Putting back what the carats `k..` took out, the last first, gives the
/// text as it was before carat `k` deleted.
proof fn lemma_reinsertions_undo_deletions(
    text: RichText,
    carats: Seq<CaratSnapshot>,
    movement: CursorMovement,
    count: int,
    k: int,
)
    requires
        text.wf(),
        carats_fit(carats, text.len() as int),
        0 <= k <= carats.len(),
    ensures
        ({
            let after = text_after_deletions(text, carats, movement, count, carats.len() as int);
            let stands = carats_after_deletions(text, carats, movement, count);
            let removed = removed_by_deletions(text, carats, movement, count);
            &&& can_reinsert(after, stands, removed, k)
            &&& text_after_reinsertions(after, stands, removed, k).wf()
            &&& text_after_reinsertions(after, stands, removed, k).text == text_after_deletions(
                text,
                carats,
                movement,
                count,
                k,
            ).text
        }),
    decreases carats.len() - k,
{
    lemma_deletion_steps(text, carats, movement, count, k);
    if k < carats.len() {
        lemma_reinsertions_undo_deletions(text, carats, movement, count, k + 1);
        let before = text_after_deletions(text, carats, movement, count, k);
        let span = span_of_deletion(text, carats, movement, count, k);
        lemma_splice_undo_removal(before.text, span.0, span.1);
    }
}

/// A backspace can always be undone: putting back what every carat took
/// out, from the last carat to the first, at the place where the carat ended
/// up, restores the text as it was, whatever the carats, the movement and
/// the count.
pub proof fn lemma_backspace_round_trip(
    text: RichText,
    carats: Seq<CaratSnapshot>,
    movement: CursorMovement,
    count: int,
)
    requires
        text.wf(),
        carats_fit(carats, text.len() as int),
    ensures
        ({
            let after = text_after_deletions(text, carats, movement, count, carats.len() as int);
            let stands = carats_after_deletions(text, carats, movement, count);
            let removed = removed_by_deletions(text, carats, movement, count);
            &&& after.wf()
            &&& can_reinsert(after, stands, removed, 0)
            &&& text_after_reinsertions(after, stands, removed, 0).wf()
            &&& text_after_reinsertions(after, stands, removed, 0).text == text.text
        }),
{
    lemma_deletion_steps(text, carats, movement, count, carats.len() as int);
    lemma_reinsertions_undo_deletions(text, carats, movement, count, 0);
}

/// Doing a [`TextBackspace`](crate::ui::history::text_field::text_backspace::TextBackspace)
/// and undoing it right away restores the text of the field and leaves the
/// carats where the command had recorded them before it ran. The undo is
/// always possible, and after it the command can be done again.
pub proof fn lemma_text_backspace_round_trip(action: TextBackspaceModel, field: TextFieldModel)
    requires
        field.wf(),
        carats_fit(action.cursors_before, field.text().len() as int),
    ensures
        ({
            let done = action.done(field);
            let deleted = action.field_after_forward(field);
            let undone = done.field_after_backward(deleted);
            &&& deleted.wf()
            &&& done.texts_deleted.len() == done.cursors_after.len()
            &&& can_reinsert(deleted.text(), done.cursors_after, done.texts_deleted, 0)
            &&& undone.wf()
            &&& undone.text().text == field.text().text
            &&& undone.carats == action.cursors_before
            &&& carats_fit(action.cursors_before, undone.text().len() as int)
            &&& undone.frame == field.frame
        }),
{
    lemma_backspace_round_trip(
        field.text(),
        action.cursors_before,
        action.cursor_movement,
        action.count as int,
    );
}

/// In the typed text, what stands between the end of one head and the end
/// of the next is the text up to the carat and the copy typed at it.
proof fn lemma_typed_between(
    text: RichText,
    carats: Seq<CaratSnapshot>,
    inserted: Seq<char>,
    k: int,
)
    requires
        text.wf(),
        carats_fit(carats, text.len() as int),
        0 <= k < carats.len(),
    ensures
        ({
            let typed = text_after_insertions(text, carats, inserted, carats.len() as int);
            let head = typed_head(text.text, carats, inserted, k);
            let next = typed_head(text.text, carats, inserted, k + 1);
            &&& head.len() <= next.len() <= typed.len()
            &&& next.len() == head.len() + (carats[k].extent_start() - end_before(carats, k))
                + inserted.len()
            &&& typed.text.subrange(head.len() as int, next.len() as int) == text.text.subrange(
                end_before(carats, k),
                carats[k].extent_start(),
            ) + inserted
        }),
{
    let n = carats.len() as int;
    let typed = text_after_insertions(text, carats, inserted, n);
    let head = typed_head(text.text, carats, inserted, k);
    let next = typed_head(text.text, carats, inserted, k + 1);
    lemma_insertion_closed_form(text, carats, inserted, n);
    lemma_typed_head_prefix(text, carats, inserted, k + 1, n);
    assert(typed.text.subrange(head.len() as int, next.len() as int) =~= next.subrange(
        head.len() as int,
        next.len() as int,
    ));
}

/// One step of the undo: where the text stands as `before` says, taking out
/// the copy that was typed at `at` moves the border between what is as it
/// was and what is still typed from behind carat `k - 1` to behind carat `k`.
proof fn lemma_undo_step(
    was: Seq<char>,
    typed: Seq<char>,
    inserted: Seq<char>,
    from: int,
    at: int,
    head: int,
)
    requires
        0 <= from <= at <= was.len(),
        0 <= head,
        head + (at - from) + inserted.len() <= typed.len(),
        typed.subrange(head, head + (at - from) + inserted.len()) == was.subrange(from, at)
            + inserted,
    ensures
        splice(
            was.subrange(0, from) + typed.subrange(head, typed.len() as int),
            at,
            at + inserted.len(),
            Seq::empty(),
        ) == was.subrange(0, at) + typed.subrange(
            head + (at - from) + inserted.len(),
            typed.len() as int,
        ),
{
}

/// Whether the backspace that undoes typing stands before carat `k` as it
/// should: in front, the text as it was before the typing, up to the carat
/// before; behind, what was typed from there on.
spec fn undo_stands(
    text: RichText,
    carats: Seq<CaratSnapshot>,
    inserted: Seq<char>,
    k: int,
) -> bool {
    let typed = text_after_insertions(text, carats, inserted, carats.len() as int);
    let stands = carats_after_insertions(carats, inserted.len() as int);
    let undone = text_after_deletions(
        typed,
        stands,
        CursorMovement::Character,
        inserted.len() as int,
        k,
    );
    &&& undone.wf()
    &&& undone.text == text.text.subrange(0, end_before(carats, k)) + typed.text.subrange(
        typed_head(text.text, carats, inserted, k).len() as int,
        typed.len() as int,
    )
}

/// Where the undo stands as it should before carat `k`, the backspace at
/// carat `k` takes out the copy that was typed there and nothing else.
proof fn lemma_undo_span(text: RichText, carats: Seq<CaratSnapshot>, inserted: Seq<char>, k: int)
    requires
        text.wf(),
        carats_fit(carats, text.len() as int),
        nothing_selected(carats),
        text_after_insertions(text, carats, inserted, carats.len() as int).len() <= usize::MAX,
        0 <= k < carats.len(),
        undo_stands(text, carats, inserted, k),
    ensures
        span_of_deletion(
            text_after_insertions(text, carats, inserted, carats.len() as int),
            carats_after_insertions(carats, inserted.len() as int),
            CursorMovement::Character,
            inserted.len() as int,
            k,
        ) == (carats[k].character_index as int, carats[k].character_index + inserted.len()),
        end_before(carats, k) <= carats[k].character_index <= text.len(),
{
    lemma_insertion_closed_form(text, carats, inserted, k);
    lemma_typed_between(text, carats, inserted, k);
}

/// The undo stands as it should before every carat.
proof fn lemma_deletions_undo_insertions(
    text: RichText,
    carats: Seq<CaratSnapshot>,
    inserted: Seq<char>,
    k: int,
)
    requires
        text.wf(),
        carats_fit(carats, text.len() as int),
        nothing_selected(carats),
        text_after_insertions(text, carats, inserted, carats.len() as int).len() <= usize::MAX,
        0 <= k <= carats.len(),
    ensures
        undo_stands(text, carats, inserted, k),
    decreases k,
{
    let n = carats.len() as int;
    let typed = text_after_insertions(text, carats, inserted, n);
    if k > 0 {
        lemma_deletions_undo_insertions(text, carats, inserted, k - 1);
        lemma_undo_span(text, carats, inserted, k - 1);
        lemma_typed_between(text, carats, inserted, k - 1);
        let at = carats[k - 1].character_index as int;
        let head = typed_head(text.text, carats, inserted, k - 1);
        lemma_undo_step(
            text.text,
            typed.text,
            inserted,
            end_before(carats, k - 1),
            at,
            head.len() as int,
        );
    } else {
        lemma_insertion_closed_form(text, carats, inserted, n);
        assert(typed.text =~= text.text.subrange(0, 0) + typed.text.subrange(0, typed.len() as int));
    }
}

/// Typing at carats that select nothing can be undone by a backspace: put
/// the carats behind the typed text, delete backwards by character as many
/// characters as were typed, and the text is as it was, with every carat
/// before the character it stood before. Carats without a selection are
/// then exactly as they were; a carat with an empty selection has lost it.
pub proof fn lemma_insertion_round_trip(
    text: RichText,
    carats: Seq<CaratSnapshot>,
    inserted: Seq<char>,
)
    requires
        text.wf(),
        carats_fit(carats, text.len() as int),
        nothing_selected(carats),
        text_after_insertions(text, carats, inserted, carats.len() as int).len() <= usize::MAX,
    ensures
        ({
            let typed = text_after_insertions(text, carats, inserted, carats.len() as int);
            let stands = carats_after_insertions(carats, inserted.len() as int);
            let undone = text_after_deletions(
                typed,
                stands,
                CursorMovement::Character,
                inserted.len() as int,
                carats.len() as int,
            );
            let back = carats_after_deletions(
                typed,
                stands,
                CursorMovement::Character,
                inserted.len() as int,
            );
            &&& typed.wf()
            &&& carats_fit(stands, typed.len() as int)
            &&& undone.wf()
            &&& undone.text == text.text
            &&& back.len() == carats.len()
            &&& forall|k: int|
                0 <= k < carats.len() ==> #[trigger] back[k] == CaratSnapshot::at(
                    carats[k].character_index as int,
                )
            &&& no_selections(carats) ==> back == carats
        }),
{
    let n = carats.len() as int;
    let len = inserted.len() as int;
    let typed = text_after_insertions(text, carats, inserted, n);
    let stands = carats_after_insertions(carats, len);
    lemma_insertion_closed_form(text, carats, inserted, n);
    lemma_deletions_undo_insertions(text, carats, inserted, n);
    lemma_carats_after_insertions_fit(text, carats, inserted);
    let back = carats_after_deletions(typed, stands, CursorMovement::Character, len);
    assert forall|k: int| 0 <= k < n implies #[trigger] back[k] == CaratSnapshot::at(
        carats[k].character_index as int,
    ) by {
        lemma_deletions_undo_insertions(text, carats, inserted, k);
        lemma_undo_span(text, carats, inserted, k);
    }
}

/// Doing a [`TextInsertion`](crate::ui::history::text_field::text_insertion::TextInsertion)
/// whose carats select nothing and undoing it right away restores the text
/// of the field, and puts every carat before the character it stood before
/// when the command recorded it. Carats recorded without a selection are
/// restored exactly. The undo is always possible, and after it the command
/// can be done again.
pub proof fn lemma_text_insertion_round_trip(action: TextInsertionModel, field: TextFieldModel)
    requires
        field.wf(),
        carats_fit(action.cursors_before, field.text().len() as int),
        nothing_selected(action.cursors_before),
        action.field_after_forward(field).text().len() <= usize::MAX,
    ensures
        ({
            let done = action.done();
            let typed = action.field_after_forward(field);
            let undone = done.field_after_backward(typed);
            &&& typed.wf()
            &&& done.cursors_after == typed.carats
            &&& carats_fit(done.cursors_after, typed.text().len() as int)
            &&& undone.wf()
            &&& undone.text().text == field.text().text
            &&& undone.carats.len() == action.cursors_before.len()
            &&& forall|k: int|
                0 <= k < action.cursors_before.len() ==> #[trigger] undone.carats[k]
                    == CaratSnapshot::at(action.cursors_before[k].character_index as int)
            &&& no_selections(action.cursors_before) ==> undone.carats == action.cursors_before
            &&& carats_fit(action.cursors_before, undone.text().len() as int)
            &&& undone.frame == field.frame
        }),
{
    lemma_insertion_round_trip(field.text(), action.cursors_before, action.text);
}

/// What a command does to a field does not depend on where the carats of
/// the field stand: the command first puts them where it has recorded them.
pub proof fn lemma_forward_ignores_the_carats_of_the_field(
    insertion: TextInsertionModel,
    backspace: TextBackspaceModel,
    field: TextFieldModel,
    carats: Seq<CaratSnapshot>,
)
    ensures
        insertion.field_after_forward(field.with_carats(carats)) == insertion.field_after_forward(
            field,
        ),
        backspace.field_after_forward(field.with_carats(carats)) == backspace.field_after_forward(
            field,
        ),
        backspace.done(field.with_carats(carats)) == backspace.done(field),
{
}

} // verus!
