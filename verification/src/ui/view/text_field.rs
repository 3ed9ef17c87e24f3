//! A view whose text is edited at one or more carats.

use crate::graphics::Color;
use crate::graphics::Font;
use crate::graphics::Rectangle;
use crate::text::attributed_string::Attribute;
use crate::text::attributed_string::Key;
use crate::text::attributed_string::RichText;
use crate::ui::history::text_field::carat_snapshot::CaratSnapshot;
use crate::ui::history::text_field::carat_snapshot::carats_fit;
use crate::ui::history::text_field::carat_snapshot::decide_carats_fit;
use crate::ui::view::cursor_edits::can_reinsert;
use crate::ui::view::cursor_edits::carat_after_insertion;
use crate::ui::view::cursor_edits::carats_after_deletions;
use crate::ui::view::cursor_edits::carats_after_insertions;
use crate::ui::view::cursor_edits::insertion_shift;
use crate::ui::view::cursor_edits::lemma_can_reinsert_from;
use crate::ui::view::cursor_edits::removed_by_deletion;
use crate::ui::view::cursor_edits::removed_by_deletions;
use crate::ui::view::cursor_edits::span_of_deletion;
use crate::ui::view::cursor_edits::span_start_in;
use crate::ui::view::cursor_edits::text_after_deletions;
use crate::ui::view::cursor_edits::text_after_insertions;
use crate::ui::view::cursor_edits::text_after_reinsertions;
use crate::ui::view::label::Label;
use crate::ui::view::label::LabelModel;
use std::ops::Range;
use vstd::prelude::*;

verus! {

/// The unit that one step of a carat movement covers.
#[derive(Clone, Copy, Debug, PartialEq, Eq, Structural)]
pub enum CursorMovement {
    Character,
    Word,
    Line,
}

/// A view that holds a label and the carats at which its text is edited.
#[derive(Debug)]
pub struct TextField {
    frame: Rectangle,
    label: Label,
    carats: Vec<CaratSnapshot>,
}

/// What a [`TextField`] stands for.
pub struct TextFieldModel {
    pub frame: Rectangle,
    pub label: LabelModel,
    pub carats: Seq<CaratSnapshot>,
}

impl View for TextField {
    type V = TextFieldModel;

    closed spec fn view(&self) -> TextFieldModel {
        TextFieldModel { frame: self.frame, label: self.label@, carats: self.carats@ }
    }
}

impl TextFieldModel {
    /// The text of the field is well formed.
    pub open spec fn wf(self) -> bool {
        self.label.text.wf()
    }

    /// The carats can be edited at: see [`carats_fit`].
    pub open spec fn carats_fit(self) -> bool {
        carats_fit(self.carats, self.label.text.len() as int)
    }

    /// The text of the field.
    pub open spec fn text(self) -> RichText {
        self.label.text
    }

    /// A field that shows the unformatted `text` in black and in the
    /// standard font, with one carat before the first character.
    pub open spec fn fresh(frame: Rectangle, id: u128, text: Seq<char>) -> TextFieldModel {
        TextFieldModel {
            frame,
            label: LabelModel {
                frame,
                font: Font::standard(),
                text_color: Color::opaque(0, 0, 0),
                text: RichText::plain(id, text).with_default(
                    Key::Font,
                    Attribute::Font { font: Font::standard() },
                ),
            },
            carats: seq![CaratSnapshot::at(0)],
        }
    }

    /// The field with other carats.
    pub open spec fn with_carats(self, carats: Seq<CaratSnapshot>) -> TextFieldModel {
        TextFieldModel { carats, ..self }
    }

    /// The field with another text.
    pub open spec fn with_text(self, text: RichText) -> TextFieldModel {
        TextFieldModel { label: self.label.with_text(text), ..self }
    }

    /// The field after `inserted` was typed at every carat.
    pub open spec fn after_insertion(self, inserted: Seq<char>) -> TextFieldModel {
        self.with_text(
            text_after_insertions(self.text(), self.carats, inserted, self.carats.len() as int),
        ).with_carats(carats_after_insertions(self.carats, inserted.len() as int))
    }

    /// The field after a backspace of `count` steps of `movement` at every
    /// carat.
    pub open spec fn after_backspace(self, movement: CursorMovement, count: int) -> TextFieldModel {
        self.with_text(
            text_after_deletions(
                self.text(),
                self.carats,
                movement,
                count,
                self.carats.len() as int,
            ),
        ).with_carats(carats_after_deletions(self.text(), self.carats, movement, count))
    }

    /// What that backspace takes out at each carat.
    pub open spec fn removed_by_backspace(self, movement: CursorMovement, count: int) -> Seq<Seq<char>> {
        removed_by_deletions(self.text(), self.carats, movement, count)
    }
}

/// A copy of `carats`.
pub fn copy_carats(carats: &Vec<CaratSnapshot>) -> (copy: Vec<CaratSnapshot>)
    ensures
        copy@ == carats@,
{
    let mut copy: Vec<CaratSnapshot> = Vec::new();
    let mut k: usize = 0;
    while k < carats.len()
        invariant
            k <= carats.len(),
            copy@ == carats@.subrange(0, k as int),
        decreases carats.len() - k,
    {
        copy.push(carats[k].clone());
        k = k + 1;
    }
    copy
}

impl TextField {
    /// The text of the field is well formed.
    pub open spec fn wf(&self) -> bool {
        self@.wf()
    }

    /// A field that shows `text` in the standard font, with one carat before
    /// the first character.
    pub fn new(frame: Rectangle, text: String) -> (field: TextField)
        ensures
            field.wf(),
            field@ == TextFieldModel::fresh(frame, field@.text().id, text@),
    {
        let label = Label::new(frame, Font::default(), text);
        let mut carats: Vec<CaratSnapshot> = Vec::new();
        carats.push(CaratSnapshot::new(0, None));
        let field = TextField { frame, label, carats };
        field
    }

    /// The text of a well-formed field can be counted in a `usize`.
    pub proof fn lemma_len_fits(&self)
        requires
            self.wf(),
        ensures
            self@.text().len() <= usize::MAX,
    {
        self.label.lemma_len_fits();
    }

    pub fn frame(&self) -> (frame: &Rectangle)
        ensures
            *frame == self@.frame,
    {
        &self.frame
    }

    pub fn label(&self) -> (label: &Label)
        ensures
            label@ == self@.label,
    {
        &self.label
    }

    /// Adds a carat before the character at `character_index`, behind the
    /// carats that are there.
    pub fn spawn_carat(&mut self, character_index: usize)
        ensures
            final(self)@ == old(self)@.with_carats(
                old(self)@.carats.push(CaratSnapshot::at(character_index as int)),
            ),
    {
        self.carats.push(CaratSnapshot::new(character_index, None));
    }

    /// The character index of every carat, in the order of the carats.
    pub fn carat_indexes(&self) -> (indexes: Vec<usize>)
        ensures
            indexes@.len() == self@.carats.len(),
            forall|k: int|
                0 <= k < indexes@.len() ==> indexes@[k] == (#[trigger] self@.carats[k]).character_index,
    {
        let mut indexes: Vec<usize> = Vec::new();
        let mut k: usize = 0;
        while k < self.carats.len()
            invariant
                k <= self.carats.len(),
                indexes@.len() == k,
                forall|j: int|
                    0 <= j < k ==> indexes@[j] == (#[trigger] self.carats@[j]).character_index,
            decreases self.carats.len() - k,
        {
            indexes.push(self.carats[k].character_index());
            k = k + 1;
        }
        indexes
    }

    /// The state of every carat, in the order of the carats.
    pub fn carat_snapshots(&self) -> (snapshots: Vec<CaratSnapshot>)
        ensures
            snapshots@ == self@.carats,
    {
        copy_carats(&self.carats)
    }

    /// Puts the carats of the field where `snapshots` has them.
    pub fn restore_carat_snapshots(&mut self, snapshots: &Vec<CaratSnapshot>)
        ensures
            final(self)@ == old(self)@.with_carats(snapshots@),
    {
        self.carats = copy_carats(snapshots);
    }

    /// Replaces the characters in `range` by `text` and leaves the carats
    /// where they are.
    pub fn replace_text_in_range(&mut self, range: Range<usize>, text: &str)
        requires
            old(self).wf(),
            range.start <= range.end <= old(self)@.text().len(),
        ensures
            final(self).wf(),
            final(self)@ == old(self)@.with_text(
                old(self)@.text().replaced(range.start as int, range.end as int, text@),
            ),
    {
        self.label.replace_text_in_range(range, text);
    }

    /// Types `text` at every carat, in place of what the carat selects. The
    /// carats are taken in their order; each is first moved by what the
    /// carats before it put in and took out, and ends up behind its copy of
    /// `text`, with nothing selected.
    pub fn insert_str(&mut self, text: &str)
        requires
            old(self).wf(),
            old(self)@.carats_fit(),
        ensures
            final(self).wf(),
            final(self)@ == old(self)@.after_insertion(text@),
    {
        let inserted: usize = text.unicode_len();
        let count: usize = self.carats.len();
        let ghost before = self@;
        let mut after: Vec<CaratSnapshot> = Vec::new();
        let mut grown: usize = 0;
        let mut shrunk: usize = 0;
        let mut k: usize = 0;
        while k < count
            invariant
                k <= count == before.carats.len(),
                inserted == text@.len(),
                before.carats_fit(),
                self.wf(),
                self@ == before.with_text(
                    text_after_insertions(before.text(), before.carats, text@, k as int),
                ),
                grown - shrunk == insertion_shift(before.carats, inserted as int, k as int),
                self@.text().len() == before.text().len() + grown - shrunk,
                k == 0 ==> shrunk == 0,
                k > 0 ==> shrunk <= before.carats[k - 1].extent_end(),
                after@.len() == k,
                forall|j: int|
                    0 <= j < k ==> #[trigger] after@[j] == carat_after_insertion(
                        before.carats,
                        inserted as int,
                        j,
                    ),
            decreases count - k,
        {
            proof {
                self.lemma_len_fits();
            }
            let (start, end) = self.carats[k].extent();
            let from: usize = start - shrunk + grown;
            let to: usize = end - shrunk + grown;
            self.label.replace_text_in_range(from..to, text);
            proof {
                self.lemma_len_fits();
            }
            after.push(CaratSnapshot::new(from + inserted, None));
            shrunk = shrunk + (end - start);
            grown = grown + inserted;
            k = k + 1;
        }
        self.carats = after;
        assert(self@.carats =~= carats_after_insertions(before.carats, inserted as int));
    }

    /// Deletes backwards at every carat and returns what each carat took
    /// out, in the order of the carats. A carat that selects text takes out
    /// what it selects; any other takes out `count` steps of `movement`
    /// before it. The carats are taken in their order; each is first moved
    /// by what the carats before it took out, and ends up where its deletion
    /// began, with nothing selected.
    pub fn backspace(&mut self, movement: CursorMovement, count: usize) -> (removed: Vec<String>)
        requires
            old(self).wf(),
            old(self)@.carats_fit(),
        ensures
            final(self).wf(),
            final(self)@ == old(self)@.after_backspace(movement, count as int),
            removed.deep_view() == old(self)@.removed_by_backspace(movement, count as int),
    {
        let carats: usize = self.carats.len();
        let ghost before = self@;
        let mut removed: Vec<String> = Vec::new();
        let mut after: Vec<CaratSnapshot> = Vec::new();
        let mut shift: usize = 0;
        let mut k: usize = 0;
        while k < carats
            invariant
                k <= carats == before.carats.len(),
                before.carats_fit(),
                before.wf(),
                self.wf(),
                self@ == before.with_text(
                    text_after_deletions(before.text(), before.carats, movement, count as int, k as int),
                ),
                self@.text().len() == before.text().len() - shift,
                k == 0 ==> shift == 0,
                k > 0 ==> shift <= before.carats[k - 1].extent_end(),
                after@.len() == k,
                removed@.len() == k,
                forall|j: int|
                    0 <= j < k ==> (#[trigger] after@[j]) == CaratSnapshot::at(
                        span_of_deletion(before.text(), before.carats, movement, count as int, j).0,
                    ),
                forall|j: int|
                    0 <= j < k ==> (#[trigger] removed@[j])@ == removed_by_deletion(
                        before.text(),
                        before.carats,
                        movement,
                        count as int,
                        j,
                    ),
            decreases carats - k,
        {
            proof {
                reveal_strlit("");
            }
            let (selected_from, selected_to) = self.carats[k].extent();
            let (from, to) = if selected_from < selected_to {
                (selected_from - shift, selected_to - shift)
            } else {
                let end: usize = self.carats[k].character_index() - shift;
                (span_start_in(self.label.text().text(), end, movement, count), end)
            };
            let fragment = self.label.text().text().substring_char(from, to).to_owned();
            self.label.replace_text_in_range(from..to, "");
            after.push(CaratSnapshot::new(from, None));
            removed.push(fragment);
            shift = shift + (to - from);
            k = k + 1;
        }
        self.carats = after;
        assert(self@.carats =~= carats_after_deletions(
            before.text(),
            before.carats,
            movement,
            count as int,
        ));
        removed
    }

    /// Decides whether the carats of the field can be edited at: see
    /// [`carats_fit`].
    pub fn carats_fit(&self) -> (fit: bool)
        requires
            self.wf(),
        ensures
            fit == self@.carats_fit(),
    {
        let len: usize = self.label.text().len();
        decide_carats_fit(&self.carats, len)
    }

    /// Decides whether `fragments` can be put back at `carats` with
    /// [`reinsert`](TextField::reinsert): see [`can_reinsert`].
    pub fn can_reinsert(&self, carats: &Vec<CaratSnapshot>, fragments: &Vec<String>) -> (possible: bool)
        requires
            self.wf(),
            carats@.len() == fragments@.len(),
        ensures
            possible == can_reinsert(self@.text(), carats@, fragments.deep_view(), 0),
    {
        let ghost text = self@.text();
        let ghost texts = fragments.deep_view();
        let mut grown: Option<usize> = Some(self.label.text().len());
        let mut k: usize = fragments.len();
        while k > 0
            invariant
                k <= fragments@.len() == carats@.len(),
                texts == fragments.deep_view(),
                text == self@.text(),
                text.wf(),
                can_reinsert(text, carats@, texts, k as int),
                grown is Some ==> grown->0 == text_after_reinsertions(
                    text,
                    carats@,
                    texts,
                    k as int,
                ).len(),
                grown is None ==> text_after_reinsertions(text, carats@, texts, k as int).len()
                    > usize::MAX,
            decreases k,
        {
            k = k - 1;
            let inside = match grown {
                Some(reach) => carats[k].character_index() <= reach,
                None => true,
            };
            if !inside {
                proof {
                    if can_reinsert(text, carats@, texts, 0) {
                        lemma_can_reinsert_from(text, carats@, texts, 0, k as int);
                    }
                }
                return false;
            }
            let added: usize = fragments[k].as_str().unicode_len();
            grown = match grown {
                Some(reach) => reach.checked_add(added),
                None => None,
            };
        }
        true
    }

    /// Puts `fragments` back into the text, each at the carat of `carats`
    /// with its index, the last fragment first: the way back from a
    /// backspace. Going from the last carat to the first keeps every carat
    /// where it was recorded, since what is put back lies behind the carats
    /// still to come. The carats of the field stay as they are.
    pub fn reinsert(&mut self, carats: &Vec<CaratSnapshot>, fragments: &Vec<String>)
        requires
            old(self).wf(),
            carats@.len() == fragments@.len(),
            can_reinsert(old(self)@.text(), carats@, fragments.deep_view(), 0),
        ensures
            final(self).wf(),
            final(self)@ == old(self)@.with_text(
                text_after_reinsertions(old(self)@.text(), carats@, fragments.deep_view(), 0),
            ),
    {
        let ghost before = self@;
        let ghost texts = fragments.deep_view();
        let mut k: usize = fragments.len();
        while k > 0
            invariant
                k <= fragments@.len() == carats@.len(),
                texts == fragments.deep_view(),
                self.wf(),
                can_reinsert(before.text(), carats@, texts, 0),
                self@ == before.with_text(
                    text_after_reinsertions(before.text(), carats@, texts, k as int),
                ),
            decreases k,
        {
            proof {
                lemma_can_reinsert_from(before.text(), carats@, texts, 0, k - 1);
            }
            k = k - 1;
            let at: usize = carats[k].character_index();
            self.label.replace_text_in_range(at..at, fragments[k].as_str());
        }
    }
}

} // verus!
