//! Typing at every carat of a text field, and taking it back.

use crate::platform::history::Action;
use crate::ui::history::text_field::carat_snapshot::CaratSnapshot;
use crate::ui::history::text_field::carat_snapshot::carats_fit;
use crate::ui::history::text_field::carat_snapshot::decide_carats_fit;
use crate::ui::view::cursor_edits::carats_after_insertions;
use crate::ui::view::store::ViewStore;
use crate::ui::view::store::WeakView;
use crate::ui::view::text_field::CursorMovement;
use crate::ui::view::text_field::TextField;
use crate::ui::view::text_field::TextFieldModel;
use vstd::prelude::*;

verus! {

/// A reversible action that inserts text into a text field.
#[derive(Debug)]
pub struct TextInsertion {
    view: WeakView,
    text: String,
    cursors_before: Vec<CaratSnapshot>,
    cursors_after: Vec<CaratSnapshot>,
}

/// What a [`TextInsertion`] stands for.
pub struct TextInsertionModel {
    pub view: WeakView,
    pub text: Seq<char>,
    pub cursors_before: Seq<CaratSnapshot>,
    pub cursors_after: Seq<CaratSnapshot>,
}

impl View for TextInsertion {
    type V = TextInsertionModel;

    closed spec fn view(&self) -> TextInsertionModel {
        TextInsertionModel {
            view: self.view,
            text: self.text@,
            cursors_before: self.cursors_before@,
            cursors_after: self.cursors_after@,
        }
    }
}

impl TextInsertionModel {
    /// The command after it was done: it has recorded where the carats
    /// ended up.
    pub open spec fn done(self) -> TextInsertionModel {
        TextInsertionModel {
            cursors_after: carats_after_insertions(self.cursors_before, self.text.len() as int),
            ..self
        }
    }

    /// The field after the command was done on it: the carats were put
    /// where they were recorded, and the text was typed at each.
    pub open spec fn field_after_forward(self, field: TextFieldModel) -> TextFieldModel {
        field.with_carats(self.cursors_before).after_insertion(self.text)
    }

    /// The field after the command was undone on it: the carats were put
    /// behind the typed text, and a backspace took as many characters as
    /// were typed.
    pub open spec fn field_after_backward(self, field: TextFieldModel) -> TextFieldModel {
        field.with_carats(self.cursors_after).after_backspace(
            CursorMovement::Character,
            self.text.len() as int,
        )
    }
}

impl TextInsertion {
    /// The command that types `text` at each carat of `cursors_before` in
    /// the field behind `view`.
    pub fn new(view: WeakView, text: String, cursors_before: Vec<CaratSnapshot>) -> (action: TextInsertion)
        ensures
            action@ == (TextInsertionModel {
                view,
                text: text@,
                cursors_before: cursors_before@,
                cursors_after: Seq::empty(),
            }),
            !action.performed(),
    {
        TextInsertion { view, text, cursors_before, cursors_after: Vec::new() }
    }

    /// The field the command acts on.
    pub fn text_field<'a>(&self, views: &'a ViewStore) -> (field: &'a TextField)
        requires
            views.is_live(self@.view),
        ensures
            field@ == views@[self@.view],
    {
        views.text_field(self.view)
    }
}

impl Action for TextInsertion {
    open spec fn target(&self) -> WeakView {
        self@.view
    }

    open spec fn wf(&self) -> bool {
        true
    }

    open spec fn performed(&self) -> bool {
        self@.cursors_after.len() > 0
    }

    open spec fn can_go_forward(&self, views: Map<WeakView, TextFieldModel>) -> bool {
        carats_fit(self@.cursors_before, views[self@.view].text().len() as int)
    }

    open spec fn can_go_backward(&self, views: Map<WeakView, TextFieldModel>) -> bool {
        carats_fit(self@.cursors_after, views[self@.view].text().len() as int)
    }

    fn name(&self) -> (name: &'static str)
        ensures
            name@ == "TextInsertion"@,
    {
        "TextInsertion"
    }

    fn is_ready(&self, views: &ViewStore) -> (ready: bool)
    {
        if !views.contains(self.view) {
            return false;
        }
        let len: usize = views.text_field(self.view).label().text().len();
        decide_carats_fit(&self.cursors_before, len)
    }

    fn is_reversible(&self, views: &ViewStore) -> (reversible: bool)
    {
        if self.cursors_after.len() == 0 {
            return true;
        }
        if !views.contains(self.view) {
            return false;
        }
        let len: usize = views.text_field(self.view).label().text().len();
        decide_carats_fit(&self.cursors_after, len)
    }

    /// Puts the carats of the field where they were recorded, types the
    /// text at each, and records where the carats end up.
    fn forward(&mut self, views: &mut ViewStore)
        ensures
            final(self)@ == old(self)@.done(),
            final(views)@ == old(views)@.insert(
                old(self)@.view,
                old(self)@.field_after_forward(old(views)@[old(self)@.view]),
            ),
    {
        let field = views.text_field_mut(self.view);
        field.restore_carat_snapshots(&self.cursors_before);
        field.insert_str(self.text.as_str());
        self.cursors_after = field.carat_snapshots();
    }

    /// Puts the carats behind the typed text and deletes backwards, at each,
    /// as many characters as the text has.
    fn backward(&mut self, views: &mut ViewStore)
        ensures
            final(self)@ == old(self)@,
            old(self).performed() ==> final(views)@ == old(views)@.insert(
                old(self)@.view,
                old(self)@.field_after_backward(old(views)@[old(self)@.view]),
            ),
    {
        if self.cursors_after.len() == 0 {
            return;
        }
        let typed: usize = self.text.as_str().unicode_len();
        let field = views.text_field_mut(self.view);
        field.restore_carat_snapshots(&self.cursors_after);
        field.backspace(CursorMovement::Character, typed);
    }
}

} // verus!
