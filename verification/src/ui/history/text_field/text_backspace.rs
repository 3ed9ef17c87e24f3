//! Deleting backwards at every carat of a text field, and taking it back.

use crate::platform::history::Action;
use crate::ui::history::text_field::carat_snapshot::CaratSnapshot;
use crate::ui::history::text_field::carat_snapshot::carats_fit;
use crate::ui::history::text_field::carat_snapshot::decide_carats_fit;
use crate::ui::view::cursor_edits::can_reinsert;
use crate::ui::view::cursor_edits::text_after_reinsertions;
use crate::ui::view::store::ViewStore;
use crate::ui::view::store::WeakView;
use crate::ui::view::text_field::CursorMovement;
use crate::ui::view::text_field::TextField;
use crate::ui::view::text_field::TextFieldModel;
use vstd::prelude::*;

verus! {

/// A reversible action that deletes backwards in a text field.
#[derive(Debug)]
pub struct TextBackspace {
    view: WeakView,
    count: usize,
    cursor_movement: CursorMovement,
    cursors_before: Vec<CaratSnapshot>,
    texts_deleted: Vec<String>,
    cursors_after: Vec<CaratSnapshot>,
}

/// What a [`TextBackspace`] stands for.
pub struct TextBackspaceModel {
    pub view: WeakView,
    pub count: usize,
    pub cursor_movement: CursorMovement,
    pub cursors_before: Seq<CaratSnapshot>,
    pub texts_deleted: Seq<Seq<char>>,
    pub cursors_after: Seq<CaratSnapshot>,
}

impl View for TextBackspace {
    type V = TextBackspaceModel;

    closed spec fn view(&self) -> TextBackspaceModel {
        TextBackspaceModel {
            view: self.view,
            count: self.count,
            cursor_movement: self.cursor_movement,
            cursors_before: self.cursors_before@,
            texts_deleted: self.texts_deleted.deep_view(),
            cursors_after: self.cursors_after@,
        }
    }
}

impl TextBackspaceModel {
    /// The field after the command was done on it: the carats were put
    /// where they were recorded, and the backspace ran at each.
    pub open spec fn field_after_forward(self, field: TextFieldModel) -> TextFieldModel {
        field.with_carats(self.cursors_before).after_backspace(
            self.cursor_movement,
            self.count as int,
        )
    }

    /// The command after it was done on `field`: it has recorded what each
    /// carat took out and where the carats ended up.
    pub open spec fn done(self, field: TextFieldModel) -> TextBackspaceModel {
        TextBackspaceModel {
            texts_deleted: field.with_carats(self.cursors_before).removed_by_backspace(
                self.cursor_movement,
                self.count as int,
            ),
            cursors_after: self.field_after_forward(field).carats,
            ..self
        }
    }

    /// The field after the command was undone on it: what was taken out was
    /// put back, the last carat first, and the carats were put where they
    /// were before the command.
    pub open spec fn field_after_backward(self, field: TextFieldModel) -> TextFieldModel {
        field.with_text(
            text_after_reinsertions(field.text(), self.cursors_after, self.texts_deleted, 0),
        ).with_carats(self.cursors_before)
    }
}

impl TextBackspace {
    /// The command that deletes `count` steps of `cursor_movement` before
    /// each carat of `cursors_before` in the field behind `view`.
    pub fn new(
        view: WeakView,
        count: usize,
        cursor_movement: CursorMovement,
        cursors_before: Vec<CaratSnapshot>,
    ) -> (action: TextBackspace)
        ensures
            action.wf(),
            action@ == (TextBackspaceModel {
                view,
                count,
                cursor_movement,
                cursors_before: cursors_before@,
                texts_deleted: Seq::empty(),
                cursors_after: Seq::empty(),
            }),
            !action.performed(),
    {
        let action = TextBackspace {
            view,
            count,
            cursor_movement,
            cursors_before,
            texts_deleted: Vec::new(),
            cursors_after: Vec::new(),
        };
        assert(action@.texts_deleted =~= Seq::empty());
        action
    }

    /// The field the command acts on.
    pub fn text_field<'a>(&self, views: &'a ViewStore) -> (field: &'a TextField)
        requires
            views.is_live(self@.view),
        ensures
            field@ == views@[self@.view],
    {
        views.text_field(self.view)
    }
}

impl Action for TextBackspace {
    open spec fn target(&self) -> WeakView {
        self@.view
    }

    open spec fn wf(&self) -> bool {
        self@.texts_deleted.len() == self@.cursors_after.len()
    }

    open spec fn performed(&self) -> bool {
        self@.cursors_after.len() > 0
    }

    open spec fn can_go_forward(&self, views: Map<WeakView, TextFieldModel>) -> bool {
        carats_fit(self@.cursors_before, views[self@.view].text().len() as int)
    }

    open spec fn can_go_backward(&self, views: Map<WeakView, TextFieldModel>) -> bool {
        can_reinsert(views[self@.view].text(), self@.cursors_after, self@.texts_deleted, 0)
    }

    fn name(&self) -> (name: &'static str)
        ensures
            name@ == "TextBackspace"@,
    {
        "TextBackspace"
    }

    fn is_ready(&self, views: &ViewStore) -> (ready: bool)
    {
        if !views.contains(self.view) {
            return false;
        }
        let len: usize = views.text_field(self.view).label().text().len();
        decide_carats_fit(&self.cursors_before, len)
    }

    fn is_reversible(&self, views: &ViewStore) -> (reversible: bool)
    {
        if self.cursors_after.len() == 0 {
            return true;
        }
        if !views.contains(self.view) {
            return false;
        }
        views.text_field(self.view).can_reinsert(&self.cursors_after, &self.texts_deleted)
    }

    /// Puts the carats of the field where they were recorded, deletes
    /// backwards at each, and records what was taken out and where the
    /// carats end up.
    fn forward(&mut self, views: &mut ViewStore)
        ensures
            final(self)@ == old(self)@.done(old(views)@[old(self)@.view]),
            final(views)@ == old(views)@.insert(
                old(self)@.view,
                old(self)@.field_after_forward(old(views)@[old(self)@.view]),
            ),
    {
        let field = views.text_field_mut(self.view);
        field.restore_carat_snapshots(&self.cursors_before);
        let texts_deleted = field.backspace(self.cursor_movement, self.count);
        self.texts_deleted = texts_deleted;
        self.cursors_after = field.carat_snapshots();
    }

    /// Puts back what each carat took out, from the last carat to the
    /// first, and puts the carats where they were before the command.
    fn backward(&mut self, views: &mut ViewStore)
        ensures
            final(self)@ == old(self)@,
            old(self).performed() ==> final(views)@ == old(views)@.insert(
                old(self)@.view,
                old(self)@.field_after_backward(old(views)@[old(self)@.view]),
            ),
    {
        if self.cursors_after.len() == 0 {
            return;
        }
        let field = views.text_field_mut(self.view);
        field.reinsert(&self.cursors_after, &self.texts_deleted);
        field.restore_carat_snapshots(&self.cursors_before);
    }
}

} // verus!
