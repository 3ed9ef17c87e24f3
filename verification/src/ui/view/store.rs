//! Where the text fields live, and the handles by which commands refer to
//! them without owning them.

use crate::ui::view::text_field::TextField;
use crate::ui::view::text_field::TextFieldModel;
use vstd::prelude::*;

verus! {

/// A handle to a text field in a [`ViewStore`]. It does not keep the field
/// alive: once the field is removed from the store the handle is dead, and
/// it stays dead.
#[derive(Clone, Copy, Debug, PartialEq, Eq, Structural)]
pub struct WeakView {
    slot: usize,
}

/// The owner of the text fields. What it stands for is the map from the
/// live handles to their fields.
#[derive(Debug)]
pub struct ViewStore {
    slots: Vec<Option<TextField>>,
}

impl View for ViewStore {
    type V = Map<WeakView, TextFieldModel>;

    closed spec fn view(&self) -> Map<WeakView, TextFieldModel> {
        Map::new(
            |view: WeakView| view.slot < self.slots@.len() && self.slots@[view.slot as int] is Some,
            |view: WeakView| self.slots@[view.slot as int]->0@,
        )
    }
}

impl ViewStore {
    /// Every field in the store is well formed.
    pub open spec fn wf(&self) -> bool {
        forall|view: WeakView| self@.contains_key(view) ==> (#[trigger] self@[view]).wf()
    }

    /// Whether the field behind `view` is still there.
    pub open spec fn is_live(&self, view: WeakView) -> bool {
        self@.contains_key(view)
    }

    /// Whether `view` was handed out by this store, for a field that may or
    /// may not be there still.
    pub closed spec fn issued(&self, view: WeakView) -> bool {
        view.slot < self.slots@.len()
    }

    /// A handle that is live was handed out.
    pub proof fn lemma_live_is_issued(&self, view: WeakView)
        requires
            self.is_live(view),
        ensures
            self.issued(view),
    {
    }

    /// The text of every field in a well-formed store can be counted in a
    /// `usize`.
    pub proof fn lemma_texts_fit(&self, view: WeakView)
        requires
            self.wf(),
            self.is_live(view),
        ensures
            self@[view].text().len() <= usize::MAX,
    {
        let field = self.slots@[view.slot as int]->0;
        assert(field@ == self@[view]);
        field.lemma_len_fits();
    }

    /// The store without fields.
    pub fn new() -> (store: ViewStore)
        ensures
            store.wf(),
            store@ == Map::<WeakView, TextFieldModel>::empty(),
            forall|view: WeakView| !store.issued(view),
    {
        let store = ViewStore { slots: Vec::new() };
        store
    }

    /// Takes `field` in and hands out a handle that no field had before.
    pub fn insert(&mut self, field: TextField) -> (view: WeakView)
        requires
            old(self).wf(),
            field.wf(),
        ensures
            final(self).wf(),
            !old(self).issued(view),
            final(self)@ == old(self)@.insert(view, field@),
            forall|other: WeakView| final(self).issued(other) <==> old(self).issued(other) || other == view,
    {
        let view = WeakView { slot: self.slots.len() };
        self.slots.push(Some(field));
        assert(self@ =~= old(self)@.insert(view, field@));
        view
    }

    /// Takes the field behind `view` out of the store, if it is still there.
    /// From then on `view` is dead.
    pub fn remove(&mut self, view: WeakView) -> (field: Option<TextField>)
        requires
            old(self).wf(),
        ensures
            final(self).wf(),
            final(self)@ == old(self)@.remove(view),
            field is Some <==> old(self).is_live(view),
            field is Some ==> field->0@ == old(self)@[view],
            forall|other: WeakView| final(self).issued(other) <==> old(self).issued(other),
    {
        if view.slot < self.slots.len() {
            let field = self.slots[view.slot].take();
            assert(self@ =~= old(self)@.remove(view));
            field
        } else {
            None
        }
    }

    /// Whether the field behind `view` is still there.
    pub fn contains(&self, view: WeakView) -> (live: bool)
        ensures
            live == self.is_live(view),
    {
        view.slot < self.slots.len() && self.slots[view.slot].is_some()
    }

    /// The field behind `view`.
    pub fn text_field(&self, view: WeakView) -> (field: &TextField)
        requires
            self.is_live(view),
        ensures
            field@ == self@[view],
    {
        self.slots[view.slot].as_ref().unwrap()
    }

    /// The field behind `view`, to be changed in place.
    pub fn text_field_mut(&mut self, view: WeakView) -> (field: &mut TextField)
        requires
            old(self).is_live(view),
        ensures
            field@ == old(self)@[view],
            final(self)@ == old(self)@.insert(view, final(field)@),
            forall|other: WeakView| final(self).issued(other) <==> old(self).issued(other),
    {
        let field = self.slots[view.slot].as_mut().unwrap();
        field
    }
}

} // verus!
