//! Commands that can be done and undone.

use crate::ui::view::store::ViewStore;
use crate::ui::view::store::WeakView;
use crate::ui::view::text_field::TextFieldModel;
use vstd::prelude::*;

verus! {

/// A command on one view that can be done with `forward` and undone with
/// `backward`. The command refers to its view by a handle and does not keep
/// it alive: both steps ask for the view to be there still.
pub trait Action {
    /// The view the command acts on.
    spec fn target(&self) -> WeakView;

    /// What the command holds is consistent.
    spec fn wf(&self) -> bool;

    /// Whether `forward` has run and left the state `backward` works from.
    spec fn performed(&self) -> bool;

    /// Whether the command can be done on `views`.
    spec fn can_go_forward(&self, views: Map<WeakView, TextFieldModel>) -> bool;

    /// Whether the command, once done, can be undone on `views`.
    spec fn can_go_backward(&self, views: Map<WeakView, TextFieldModel>) -> bool;

    /// The name of the command.
    fn name(&self) -> (name: &'static str);

    /// Decides whether `forward` may be called: the target is there, and
    /// the command can be done on it.
    fn is_ready(&self, views: &ViewStore) -> (ready: bool)
        requires
            self.wf(),
            views.wf(),
        ensures
            ready == (views.is_live(self.target()) && self.can_go_forward(views@)),
    ;

    /// Decides whether `backward` may be called: the command has not been
    /// done, or the target is there and the command can be undone on it.
    fn is_reversible(&self, views: &ViewStore) -> (reversible: bool)
        requires
            self.wf(),
            views.wf(),
        ensures
            reversible == (self.performed() ==> views.is_live(self.target())
                && self.can_go_backward(views@)),
    ;

    /// Does the command. Only the target changes; no view comes or goes.
    fn forward(&mut self, views: &mut ViewStore)
        requires
            old(self).wf(),
            old(views).wf(),
            old(views).is_live(old(self).target()),
            old(self).can_go_forward(old(views)@),
        ensures
            final(self).wf(),
            final(self).target() == old(self).target(),
            final(views).wf(),
            final(views)@.dom() == old(views)@.dom(),
            forall|other: WeakView|
                other != old(self).target() && old(views)@.contains_key(other) ==> final(views)@[other]
                    == #[trigger] old(views)@[other],
            forall|other: WeakView| final(views).issued(other) <==> old(views).issued(other),
    ;

    /// Undoes the command. Before `forward` has run this does nothing.
    /// Only the target changes; no view comes or goes.
    fn backward(&mut self, views: &mut ViewStore)
        requires
            old(self).wf(),
            old(views).wf(),
            old(self).performed() ==> old(views).is_live(old(self).target()),
            old(self).performed() ==> old(self).can_go_backward(old(views)@),
        ensures
            final(self).wf(),
            final(self).target() == old(self).target(),
            final(self).performed() == old(self).performed(),
            !old(self).performed() ==> final(views)@ == old(views)@,
            final(views).wf(),
            final(views)@.dom() == old(views)@.dom(),
            forall|other: WeakView|
                other != old(self).target() && old(views)@.contains_key(other) ==> final(views)@[other]
                    == #[trigger] old(views)@[other],
            forall|other: WeakView| final(views).issued(other) <==> old(views).issued(other),
    ;
}

} // verus!
