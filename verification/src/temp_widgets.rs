//! Temporary child widgets that are removed from their containers on request.
use crate::loading_widgets::RelmRemoveExt;
use crate::loading_widgets::TempChildren;
use crate::loading_widgets::clones_of;
use crate::loading_widgets::groups_removed;
use crate::loading_widgets::remove_groups;
use crate::loading_widgets::temp_child;
use vstd::prelude::*;

verus! {

/// Containers with temporary children, removed by [`TempWidgets::remove`].
pub struct TempWidgets<C: RelmRemoveExt> {
    temp_children: Vec<TempChildren<C>>,
}

impl<C: RelmRemoveExt> View for TempWidgets<C> {
    type V = Seq<TempChildren<C>>;

    closed spec fn view(&self) -> Seq<TempChildren<C>> {
        self.temp_children@
    }
}

impl<C: RelmRemoveExt> TempWidgets<C> {
    /// Removes every temporary child from its container, container by
    /// container and each in the order it was added.
    pub fn remove(self)
        ensures
            groups_removed(self@),
    {
        remove_groups(&self.temp_children);
    }
}

impl<C: RelmRemoveExt + Clone> TempWidgets<C> where C::Child: Clone {
    /// Creates temporary widgets with one child.
    pub fn new(container: &C, child: C::Child) -> (r: Self)
        ensures
            r@.len() == 1,
            clones_of(r@[0], *container, seq![child]),
    {
        let children = [child];
        proof {
            assert(children@ =~= seq![child]);
        }
        Self::with_children(container, &children)
    }

    /// Creates temporary widgets with several children of one container.
    pub fn with_children(container: &C, children: &[C::Child]) -> (r: Self)
        ensures
            r@.len() == 1,
            clones_of(r@[0], *container, children@),
    {
        let temp = temp_child(container, children);
        let mut temp_children: Vec<TempChildren<C>> = Vec::new();
        temp_children.push(temp);
        TempWidgets { temp_children }
    }

    /// Adds another temporary child.
    pub fn push(&mut self, container: &C, child: C::Child)
        ensures
            final(self)@.len() == old(self)@.len() + 1,
            final(self)@.take(old(self)@.len() as int) == old(self)@,
            clones_of(final(self)@.last(), *container, seq![child]),
    {
        let children = [child];
        proof {
            assert(children@ =~= seq![child]);
        }
        self.add_many(container, &children);
    }

    /// Adds several temporary children of one container.
    pub fn add_many(&mut self, container: &C, children: &[C::Child])
        ensures
            final(self)@.len() == old(self)@.len() + 1,
            final(self)@.take(old(self)@.len() as int) == old(self)@,
            clones_of(final(self)@.last(), *container, children@),
    {
        let temp = temp_child(container, children);
        self.temp_children.push(temp);
        proof {
            assert(self.temp_children@.take(old(self)@.len() as int) =~= old(self)@);
        }
    }
}

} // verus!
