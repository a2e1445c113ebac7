//! Iteration over the stored items of typed views.
use crate::typed_view::column::TypedColumnView;
use crate::typed_view::grid::TypedGridView;
use crate::typed_view::store::ItemFilter;
use crate::typed_view::store::ItemOrder;
use crate::typed_view::store::TypedListItem;
use crate::typed_view::RelmSelectionExt;
use vstd::prelude::*;

verus! {

/// Holds the state for iterating the stored items of a typed view.
pub struct TypedIterator<'a, V> {
    list: &'a V,
    index: u32,
}

impl<'a, V> TypedIterator<'a, V> {
    /// The iterated view.
    pub closed spec fn list(&self) -> V {
        *self.list
    }

    /// The position of the next item.
    pub closed spec fn position(&self) -> u32 {
        self.index
    }

    /// Starts iterating `list` from its first item.
    pub fn new(list: &'a V) -> (r: Self)
        ensures
            r.list() == *list,
            r.position() == 0,
    {
        TypedIterator { list, index: 0 }
    }
}

impl<'a, T, S: RelmSelectionExt, F: ItemFilter<T>> TypedIterator<'a, TypedColumnView<T, S, F>> {
    /// The next stored item, or [`None`] after the last one.
    pub fn next(&mut self) -> (r: Option<TypedListItem<'a, T>>)
        requires
            old(self).list().wf(),
        ensures
            final(self).list() == old(self).list(),
            old(self).position() < old(self).list().items().len() ==> r is Some && r->0.value()
                == old(self).list().items()[old(self).position() as int] && final(self).position()
                == old(self).position() + 1,
            old(self).position() >= old(self).list().items().len() ==> r is None
                && final(self).position() == old(self).position(),
    {
        if self.index < self.list.len() {
            let result = self.list.get(self.index);
            self.index = self.index + 1;
            result
        } else {
            None
        }
    }
}

impl<'a, T, S: RelmSelectionExt, F: ItemFilter<T>, O: ItemOrder<T>> TypedIterator<'a, TypedGridView<T, S, F, O>> {
    /// The next stored item, or [`None`] after the last one.
    pub fn next(&mut self) -> (r: Option<TypedListItem<'a, T>>)
        requires
            old(self).list().wf(),
        ensures
            final(self).list() == old(self).list(),
            old(self).position() < old(self).list().items().len() ==> r is Some && r->0.value()
                == old(self).list().items()[old(self).position() as int] && final(self).position()
                == old(self).position() + 1,
            old(self).position() >= old(self).list().items().len() ==> r is None
                && final(self).position() == old(self).position(),
    {
        if self.index < self.list.len() {
            let result = self.list.get(self.index);
            self.index = self.index + 1;
            result
        } else {
            None
        }
    }
}

} // verus!
