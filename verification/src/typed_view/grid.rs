//! A typed model for grid views.
use crate::typed_view::store::FilteredStore;
use crate::typed_view::store::ItemFilter;
use crate::typed_view::store::ItemOrder;
use crate::typed_view::store::TypedListItem;
use crate::typed_view::store::first_match;
use crate::typed_view::store::lemma_filter_all;
use crate::typed_view::store::sorted_position;
use crate::typed_view::store::sort_by_order;
use crate::typed_view::iterator::TypedIterator;
use crate::typed_view::RelmSelectionExt;
use std::marker::PhantomData;
use vstd::prelude::*;

verus! {

/// An item of a [`TypedGridView`].
///
/// The widgets of grid items belong to the toolkit; this trait names the
/// widget state kept per item.
pub trait RelmGridItem {
    /// The widgets created for the grid item.
    type Widgets;
}

/// An order that never puts one item before another: the items keep their
/// store order.
pub struct StoreOrder;

impl<T> ItemOrder<T> for StoreOrder {
    open spec fn spec_before(&self, a: &T, b: &T) -> bool {
        false
    }

    fn before(&self, a: &T, b: &T) -> (r: bool) {
        false
    }
}

/// A typed model of a grid view: items in store order, a stack of filters
/// and, optionally, an order in which the items are shown.
pub struct TypedGridView<T, S, F, O> {
    sort: Option<O>,
    store: FilteredStore<T, F>,
    _selection: PhantomData<S>,
}

impl<T, S: RelmSelectionExt, F: ItemFilter<T>, O: ItemOrder<T>> TypedGridView<T, S, F, O> {
    /// The stored items, in store order.
    pub closed spec fn items(&self) -> Seq<T> {
        self.store.items()
    }

    /// The visible items: the stored ones that pass every active filter,
    /// sorted when the view has an order.
    pub closed spec fn visible(&self) -> Seq<T> {
        match self.sort {
            Some(order) => sort_by_order(self.store.items(), order).filter(self.store.passing()),
            None => self.store.visible(),
        }
    }

    /// The number of filters.
    pub closed spec fn filter_count(&self) -> nat {
        self.store.filter_count()
    }

    /// Whether filter `i` is applied.
    pub closed spec fn filter_active(&self, i: int) -> bool {
        self.store.filter_active(i)
    }

    /// The order in which the items are shown, if they are sorted.
    pub closed spec fn sorting(&self) -> Option<O> {
        self.sort
    }

    /// The internal invariant.
    pub closed spec fn wf(&self) -> bool {
        self.store.wf()
    }

    /// Creates a new, empty view that shows the items in store order.
    pub fn new() -> (r: Self)
        ensures
            r.wf(),
            r.items() == Seq::<T>::empty(),
            r.visible() == Seq::<T>::empty(),
            r.filter_count() == 0,
            r.sorting() is None,
    {
        TypedGridView { sort: None, store: FilteredStore::new(), _selection: PhantomData }
    }

    /// Creates a new, empty view that shows the items sorted by `order`.
    pub fn with_sorting(order: O) -> (r: Self)
        ensures
            r.wf(),
            r.items() == Seq::<T>::empty(),
            r.visible() == Seq::<T>::empty(),
            r.filter_count() == 0,
            r.sorting() == Some(order),
    {
        TypedGridView { sort: Some(order), store: FilteredStore::new(), _selection: PhantomData }
    }

    /// Both views have the same filters, applied in the same way.
    pub closed spec fn same_filters(&self, other: &Self) -> bool {
        self.store.same_filters_as(&other.store)
    }

    /// Whether filter `i` holds of `item`.
    pub closed spec fn filter_keeps(&self, i: int, item: T) -> bool {
        self.store.filter_keeps(i, item)
    }

    /// Whether an item passes every active filter.
    pub open spec fn passes(&self, item: T) -> bool {
        forall|i: int|
            0 <= i < self.filter_count() && #[trigger] self.filter_active(i) ==> self.filter_keeps(
                i,
                item,
            )
    }

    /// The visible items are the (sorted, when the view has an order) stored
    /// items that pass every active filter; with no active filter they are
    /// all the (sorted) stored items.
    pub proof fn lemma_visible(&self)
        ensures
        self.visible() == match self.sorting() {
            Some(order) => sort_by_order(self.items(), order).filter(|x: T| self.passes(x)),
            None => self.items().filter(|x: T| self.passes(x)),
        },
        (forall|i: int| 0 <= i < self.filter_count() ==> !#[trigger] self.filter_active(i))
            ==> self.visible() == match self.sorting() {
            Some(order) => sort_by_order(self.items(), order),
            None => self.items(),
        },
    {
        let p = |x: T| self.passes(x);
        assert forall|x: T| #[trigger] p(x) == self.store.passing()(x) by {
            if self.passes(x) {
                assert forall|i: int|
                    0 <= i < self.store.filter_count() && #[trigger] self.store.filter_active(
                        i,
                    ) implies self.store.filter_keeps(i, x) by {
                    assert(self.filter_active(i));
                }
            }
            if self.store.passes(x) {
                assert forall|i: int|
                    0 <= i < self.filter_count() && #[trigger] self.filter_active(i) implies self.filter_keeps(
                        i,
                        x,
                    ) by {
                    assert(self.store.filter_active(i));
                }
            }
        }
        assert(p =~= self.store.passing());
        let s = match self.sort {
            Some(order) => sort_by_order(self.store.items(), order),
            None => self.store.items(),
        };
        if forall|i: int| 0 <= i < self.filter_count() ==> !#[trigger] self.filter_active(i) {
            assert forall|k: int| 0 <= k < s.len() implies p(#[trigger] s[k]) by {}
            lemma_filter_all(s, p);
        }
    }

    /// What is visible is determined by the stored items and order and the
    /// filters: two views that agree on them show the same items.  Removing
    /// the filter that was added last therefore brings back what was visible
    /// before it was added.
    pub proof fn lemma_visible_determined(&self, other: &Self)
        requires
            self.items() == other.items(),
            self.sorting() == other.sorting(),
            self.filter_count() == other.filter_count(),
            forall|i: int|
                0 <= i < self.filter_count() ==> self.filter_active(i) == other.filter_active(i)
                    && (forall|x: T| #[trigger] self.filter_keeps(i, x) == other.filter_keeps(i, x)),
        ensures
            self.visible() == other.visible(),
    {
        self.lemma_visible();
        other.lemma_visible();
        let p = |x: T| self.passes(x);
        let q = |x: T| other.passes(x);
        assert forall|x: T| #[trigger] p(x) == q(x) by {
            if self.passes(x) {
                assert forall|i: int|
                    0 <= i < other.filter_count() && #[trigger] other.filter_active(i) implies other.filter_keeps(
                        i,
                        x,
                    ) by {
                    assert(self.filter_active(i));
                    assert(self.filter_keeps(i, x) == other.filter_keeps(i, x));
                }
            }
            if other.passes(x) {
                assert forall|i: int|
                    0 <= i < self.filter_count() && #[trigger] self.filter_active(i) implies self.filter_keeps(
                        i,
                        x,
                    ) by {
                    assert(other.filter_active(i));
                    assert(self.filter_keeps(i, x) == other.filter_keeps(i, x));
                }
            }
        }
        assert(p =~= q);
    }

    /// Views with the same filters have the same number of filters, applied
    /// in the same way and holding of the same items.
    pub proof fn lemma_same_filters(&self, other: &Self)
        requires
            self.same_filters(other),
        ensures
            self.filter_count() == other.filter_count(),
            forall|i: int|
                0 <= i < self.filter_count() ==> self.filter_active(i) == other.filter_active(i)
                    && (forall|x: T| #[trigger] self.filter_keeps(i, x) == other.filter_keeps(i, x)),
    {
    }

    /// Adds a filter on top of the others; it is applied at once.
    /// Items for which a filter does not hold are hidden.
    pub fn add_filter(&mut self, f: F)
        requires
            old(self).wf(),
        ensures
            final(self).wf(),
            final(self).items() == old(self).items(),
            final(self).sorting() == old(self).sorting(),
            final(self).filter_count() == old(self).filter_count() + 1,
            final(self).filter_active(old(self).filter_count() as int),
            forall|x: T|
                #[trigger] final(self).filter_keeps(old(self).filter_count() as int, x)
                    == f.spec_keeps(&x),
            forall|i: int|
                0 <= i < old(self).filter_count() ==> final(self).filter_active(i) == old(
                    self,
                ).filter_active(i) && (forall|x: T| #[trigger]
                    final(self).filter_keeps(i, x) == old(self).filter_keeps(i, x)),
    {
        self.store.add_filter(f);
    }

    /// Returns the number of filters that were added.
    pub fn filters_len(&self) -> (r: usize)
        ensures
            r == self.filter_count(),
    {
        self.store.filters_len()
    }

    /// Applies or suspends filter `idx`; returns whether it exists.
    pub fn set_filter_status(&mut self, idx: usize, active: bool) -> (r: bool)
        requires
            old(self).wf(),
        ensures
            final(self).wf(),
            r == (idx < old(self).filter_count()),
            final(self).items() == old(self).items(),
            final(self).sorting() == old(self).sorting(),
            final(self).filter_count() == old(self).filter_count(),
            forall|i: int|
                0 <= i < old(self).filter_count() ==> final(self).filter_active(i) == (if i == idx {
                    active
                } else {
                    old(self).filter_active(i)
                }) && (forall|x: T| #[trigger]
                    final(self).filter_keeps(i, x) == old(self).filter_keeps(i, x)),
    {
        self.store.set_filter_status(idx, active)
    }

    /// Notifies that filter `idx` changed.  Filters are evaluated whenever
    /// visible items are read, so the new outcome is used from now on.
    pub fn notify_filter_changed(&self, idx: usize) {
    }

    /// Removes the last filter, if any.
    pub fn pop_filter(&mut self)
        requires
            old(self).wf(),
        ensures
            final(self).wf(),
            final(self).items() == old(self).items(),
            final(self).sorting() == old(self).sorting(),
            final(self).filter_count() == (if old(self).filter_count() > 0 {
                old(self).filter_count() - 1
            } else {
                0
            }),
            forall|i: int|
                0 <= i < final(self).filter_count() ==> final(self).filter_active(i) == old(
                    self,
                ).filter_active(i) && (forall|x: T| #[trigger]
                    final(self).filter_keeps(i, x) == old(self).filter_keeps(i, x)),
    {
        self.store.pop_filter();
    }

    /// Removes all filters.
    pub fn clear_filters(&mut self)
        requires
            old(self).wf(),
        ensures
            final(self).wf(),
            final(self).items() == old(self).items(),
            final(self).sorting() == old(self).sorting(),
            final(self).filter_count() == 0,
    {
        self.store.clear_filters();
    }

    /// Adds an item at the end of the list.
    pub fn append(&mut self, value: T)
        requires
            old(self).wf(),
            old(self).items().len() < u32::MAX,
        ensures
            final(self).wf(),
            final(self).items() == old(self).items().push(value),
            final(self).sorting() == old(self).sorting(),
            final(self).same_filters(old(self)),
            final(self).filter_count() == old(self).filter_count(),
    {
        self.store.append(value);
    }

    /// Adds items at the end of the list, in order.
    pub fn extend_from_iter(&mut self, values: Vec<T>)
        requires
            old(self).wf(),
            old(self).items().len() + values.len() <= u32::MAX,
        ensures
            final(self).wf(),
            final(self).items() == old(self).items() + values@,
            final(self).sorting() == old(self).sorting(),
            final(self).same_filters(old(self)),
            final(self).filter_count() == old(self).filter_count(),
    {
        self.store.extend(values);
    }

    /// The position of the first stored item that satisfies `pred`, if any.
    pub fn find<P: ItemFilter<T>>(&self, pred: &P) -> (r: Option<u32>)
        requires
            self.wf(),
        ensures
            r matches Some(j) ==> first_match(self.items(), |x: T| pred.spec_keeps(&x)) == Some(
                j as int,
            ),
            r is None ==> first_match(self.items(), |x: T| pred.spec_keeps(&x)) is None,
    {
        self.store.find(pred)
    }

    /// Returns true if the list is empty (filters ignored).
    pub fn is_empty(&self) -> (r: bool)
        requires
            self.wf(),
        ensures
            r == (self.items().len() == 0),
    {
        self.len() == 0
    }

    /// Returns the length of the list (filters ignored).
    pub fn len(&self) -> (r: u32)
        requires
            self.wf(),
        ensures
            r == self.items().len(),
    {
        self.store.len()
    }

    /// The stored item at `position`, if any.
    pub fn get(&self, position: u32) -> (r: Option<TypedListItem<'_, T>>)
        requires
            self.wf(),
        ensures
            position < self.items().len() ==> r is Some && r->0.value() == self.items()[position as int],
            position >= self.items().len() ==> r is None,
    {
        self.store.get(position)
    }

    /// Mutable access to the stored item at `position`, if any.
    pub fn get_mut(&mut self, position: u32) -> (r: Option<&mut T>)
        requires
            old(self).wf(),
        ensures
            final(self).wf(),
            final(self).sorting() == old(self).sorting(),
            final(self).same_filters(old(self)),
            final(self).filter_count() == old(self).filter_count(),
            position < old(self).items().len() ==> r is Some && *r->0 == old(self).items()[position as int]
                && final(self).items() == old(self).items().update(position as int, *final(r->0)),
            position >= old(self).items().len() ==> r is None && final(self).items() == old(self).items(),
    {
        self.store.get_mut(position)
    }

    /// The visible item at `position`, if any.
    pub fn get_visible(&self, position: u32) -> (r: Option<TypedListItem<'_, T>>)
        requires
            self.wf(),
        ensures
            position < self.visible().len() ==> r is Some && r->0.value() == self.visible()[position as int],
            position >= self.visible().len() ==> r is None,
    {
        match &self.sort {
            Some(order) => self.store.get_visible_sorted(position, order),
            None => self.store.get_visible(position),
        }
    }

    /// Inserts an item at `position`; nothing happens past the end.
    pub fn insert(&mut self, position: u32, value: T)
        requires
            old(self).wf(),
            old(self).items().len() < u32::MAX,
        ensures
            final(self).wf(),
            final(self).items() == (if position <= old(self).items().len() {
                old(self).items().insert(position as int, value)
            } else {
                old(self).items()
            }),
            final(self).sorting() == old(self).sorting(),
            final(self).same_filters(old(self)),
            final(self).filter_count() == old(self).filter_count(),
    {
        self.store.insert(position, value);
    }

    /// Inserts an item after every stored item that it does not come
    /// strictly before, and returns its position.
    pub fn insert_sorted<Q: ItemOrder<T>>(&mut self, value: T, order: Q) -> (r: u32)
        requires
            old(self).wf(),
            old(self).items().len() < u32::MAX,
        ensures
            final(self).wf(),
            r == sorted_position(old(self).items(), order, value),
            final(self).items() == old(self).items().insert(r as int, value),
            final(self).sorting() == old(self).sorting(),
            final(self).same_filters(old(self)),
            final(self).filter_count() == old(self).filter_count(),
    {
        self.store.insert_sorted(value, order)
    }

    /// Removes the item at `position`; nothing happens past the end.
    pub fn remove(&mut self, position: u32)
        requires
            old(self).wf(),
        ensures
            final(self).wf(),
            final(self).items() == (if position < old(self).items().len() {
                old(self).items().remove(position as int)
            } else {
                old(self).items()
            }),
            final(self).sorting() == old(self).sorting(),
            final(self).same_filters(old(self)),
            final(self).filter_count() == old(self).filter_count(),
    {
        self.store.remove(position);
    }

    /// Removes all items.
    pub fn clear(&mut self)
        requires
            old(self).wf(),
        ensures
            final(self).wf(),
            final(self).items() == Seq::<T>::empty(),
            final(self).sorting() == old(self).sorting(),
            final(self).same_filters(old(self)),
            final(self).filter_count() == old(self).filter_count(),
    {
        self.store.clear();
    }

    /// An iterator over the stored items, from the first.
    pub fn iter(&self) -> (r: TypedIterator<'_, Self>)
        ensures
            r.position() == 0,
            r.list() == *self,
    {
        TypedIterator::new(self)
    }
}

} // verus!
