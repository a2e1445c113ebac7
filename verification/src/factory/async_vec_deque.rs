//! A container of factory components whose models are initialized
//! asynchronously.
//!
//! The bookkeeping is the one of [`FactoryVecDeque`]: the container tracks
//! the changes of its elements and plans the widget operations of a render
//! in the same way.  The elements it holds are the handles of components
//! whose models may still be initializing.
use crate::factory::dynamic_index::DynamicIndex;
use crate::factory::render::WidgetAction;
use crate::factory::render::render_plan;
use crate::factory::vec_deque::FactoryVecDeque;
use crate::factory::vec_deque::missing_flags;
use crate::factory::vec_deque::present_flags;
use crate::factory::vec_deque::removal_actions;
use crate::factory::vec_deque::removals_of;
use crate::retention::retain_kept;
use std::sync::Arc;
use std::sync::atomic::AtomicUsize;
use vstd::prelude::*;

verus! {

/// A container similar to a double ended queue of components that are
/// initialized asynchronously.
pub struct AsyncFactoryVecDeque<C, W> {
    inner: FactoryVecDeque<C, W>,
}

impl<C, W> AsyncFactoryVecDeque<C, W> {
    /// The bookkeeping of the container.
    pub closed spec fn deque(&self) -> FactoryVecDeque<C, W> {
        self.inner
    }

    /// Creates a new, empty container attached to `widget`.
    pub fn new(widget: W) -> (r: Self)
        ensures
            r.deque().wf(),
            r.deque()@ == Seq::<C>::empty(),
            r.deque().model_uids() == Seq::<usize>::empty(),
            r.deque().rendered() == Seq::<usize>::empty(),
            r.deque().pending_removals() == Seq::<WidgetAction>::empty(),
            r.deque().next_uid() == 1,
            r.deque().spec_widget() == widget,
            r.deque().slots() == Seq::<Arc<AtomicUsize>>::empty(),
    {
        AsyncFactoryVecDeque { inner: FactoryVecDeque::new(widget) }
    }

    /// Returns the number of elements.
    pub fn len(&self) -> (r: usize)
        requires
            self.deque().wf(),
        ensures
            r == self.deque()@.len(),
    {
        self.inner.len()
    }

    /// Whether another element can still be given a fresh identifier, as
    /// inserting requires.
    pub fn has_free_uid(&self) -> (r: bool)
        ensures
            r == (self.deque().next_uid() < usize::MAX),
    {
        self.inner.has_free_uid()
    }

    /// A handle to the shared index of the element at `index`, or [`None`]
    /// if `index` is out of bounds.
    pub fn dynamic_index(&self, index: usize) -> (r: Option<DynamicIndex>)
        requires
            self.deque().wf(),
        ensures
            r is Some <==> index < self.deque()@.len(),
            r matches Some(d) ==> d.written() == index && d.slot() == self.deque().slots()[index as int],
    {
        self.inner.dynamic_index(index)
    }

    /// Returns true if there are no elements.
    pub fn is_empty(&self) -> (r: bool)
        requires
            self.deque().wf(),
        ensures
            r == (self.deque()@.len() == 0),
    {
        self.inner.is_empty()
    }

    /// Returns the widget all components are attached to.
    pub fn widget(&self) -> (r: &W)
        ensures
            *r == self.deque().spec_widget(),
    {
        self.inner.widget()
    }

    /// Tries to get a reference to the model of one element.
    pub fn get(&self, index: usize) -> (r: Option<&C>)
        requires
            self.deque().wf(),
        ensures
            r == (if index < self.deque()@.len() {
                Some(&self.deque()@[index as int])
            } else {
                None
            }),
    {
        self.inner.get(index)
    }

    /// The model of the back element, or [`None`] if there is none.
    pub fn back(&self) -> (r: Option<&C>)
        requires
            self.deque().wf(),
        ensures
            r == (if self.deque()@.len() > 0 {
                Some(&self.deque()@[self.deque()@.len() - 1])
            } else {
                None
            }),
    {
        self.inner.back()
    }

    /// The model of the front element, or [`None`] if there is none.
    pub fn front(&self) -> (r: Option<&C>)
        requires
            self.deque().wf(),
        ensures
            r == (if self.deque()@.len() > 0 {
                Some(&self.deque()@[0])
            } else {
                None
            }),
    {
        self.inner.front()
    }

    /// Tries to get a mutable reference to the model of one element
    /// and marks the element as modified.
    pub fn get_mut(&mut self, index: usize) -> (r: Option<&mut C>)
        requires
            old(self).deque().wf(),
        ensures
            final(self).deque().wf(),
            final(self).deque().model_uids() == old(self).deque().model_uids(),
            final(self).deque().rendered() == old(self).deque().rendered(),
            final(self).deque().pending_removals() == old(self).deque().pending_removals(),
            final(self).deque().next_uid() == old(self).deque().next_uid(),
            index < old(self).deque()@.len() ==> r is Some && *r->0 == old(self).deque()@[index as int]
                && final(self).deque()@ == old(self).deque()@.update(index as int, *final(r->0))
                && final(self).deque().changed_flags() == old(self).deque().changed_flags().update(index as int, true),
            index >= old(self).deque()@.len() ==> r is None && final(self).deque()@ == old(self).deque()@
                && final(self).deque().changed_flags() == old(self).deque().changed_flags(),
            final(self).deque().slots() == old(self).deque().slots(),
    {
        self.inner.get_mut(index)
    }

    /// Inserts an element at `index`, shifting all elements at or after `index`
    /// towards the back, and returns the index handed to the new element.
    pub fn insert(&mut self, index: usize, component: C) -> (r: DynamicIndex)
        requires
            old(self).deque().wf(),
            index <= old(self).deque()@.len(),
            old(self).deque().next_uid() < usize::MAX,
        ensures
            final(self).deque().wf(),
            final(self).deque()@ == old(self).deque()@.insert(index as int, component),
            final(self).deque().model_uids() == old(self).deque().model_uids().insert(
                index as int,
                old(self).deque().next_uid(),
            ),
            final(self).deque().changed_flags() == old(self).deque().changed_flags().insert(index as int, false),
            final(self).deque().rendered() == old(self).deque().rendered(),
            final(self).deque().pending_removals() == old(self).deque().pending_removals(),
            final(self).deque().next_uid() == old(self).deque().next_uid() + 1,
            final(self).deque().spec_widget() == old(self).deque().spec_widget(),
            r.written() == index,
            final(self).deque().slots() == old(self).deque().slots().insert(index as int, r.slot()),
    {
        self.inner.insert(index, component)
    }

    /// Appends an element at the back.
    pub fn push_back(&mut self, component: C) -> (r: DynamicIndex)
        requires
            old(self).deque().wf(),
            old(self).deque().next_uid() < usize::MAX,
        ensures
            final(self).deque().wf(),
            final(self).deque()@ == old(self).deque()@.push(component),
            final(self).deque().model_uids() == old(self).deque().model_uids().push(old(self).deque().next_uid()),
            final(self).deque().changed_flags() == old(self).deque().changed_flags().push(false),
            final(self).deque().rendered() == old(self).deque().rendered(),
            final(self).deque().pending_removals() == old(self).deque().pending_removals(),
            final(self).deque().next_uid() == old(self).deque().next_uid() + 1,
            final(self).deque().spec_widget() == old(self).deque().spec_widget(),
            r.written() == old(self).deque()@.len(),
            final(self).deque().slots() == old(self).deque().slots().push(r.slot()),
    {
        self.inner.push_back(component)
    }

    /// Prepends an element at the front.
    pub fn push_front(&mut self, component: C) -> (r: DynamicIndex)
        requires
            old(self).deque().wf(),
            old(self).deque().next_uid() < usize::MAX,
        ensures
            final(self).deque().wf(),
            final(self).deque()@ == old(self).deque()@.insert(0, component),
            final(self).deque().model_uids() == old(self).deque().model_uids().insert(0, old(self).deque().next_uid()),
            final(self).deque().changed_flags() == old(self).deque().changed_flags().insert(0, false),
            final(self).deque().rendered() == old(self).deque().rendered(),
            final(self).deque().pending_removals() == old(self).deque().pending_removals(),
            final(self).deque().next_uid() == old(self).deque().next_uid() + 1,
            final(self).deque().spec_widget() == old(self).deque().spec_widget(),
            r.written() == 0,
            final(self).deque().slots() == old(self).deque().slots().insert(0, r.slot()),
    {
        self.inner.push_front(component)
    }

    /// Removes and returns the element at `index`, or returns [`None`] if
    /// `index` is out of bounds.  The widget of a launched element is
    /// scheduled for removal.
    pub fn remove(&mut self, index: usize) -> (r: Option<C>)
        requires
            old(self).deque().wf(),
        ensures
            final(self).deque().wf(),
            final(self).deque().next_uid() == old(self).deque().next_uid(),
            final(self).deque().rendered() == old(self).deque().rendered(),
            final(self).deque().spec_widget() == old(self).deque().spec_widget(),
            index < old(self).deque()@.len() ==> r == Some(old(self).deque()@[index as int]) && final(self).deque()@ == old(self).deque()@.remove(index as int) && final(self).deque().model_uids() == old(self).deque().model_uids().remove(
                index as int,
            ) && final(self).deque().changed_flags() == old(self).deque().changed_flags().remove(index as int)
                && final(self).deque().pending_removals() == (if old(self).deque().rendered().contains(
                old(self).deque().model_uids()[index as int],
            ) {
                old(self).deque().pending_removals().push(
                    WidgetAction::Remove { uid: old(self).deque().model_uids()[index as int] },
                )
            } else {
                old(self).deque().pending_removals()
            }),
            index >= old(self).deque()@.len() ==> r is None && final(self).deque()@ == old(self).deque()@
                && final(self).deque().model_uids() == old(self).deque().model_uids() && final(self).deque().changed_flags()
                == old(self).deque().changed_flags() && final(self).deque().pending_removals() == old(self).deque().pending_removals(),
            final(self).deque().slots() == (if index < old(self).deque()@.len() {
                old(self).deque().slots().remove(index as int)
            } else {
                old(self).deque().slots()
            }),
    {
        self.inner.remove(index)
    }

    /// Removes the back element, or returns [`None`] if there is none.
    pub fn pop_back(&mut self) -> (r: Option<C>)
        requires
            old(self).deque().wf(),
        ensures
            final(self).deque().wf(),
            final(self).deque().next_uid() == old(self).deque().next_uid(),
            final(self).deque().rendered() == old(self).deque().rendered(),
            final(self).deque().spec_widget() == old(self).deque().spec_widget(),
            old(self).deque()@.len() > 0 ==> r == Some(old(self).deque()@.last()) && final(self).deque()@ == old(self).deque()@.drop_last() && final(self).deque().model_uids() == old(self).deque().model_uids().drop_last()
                && final(self).deque().changed_flags() == old(self).deque().changed_flags().drop_last()
                && final(self).deque().pending_removals() == (if old(self).deque().rendered().contains(
                old(self).deque().model_uids().last(),
            ) {
                old(self).deque().pending_removals().push(
                    WidgetAction::Remove { uid: old(self).deque().model_uids().last() },
                )
            } else {
                old(self).deque().pending_removals()
            }),
            old(self).deque()@.len() == 0 ==> r is None && final(self).deque()@ == old(self).deque()@
                && final(self).deque().model_uids() == old(self).deque().model_uids() && final(self).deque().changed_flags()
                == old(self).deque().changed_flags() && final(self).deque().pending_removals() == old(self).deque().pending_removals(),
            final(self).deque().slots() == (if old(self).deque()@.len() > 0 {
                old(self).deque().slots().drop_last()
            } else {
                old(self).deque().slots()
            }),
    {
        self.inner.pop_back()
    }

    /// Removes the front element, or returns [`None`] if there is none.
    pub fn pop_front(&mut self) -> (r: Option<C>)
        requires
            old(self).deque().wf(),
        ensures
            final(self).deque().wf(),
            final(self).deque().next_uid() == old(self).deque().next_uid(),
            final(self).deque().rendered() == old(self).deque().rendered(),
            final(self).deque().spec_widget() == old(self).deque().spec_widget(),
            old(self).deque()@.len() > 0 ==> r == Some(old(self).deque()@[0]) && final(self).deque()@ == old(self).deque()@.remove(0) && final(self).deque().model_uids() == old(self).deque().model_uids().remove(0)
                && final(self).deque().changed_flags() == old(self).deque().changed_flags().remove(0)
                && final(self).deque().pending_removals() == (if old(self).deque().rendered().contains(
                old(self).deque().model_uids()[0],
            ) {
                old(self).deque().pending_removals().push(
                    WidgetAction::Remove { uid: old(self).deque().model_uids()[0] },
                )
            } else {
                old(self).deque().pending_removals()
            }),
            old(self).deque()@.len() == 0 ==> r is None && final(self).deque()@ == old(self).deque()@
                && final(self).deque().model_uids() == old(self).deque().model_uids() && final(self).deque().changed_flags()
                == old(self).deque().changed_flags() && final(self).deque().pending_removals() == old(self).deque().pending_removals(),
            final(self).deque().slots() == (if old(self).deque()@.len() > 0 {
                old(self).deque().slots().remove(0)
            } else {
                old(self).deque().slots()
            }),
    {
        self.inner.pop_front()
    }

    /// Swaps the elements at `first` and `second`; they may be equal.
    pub fn swap(&mut self, first: usize, second: usize)
        requires
            old(self).deque().wf(),
            first < old(self).deque()@.len(),
            second < old(self).deque()@.len(),
        ensures
            final(self).deque().wf(),
            final(self).deque()@ == old(self).deque()@.update(first as int, old(self).deque()@[second as int]).update(
                second as int,
                old(self).deque()@[first as int],
            ),
            final(self).deque().model_uids() == old(self).deque().model_uids().update(
                first as int,
                old(self).deque().model_uids()[second as int],
            ).update(second as int, old(self).deque().model_uids()[first as int]),
            final(self).deque().changed_flags() == old(self).deque().changed_flags().update(
                first as int,
                old(self).deque().changed_flags()[second as int],
            ).update(second as int, old(self).deque().changed_flags()[first as int]),
            final(self).deque().rendered() == old(self).deque().rendered(),
            final(self).deque().pending_removals() == old(self).deque().pending_removals(),
            final(self).deque().next_uid() == old(self).deque().next_uid(),
            final(self).deque().spec_widget() == old(self).deque().spec_widget(),
            final(self).deque().slots() == old(self).deque().slots().update(
                first as int,
                old(self).deque().slots()[second as int],
            ).update(second as int, old(self).deque().slots()[first as int]),
    {
        self.inner.swap(first, second)
    }

    /// Moves the element at `current_position` to `target`, shifting all
    /// elements in between; the two may be equal.
    pub fn move_to(&mut self, current_position: usize, target: usize)
        requires
            old(self).deque().wf(),
            current_position < old(self).deque()@.len(),
            target < old(self).deque()@.len(),
        ensures
            final(self).deque().wf(),
            final(self).deque()@ == old(self).deque()@.remove(current_position as int).insert(
                target as int,
                old(self).deque()@[current_position as int],
            ),
            final(self).deque().model_uids() == old(self).deque().model_uids().remove(
                current_position as int,
            ).insert(target as int, old(self).deque().model_uids()[current_position as int]),
            final(self).deque().changed_flags() == old(self).deque().changed_flags().remove(
                current_position as int,
            ).insert(target as int, old(self).deque().changed_flags()[current_position as int]),
            final(self).deque().rendered() == old(self).deque().rendered(),
            final(self).deque().pending_removals() == old(self).deque().pending_removals(),
            final(self).deque().next_uid() == old(self).deque().next_uid(),
            final(self).deque().spec_widget() == old(self).deque().spec_widget(),
            final(self).deque().slots() == old(self).deque().slots().remove(current_position as int).insert(
                target as int,
                old(self).deque().slots()[current_position as int],
            ),
    {
        self.inner.move_to(current_position, target)
    }

    /// Moves the element at `current_position` to the front.
    pub fn move_front(&mut self, current_position: usize)
        requires
            old(self).deque().wf(),
            current_position < old(self).deque()@.len(),
        ensures
            final(self).deque().wf(),
            final(self).deque()@ == old(self).deque()@.remove(current_position as int).insert(
                0,
                old(self).deque()@[current_position as int],
            ),
            final(self).deque().model_uids() == old(self).deque().model_uids().remove(
                current_position as int,
            ).insert(0, old(self).deque().model_uids()[current_position as int]),
            final(self).deque().changed_flags() == old(self).deque().changed_flags().remove(
                current_position as int,
            ).insert(0, old(self).deque().changed_flags()[current_position as int]),
            final(self).deque().rendered() == old(self).deque().rendered(),
            final(self).deque().pending_removals() == old(self).deque().pending_removals(),
            final(self).deque().next_uid() == old(self).deque().next_uid(),
            final(self).deque().spec_widget() == old(self).deque().spec_widget(),
            final(self).deque().slots() == old(self).deque().slots().remove(current_position as int).insert(
                0,
                old(self).deque().slots()[current_position as int],
            ),
    {
        self.inner.move_front(current_position)
    }

    /// Moves the element at `current_position` to the back.
    pub fn move_back(&mut self, current_position: usize)
        requires
            old(self).deque().wf(),
            current_position < old(self).deque()@.len(),
        ensures
            final(self).deque().wf(),
            final(self).deque()@ == old(self).deque()@.remove(current_position as int).push(
                old(self).deque()@[current_position as int],
            ),
            final(self).deque().model_uids() == old(self).deque().model_uids().remove(
                current_position as int,
            ).push(old(self).deque().model_uids()[current_position as int]),
            final(self).deque().changed_flags() == old(self).deque().changed_flags().remove(
                current_position as int,
            ).push(old(self).deque().changed_flags()[current_position as int]),
            final(self).deque().rendered() == old(self).deque().rendered(),
            final(self).deque().pending_removals() == old(self).deque().pending_removals(),
            final(self).deque().next_uid() == old(self).deque().next_uid(),
            final(self).deque().spec_widget() == old(self).deque().spec_widget(),
            final(self).deque().slots() == old(self).deque().slots().remove(current_position as int).push(
                old(self).deque().slots()[current_position as int],
            ),
    {
        self.inner.move_back(current_position)
    }

    /// A mutable reference to the model of the back element, which is marked
    /// as modified, or [`None`] if there is none.
    pub fn back_mut(&mut self) -> (r: Option<&mut C>)
        requires
            old(self).deque().wf(),
        ensures
            final(self).deque().wf(),
            final(self).deque().model_uids() == old(self).deque().model_uids(),
            final(self).deque().rendered() == old(self).deque().rendered(),
            final(self).deque().pending_removals() == old(self).deque().pending_removals(),
            final(self).deque().next_uid() == old(self).deque().next_uid(),
            old(self).deque()@.len() > 0 ==> r is Some && *r->0 == old(self).deque()@.last() && final(self).deque()@ == old(self).deque()@.update(old(self).deque()@.len() - 1, *final(r->0)) && final(self).deque().changed_flags() == old(self).deque().changed_flags().update(old(self).deque()@.len() - 1, true),
            old(self).deque()@.len() == 0 ==> r is None && final(self).deque()@ == old(self).deque()@
                && final(self).deque().changed_flags() == old(self).deque().changed_flags(),
            final(self).deque().slots() == old(self).deque().slots(),
    {
        self.inner.back_mut()
    }

    /// A mutable reference to the model of the front element, which is marked
    /// as modified, or [`None`] if there is none.
    pub fn front_mut(&mut self) -> (r: Option<&mut C>)
        requires
            old(self).deque().wf(),
        ensures
            final(self).deque().wf(),
            final(self).deque().model_uids() == old(self).deque().model_uids(),
            final(self).deque().rendered() == old(self).deque().rendered(),
            final(self).deque().pending_removals() == old(self).deque().pending_removals(),
            final(self).deque().next_uid() == old(self).deque().next_uid(),
            old(self).deque()@.len() > 0 ==> r is Some && *r->0 == old(self).deque()@[0] && final(self).deque()@ == old(self).deque()@.update(0, *final(r->0)) && final(self).deque().changed_flags() == old(self).deque().changed_flags().update(0, true),
            old(self).deque()@.len() == 0 ==> r is None && final(self).deque()@ == old(self).deque()@
                && final(self).deque().changed_flags() == old(self).deque().changed_flags(),
            final(self).deque().slots() == old(self).deque().slots(),
    {
        self.inner.front_mut()
    }

    /// Removes all elements.  The widgets of launched elements are scheduled
    /// for removal, in order, and identifiers start again from `1`.
    pub fn clear(&mut self)
        requires
            old(self).deque().wf(),
        ensures
            final(self).deque().wf(),
            final(self).deque()@ == Seq::<C>::empty(),
            final(self).deque().model_uids() == Seq::<usize>::empty(),
            final(self).deque().rendered() == Seq::<usize>::empty(),
            final(self).deque().pending_removals() == old(self).deque().pending_removals() + removals_of(
                old(self).deque().model_uids(),
                old(self).deque().rendered(),
            ),
            final(self).deque().next_uid() == 1,
            final(self).deque().spec_widget() == old(self).deque().spec_widget(),
            final(self).deque().slots() == Seq::<Arc<AtomicUsize>>::empty(),
    {
        self.inner.clear()
    }

    /// Updates the widgets according to the changes made to the model.
    ///
    /// Returns the scheduled removals followed by the plan of
    /// [`render_plan`](crate::factory::render::render_plan); afterwards the
    /// rendered state is the model, no element is marked as modified and no
    /// removal is pending.
    pub fn render_changes(&mut self) -> (r: Vec<WidgetAction>)
        requires
            old(self).deque().wf(),
        ensures
            final(self).deque().wf(),
            r@ == old(self).deque().pending_removals() + render_plan(old(self).deque().model(), old(self).deque().rendered()),
            final(self).deque()@ == old(self).deque()@,
            final(self).deque().model_uids() == old(self).deque().model_uids(),
            final(self).deque().rendered() == old(self).deque().model_uids(),
            final(self).deque().changed_flags() == Seq::new(old(self).deque()@.len(), |i: int| false),
            final(self).deque().pending_removals() == Seq::<WidgetAction>::empty(),
            final(self).deque().next_uid() == old(self).deque().next_uid(),
            final(self).deque().spec_widget() == old(self).deque().spec_widget(),
            final(self).deque().slots() == old(self).deque().slots(),
    {
        self.inner.render_changes()
    }

    /// Applies the closing of pages that happened in the container widget
    /// since the last render.
    ///
    /// `page_uids` are the identifiers of the elements whose pages the
    /// container still shows.  Every element without a page is removed from
    /// the model and from the rendered state, in order, and the removal of
    /// its widget is scheduled; the other elements keep their order.
    pub fn apply_external_updates(&mut self, page_uids: &Vec<usize>)
        requires
            old(self).deque().wf(),
            old(self).deque().rendered() == old(self).deque().model_uids(),
        ensures
            final(self).deque().wf(),
            final(self).deque()@ == retain_kept(
                old(self).deque()@,
                present_flags(old(self).deque().model_uids(), page_uids@),
            ),
            final(self).deque().model_uids() == retain_kept(
                old(self).deque().model_uids(),
                present_flags(old(self).deque().model_uids(), page_uids@),
            ),
            final(self).deque().changed_flags() == retain_kept(
                old(self).deque().changed_flags(),
                present_flags(old(self).deque().model_uids(), page_uids@),
            ),
            final(self).deque().pending_removals() == old(self).deque().pending_removals() + removal_actions(
                retain_kept(old(self).deque().model_uids(), missing_flags(old(self).deque().model_uids(), page_uids@)),
            ),
            final(self).deque().rendered() == final(self).deque().model_uids(),
            final(self).deque().next_uid() == old(self).deque().next_uid(),
            final(self).deque().spec_widget() == old(self).deque().spec_widget(),
            final(self).deque().slots() == retain_kept(
                old(self).deque().slots(),
                present_flags(old(self).deque().model_uids(), page_uids@),
            ),
    {
        self.inner.apply_external_updates(page_uids)
    }
}

} // verus!
