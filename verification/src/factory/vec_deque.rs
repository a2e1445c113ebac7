//! A container of factory components that tracks the changes of its model.
use crate::factory::dynamic_index::DynamicIndex;
use crate::factory::render::ModelStateValue;
use crate::factory::render::RenderedState;
use crate::factory::render::WidgetAction;
use crate::factory::render::plan_render;
use crate::factory::render::render_plan;
use crate::factory::render::apply_actions;
use crate::factory::render::attached;
use crate::factory::render::lemma_in_sync_plan_is_empty;
use crate::factory::render::lemma_render_orders_widgets;
use crate::factory::render::lemma_plan_notifies_changed;
use crate::factory::render::lemma_no_dup_remove;
use crate::factory::render::rendered_uids;
use crate::factory::render::uids;
use crate::retention::lemma_retain_all_satisfy;
use crate::retention::lemma_retain_len;
use crate::retention::lemma_retain_len_same;
use crate::retention::lemma_retain_step;
use crate::retention::retain_kept;
use std::sync::Arc;
use std::sync::atomic::AtomicUsize;
use vstd::prelude::*;

verus! {

broadcast use vstd::seq_lib::group_seq_properties, vstd::seq_lib::group_filter_ensures;

/// Removal operations for the launched elements among `ids`, in order.
pub open spec fn removals_of(ids: Seq<usize>, rendered: Seq<usize>) -> Seq<WidgetAction> {
    ids.filter(|u: usize| rendered.contains(u)).map_values(|u: usize| WidgetAction::Remove { uid: u })
}

/// Which of `ids` are among `present`, in order.
pub open spec fn present_flags(ids: Seq<usize>, present: Seq<usize>) -> Seq<bool> {
    ids.map_values(|u: usize| present.contains(u))
}

/// Which of `ids` are missing from `present`, in order.
pub open spec fn missing_flags(ids: Seq<usize>, present: Seq<usize>) -> Seq<bool> {
    ids.map_values(|u: usize| !present.contains(u))
}

/// Removal operations of `ids`, in order.
pub open spec fn removal_actions(ids: Seq<usize>) -> Seq<WidgetAction> {
    ids.map_values(|u: usize| WidgetAction::Remove { uid: u })
}

/// Whether `ids` holds `id`.
fn ids_contain(ids: &Vec<usize>, id: usize) -> (r: bool)
    ensures
        r == ids@.contains(id),
{
    let mut k: usize = 0;
    while k < ids.len()
        invariant
            k <= ids@.len(),
            forall|q: int| 0 <= q < k ==> ids@[q] != id,
        decreases ids@.len() - k,
    {
        if ids[k] == id {
            assert(ids@[k as int] == id);
            return true;
        }
        k += 1;
    }
    false
}

/// Swaps two elements of a vector.
fn vec_swap<X>(v: &mut Vec<X>, a: usize, b: usize)
    requires
        a < b < old(v).len(),
    ensures
        final(v)@ == old(v)@.update(a as int, old(v)@[b as int]).update(b as int, old(v)@[a as int]),
{
    let ghost v0 = v@;
    let mut x = v.remove(b);
    v.set_and_swap(a, &mut x);
    v.insert(b, x);
    assert(v@ =~= v0.update(a as int, v0[b as int]).update(b as int, v0[a as int]));
}

/// Whether `uid` belongs to the rendered state.
fn rendered_contains(rendered: &Vec<RenderedState>, uid: usize) -> (r: bool)
    ensures
        r == rendered_uids(rendered@).contains(uid),
{
    let mut k: usize = 0;
    while k < rendered.len()
        invariant
            k <= rendered.len(),
            forall|q: int| 0 <= q < k ==> rendered@[q].uid != uid,
        decreases rendered.len() - k,
    {
        if rendered[k].uid == uid {
            assert(rendered_uids(rendered@)[k as int] == uid);
            return true;
        }
        k += 1;
    }
    proof {
        if rendered_uids(rendered@).contains(uid) {
            let q = choose|q: int|
                0 <= q < rendered_uids(rendered@).len() && rendered_uids(rendered@)[q] == uid;
            assert(rendered@[q].uid == uid);
        }
    }
    false
}

/// The shared index slots of a model, in order.
pub open spec fn slots_of(m: Seq<ModelStateValue>) -> Seq<Arc<AtomicUsize>> {
    m.map_values(|s: ModelStateValue| s.index.slot())
}

/// A container similar to a double ended queue that stores the models of
/// factory components and tracks how they changed since the widgets were
/// last rendered.
///
/// Edits only touch the model.  [`FactoryVecDeque::render_changes`] then returns the
/// widget operations that bring the container widget `W` in line with the model.
pub struct FactoryVecDeque<C, W> {
    widget: W,
    components: Vec<C>,
    model_state: Vec<ModelStateValue>,
    rendered_state: Vec<RenderedState>,
    removals: Vec<WidgetAction>,
    uid_counter: usize,
}

impl<C, W> View for FactoryVecDeque<C, W> {
    type V = Seq<C>;

    closed spec fn view(&self) -> Seq<C> {
        self.components@
    }
}

impl<C, W> FactoryVecDeque<C, W> {
    /// The bookkeeping of the model, in model order.
    pub closed spec fn model(&self) -> Seq<ModelStateValue> {
        self.model_state@
    }

    /// The unique identifiers of the elements, in model order.
    pub open spec fn model_uids(&self) -> Seq<usize> {
        uids(self.model())
    }

    /// Which elements were modified since the last render.
    pub open spec fn changed_flags(&self) -> Seq<bool> {
        self.model().map_values(|s: ModelStateValue| s.changed)
    }

    /// The index value written for the element at position `i`.
    pub closed spec fn index_value(&self, i: int) -> nat {
        self.model_state@[i].index.written()
    }

    /// The shared index slots of the elements, in model order.  A handle
    /// from [`FactoryVecDeque::dynamic_index`] shares the slot of its element,
    /// and the container writes the element's position into it.
    pub closed spec fn slots(&self) -> Seq<Arc<AtomicUsize>> {
        slots_of(self.model_state@)
    }

    /// The identifiers of the elements whose widgets were rendered, in the rendered order.
    pub closed spec fn rendered(&self) -> Seq<usize> {
        rendered_uids(self.rendered_state@)
    }

    /// Widget removals that are due at the next render.
    pub closed spec fn pending_removals(&self) -> Seq<WidgetAction> {
        self.removals@
    }

    /// The identifier the next inserted element receives.
    pub closed spec fn next_uid(&self) -> usize {
        self.uid_counter
    }

    /// The container widget.
    pub closed spec fn spec_widget(&self) -> W {
        self.widget
    }

    /// The internal invariant of the container.
    pub closed spec fn wf(&self) -> bool {
        &&& self.components@.len() == self.model_state@.len()
        &&& uids(self.model_state@).no_duplicates()
        &&& rendered_uids(self.rendered_state@).no_duplicates()
        &&& self.uid_counter >= 1
        &&& forall|i: int|
            0 <= i < self.model_state@.len() ==> 1 <= #[trigger] self.model_state@[i].uid
                < self.uid_counter
        &&& forall|i: int|
            0 <= i < self.rendered_state@.len() ==> 1 <= #[trigger] self.rendered_state@[i].uid
                < self.uid_counter
        &&& forall|i: int|
            0 <= i < self.model_state@.len() ==> #[trigger] self.model_state@[i].index.written()
                == i
        &&& forall|k: int| 0 <= k < self.removals@.len() ==> #[trigger] self.removals@[k] is Remove
    }

    /// Creates a new, empty container attached to `widget`.
    pub fn new(widget: W) -> (r: Self)
        ensures
            r.wf(),
            r@ == Seq::<C>::empty(),
            r.model_uids() == Seq::<usize>::empty(),
            r.rendered() == Seq::<usize>::empty(),
            r.pending_removals() == Seq::<WidgetAction>::empty(),
            r.next_uid() == 1,
            r.spec_widget() == widget,
            r.slots() == Seq::<Arc<AtomicUsize>>::empty(),
    {
        let r = FactoryVecDeque {
            widget,
            components: Vec::new(),
            model_state: Vec::new(),
            rendered_state: Vec::new(),
            removals: Vec::new(),
            // 0 is always an invalid uid
            uid_counter: 1,
        };
        assert(uids(r.model_state@) =~= Seq::<usize>::empty());
        assert(rendered_uids(r.rendered_state@) =~= Seq::<usize>::empty());
        assert(r.slots() =~= Seq::<Arc<AtomicUsize>>::empty());
        r
    }

    /// Returns the number of elements.
    pub fn len(&self) -> (r: usize)
        requires
            self.wf(),
        ensures
            r == self@.len(),
    {
        self.components.len()
    }

    /// Whether another element can still be given a fresh identifier, as
    /// inserting requires.
    pub fn has_free_uid(&self) -> (r: bool)
        ensures
            r == (self.next_uid() < usize::MAX),
    {
        self.uid_counter < usize::MAX
    }

    /// Returns true if there are no elements.
    pub fn is_empty(&self) -> (r: bool)
        requires
            self.wf(),
        ensures
            r == (self@.len() == 0),
    {
        self.components.len() == 0
    }

    /// Returns the widget all components are attached to.
    pub fn widget(&self) -> (r: &W)
        ensures
            *r == self.spec_widget(),
    {
        &self.widget
    }

    /// Tries to get a reference to the model of one element.
    pub fn get(&self, index: usize) -> (r: Option<&C>)
        requires
            self.wf(),
        ensures
            r == (if index < self@.len() {
                Some(&self@[index as int])
            } else {
                None
            }),
    {
        if index < self.components.len() {
            Some(&self.components[index])
        } else {
            None
        }
    }

    /// A handle to the shared index of the element at `index`, which follows
    /// the element when it moves, or [`None`] if `index` is out of bounds.
    pub fn dynamic_index(&self, index: usize) -> (r: Option<DynamicIndex>)
        requires
            self.wf(),
        ensures
            r is Some <==> index < self@.len(),
            r matches Some(d) ==> d.written() == index && d.written() == self.index_value(
                index as int,
            ) && d.slot() == self.slots()[index as int],
    {
        if index < self.model_state.len() {
            Some(self.model_state[index].index.share())
        } else {
            None
        }
    }

    /// The model of the back element, or [`None`] if there is none.
    pub fn back(&self) -> (r: Option<&C>)
        requires
            self.wf(),
        ensures
            r == (if self@.len() > 0 {
                Some(&self@[self@.len() - 1])
            } else {
                None
            }),
    {
        self.get(self.len().wrapping_sub(1))
    }

    /// The model of the front element, or [`None`] if there is none.
    pub fn front(&self) -> (r: Option<&C>)
        requires
            self.wf(),
        ensures
            r == (if self@.len() > 0 {
                Some(&self@[0])
            } else {
                None
            }),
    {
        self.get(0)
    }

    /// The models of all elements, in order.
    pub fn as_slice(&self) -> (r: &[C])
        requires
            self.wf(),
        ensures
            r@ == self@,
    {
        self.components.as_slice()
    }

    /// Tries to get a mutable reference to the model of one element
    /// and marks the element as modified.
    pub fn get_mut(&mut self, index: usize) -> (r: Option<&mut C>)
        requires
            old(self).wf(),
        ensures
            final(self).wf(),
            final(self).model_uids() == old(self).model_uids(),
            final(self).rendered() == old(self).rendered(),
            final(self).pending_removals() == old(self).pending_removals(),
            final(self).next_uid() == old(self).next_uid(),
            index < old(self)@.len() ==> r is Some && *r->0 == old(self)@[index as int]
                && final(self)@ == old(self)@.update(index as int, *final(r->0))
                && final(self).changed_flags() == old(self).changed_flags().update(index as int, true),
            index >= old(self)@.len() ==> r is None && final(self)@ == old(self)@
                && final(self).changed_flags() == old(self).changed_flags(),
            final(self).slots() == old(self).slots(),
    {
        if index < self.components.len() {
            self.model_state[index].changed = true;
            assert(slots_of(self.model_state@) =~= slots_of(old(self).model_state@));
            assert(uids(self.model_state@) =~= uids(old(self).model_state@));
            assert(self.model_state@.map_values(|s: ModelStateValue| s.changed) =~= old(
                self,
            ).changed_flags().update(index as int, true));
            Some(&mut self.components[index])
        } else {
            None
        }
    }

    /// Inserts an element at `index`, shifting all elements at or after `index`
    /// towards the back, and returns the index handed to the new element.
    pub fn insert(&mut self, index: usize, component: C) -> (r: DynamicIndex)
        requires
            old(self).wf(),
            index <= old(self)@.len(),
            old(self).next_uid() < usize::MAX,
        ensures
            final(self).wf(),
            final(self)@ == old(self)@.insert(index as int, component),
            final(self).model_uids() == old(self).model_uids().insert(
                index as int,
                old(self).next_uid(),
            ),
            final(self).changed_flags() == old(self).changed_flags().insert(index as int, false),
            final(self).rendered() == old(self).rendered(),
            final(self).pending_removals() == old(self).pending_removals(),
            final(self).next_uid() == old(self).next_uid() + 1,
            final(self).spec_widget() == old(self).spec_widget(),
            r.written() == index,
            final(self).slots() == old(self).slots().insert(index as int, r.slot()),
    {
        let ghost m0 = self.model_state@;
        let mut k: usize = index;
        while k < self.model_state.len()
            invariant
                index <= k <= self.model_state@.len(),
                self.model_state@.len() == m0.len(),
                old(self).wf(),
                index <= old(self)@.len(),
                old(self).next_uid() < usize::MAX,
                m0 == old(self).model_state@,
                self.components == old(self).components,
                self.rendered_state == old(self).rendered_state,
                self.removals == old(self).removals,
                self.uid_counter == old(self).uid_counter,
                self.widget == old(self).widget,
                forall|j: int|
                    0 <= j < m0.len() ==> (#[trigger] self.model_state@[j]).uid == m0[j].uid
                        && self.model_state@[j].changed == m0[j].changed
                        && self.model_state@[j].index.slot() == m0[j].index.slot(),
                forall|j: int|
                    0 <= j < m0.len() ==> (#[trigger] self.model_state@[j]).index.written() == (
                    if index <= j < k {
                        j + 1
                    } else {
                        j
                    }),
                forall|j: int| 0 <= j < m0.len() ==> #[trigger] m0[j].index.written() == j,
            decreases m0.len() - k,
        {
            assert(self.model_state@[k as int].index.written() == k);
            self.model_state[k].index.increment();
            k += 1;
        }
        let dyn_index = DynamicIndex::new(index);
        let shared = dyn_index.share();
        self.components.insert(index, component);
        self.model_state.insert(
            index,
            ModelStateValue { index: shared, uid: self.uid_counter, changed: false },
        );
        self.uid_counter = self.uid_counter + 1;
        proof {
            let m1 = self.model_state@;
            assert(slots_of(m1) =~= slots_of(m0).insert(index as int, dyn_index.slot()));
            assert(uids(m1) =~= uids(m0).insert(index as int, old(self).uid_counter));
            assert(m1.map_values(|s: ModelStateValue| s.changed) =~= old(
                self,
            ).changed_flags().insert(index as int, false));
            assert forall|a: int, b: int|
                0 <= a < b < uids(m1).len() implies uids(m1)[a] != uids(m1)[b] by {
                if a != index && b != index {
                    let a0 = if a < index { a } else { a - 1 };
                    let b0 = if b < index { b } else { b - 1 };
                    assert(uids(m0)[a0] != uids(m0)[b0]);
                }
            }
            assert forall|i: int| 0 <= i < m1.len() implies 1 <= #[trigger] m1[i].uid
                < self.uid_counter by {
                if i < index {
                    assert(m1[i].uid == m0[i].uid);
                } else if i > index {
                    assert(m1[i].uid == m0[i - 1].uid);
                }
            }
            assert forall|i: int| 0 <= i < m1.len() implies #[trigger] m1[i].index.written()
                == i by {
                if i < index {
                    assert(m1[i] == self.model_state@[i]);
                } else if i > index {
                    assert(m0[i - 1].index.written() == i - 1);
                }
            }
        }
        dyn_index
    }

    /// Appends an element at the back.
    pub fn push_back(&mut self, component: C) -> (r: DynamicIndex)
        requires
            old(self).wf(),
            old(self).next_uid() < usize::MAX,
        ensures
            final(self).wf(),
            final(self)@ == old(self)@.push(component),
            final(self).model_uids() == old(self).model_uids().push(old(self).next_uid()),
            final(self).changed_flags() == old(self).changed_flags().push(false),
            final(self).rendered() == old(self).rendered(),
            final(self).pending_removals() == old(self).pending_removals(),
            final(self).next_uid() == old(self).next_uid() + 1,
            final(self).spec_widget() == old(self).spec_widget(),
            r.written() == old(self)@.len(),
            final(self).slots() == old(self).slots().push(r.slot()),
    {
        let index = self.len();
        let r = self.insert(index, component);
        assert(old(self).slots().insert(index as int, r.slot()) =~= old(self).slots().push(
            r.slot(),
        ));
        assert(old(self)@.insert(index as int, component) =~= old(self)@.push(component));
        assert(old(self).model_uids().insert(index as int, old(self).next_uid()) =~= old(
            self,
        ).model_uids().push(old(self).next_uid()));
        assert(old(self).changed_flags().insert(index as int, false) =~= old(
            self,
        ).changed_flags().push(false));
        r
    }

    /// Prepends an element at the front.
    pub fn push_front(&mut self, component: C) -> (r: DynamicIndex)
        requires
            old(self).wf(),
            old(self).next_uid() < usize::MAX,
        ensures
            final(self).wf(),
            final(self)@ == old(self)@.insert(0, component),
            final(self).model_uids() == old(self).model_uids().insert(0, old(self).next_uid()),
            final(self).changed_flags() == old(self).changed_flags().insert(0, false),
            final(self).rendered() == old(self).rendered(),
            final(self).pending_removals() == old(self).pending_removals(),
            final(self).next_uid() == old(self).next_uid() + 1,
            final(self).spec_widget() == old(self).spec_widget(),
            r.written() == 0,
            final(self).slots() == old(self).slots().insert(0, r.slot()),
    {
        self.insert(0, component)
    }

    /// Removes and returns the element at `index`, or returns [`None`] if
    /// `index` is out of bounds.  The widget of a launched element is
    /// scheduled for removal.
    pub fn remove(&mut self, index: usize) -> (r: Option<C>)
        requires
            old(self).wf(),
        ensures
            final(self).wf(),
            final(self).next_uid() == old(self).next_uid(),
            final(self).rendered() == old(self).rendered(),
            final(self).spec_widget() == old(self).spec_widget(),
            index < old(self)@.len() ==> r == Some(old(self)@[index as int]) && final(self)@ == old(
                self,
            )@.remove(index as int) && final(self).model_uids() == old(self).model_uids().remove(
                index as int,
            ) && final(self).changed_flags() == old(self).changed_flags().remove(index as int)
                && final(self).pending_removals() == (if old(self).rendered().contains(
                old(self).model_uids()[index as int],
            ) {
                old(self).pending_removals().push(
                    WidgetAction::Remove { uid: old(self).model_uids()[index as int] },
                )
            } else {
                old(self).pending_removals()
            }),
            index >= old(self)@.len() ==> r is None && final(self)@ == old(self)@
                && final(self).model_uids() == old(self).model_uids() && final(self).changed_flags()
                == old(self).changed_flags() && final(self).pending_removals() == old(
                self,
            ).pending_removals(),
            final(self).slots() == (if index < old(self)@.len() {
                old(self).slots().remove(index as int)
            } else {
                old(self).slots()
            }),
    {
        if index >= self.components.len() {
            return None;
        }
        let ghost m0 = self.model_state@;
        let state = self.model_state.remove(index);
        let component = self.components.remove(index);
        let ghost m1 = self.model_state@;
        let mut k: usize = index;
        while k < self.model_state.len()
            invariant
                index <= k <= self.model_state@.len(),
                self.model_state@.len() == m1.len(),
                old(self).wf(),
                index < old(self)@.len(),
                m0 == old(self).model_state@,
                self.components@ == old(self).components@.remove(index as int),
                self.rendered_state == old(self).rendered_state,
                self.removals == old(self).removals,
                self.uid_counter == old(self).uid_counter,
                self.widget == old(self).widget,
                m1 == m0.remove(index as int),
                forall|j: int|
                    0 <= j < m1.len() ==> (#[trigger] self.model_state@[j]).uid == m1[j].uid
                        && self.model_state@[j].changed == m1[j].changed
                        && self.model_state@[j].index.slot() == m1[j].index.slot(),
                forall|j: int|
                    0 <= j < m1.len() ==> (#[trigger] self.model_state@[j]).index.written() == (
                    if index <= j < k {
                        j
                    } else if j < index {
                        j
                    } else {
                        j + 1
                    }),
            decreases m1.len() - k,
        {
            self.model_state[k].index.decrement();
            k += 1;
        }
        if rendered_contains(&self.rendered_state, state.uid) {
            self.removals.push(WidgetAction::Remove { uid: state.uid });
        }
        proof {
            let m2 = self.model_state@;
            assert(slots_of(m2) =~= slots_of(m0).remove(index as int));
            assert(uids(m2) =~= uids(m0).remove(index as int));
            assert(m2.map_values(|s: ModelStateValue| s.changed) =~= old(
                self,
            ).changed_flags().remove(index as int));
            assert(uids(m0)[index as int] == state.uid);
            assert forall|a: int, b: int|
                0 <= a < b < uids(m2).len() implies uids(m2)[a] != uids(m2)[b] by {
                let a0 = if a < index { a } else { a + 1 };
                let b0 = if b < index { b } else { b + 1 };
                assert(uids(m0)[a0] != uids(m0)[b0]);
            }
            assert forall|i: int| 0 <= i < m2.len() implies 1 <= #[trigger] m2[i].uid
                < self.uid_counter by {
                if i < index {
                    assert(m2[i].uid == m0[i].uid);
                } else {
                    assert(m2[i].uid == m0[i + 1].uid);
                }
            }
        }
        Some(component)
    }

    /// Removes the back element, or returns [`None`] if there is none.
    pub fn pop_back(&mut self) -> (r: Option<C>)
        requires
            old(self).wf(),
        ensures
            final(self).wf(),
            final(self).next_uid() == old(self).next_uid(),
            final(self).rendered() == old(self).rendered(),
            final(self).spec_widget() == old(self).spec_widget(),
            old(self)@.len() > 0 ==> r == Some(old(self)@.last()) && final(self)@ == old(
                self,
            )@.drop_last() && final(self).model_uids() == old(self).model_uids().drop_last()
                && final(self).changed_flags() == old(self).changed_flags().drop_last()
                && final(self).pending_removals() == (if old(self).rendered().contains(
                old(self).model_uids().last(),
            ) {
                old(self).pending_removals().push(
                    WidgetAction::Remove { uid: old(self).model_uids().last() },
                )
            } else {
                old(self).pending_removals()
            }),
            old(self)@.len() == 0 ==> r is None && final(self)@ == old(self)@
                && final(self).model_uids() == old(self).model_uids() && final(self).changed_flags()
                == old(self).changed_flags() && final(self).pending_removals() == old(
                self,
            ).pending_removals(),
            final(self).slots() == (if old(self)@.len() > 0 {
                old(self).slots().drop_last()
            } else {
                old(self).slots()
            }),
    {
        if self.is_empty() {
            None
        } else {
            let last = self.len() - 1;
            let r = self.remove(last);
            assert(old(self).slots().remove(last as int) =~= old(self).slots().drop_last());
            assert(old(self)@.remove(last as int) =~= old(self)@.drop_last());
            assert(old(self).model_uids().remove(last as int) =~= old(
                self,
            ).model_uids().drop_last());
            assert(old(self).changed_flags().remove(last as int) =~= old(
                self,
            ).changed_flags().drop_last());
            r
        }
    }

    /// Removes the front element, or returns [`None`] if there is none.
    pub fn pop_front(&mut self) -> (r: Option<C>)
        requires
            old(self).wf(),
        ensures
            final(self).wf(),
            final(self).next_uid() == old(self).next_uid(),
            final(self).rendered() == old(self).rendered(),
            final(self).spec_widget() == old(self).spec_widget(),
            old(self)@.len() > 0 ==> r == Some(old(self)@[0]) && final(self)@ == old(
                self,
            )@.remove(0) && final(self).model_uids() == old(self).model_uids().remove(0)
                && final(self).changed_flags() == old(self).changed_flags().remove(0)
                && final(self).pending_removals() == (if old(self).rendered().contains(
                old(self).model_uids()[0],
            ) {
                old(self).pending_removals().push(
                    WidgetAction::Remove { uid: old(self).model_uids()[0] },
                )
            } else {
                old(self).pending_removals()
            }),
            old(self)@.len() == 0 ==> r is None && final(self)@ == old(self)@
                && final(self).model_uids() == old(self).model_uids() && final(self).changed_flags()
                == old(self).changed_flags() && final(self).pending_removals() == old(
                self,
            ).pending_removals(),
            final(self).slots() == (if old(self)@.len() > 0 {
                old(self).slots().remove(0)
            } else {
                old(self).slots()
            }),
    {
        self.remove(0)
    }

    /// Swaps the elements at `first` and `second`; they may be equal.
    pub fn swap(&mut self, first: usize, second: usize)
        requires
            old(self).wf(),
            first < old(self)@.len(),
            second < old(self)@.len(),
        ensures
            final(self).wf(),
            final(self)@ == old(self)@.update(first as int, old(self)@[second as int]).update(
                second as int,
                old(self)@[first as int],
            ),
            final(self).model_uids() == old(self).model_uids().update(
                first as int,
                old(self).model_uids()[second as int],
            ).update(second as int, old(self).model_uids()[first as int]),
            final(self).changed_flags() == old(self).changed_flags().update(
                first as int,
                old(self).changed_flags()[second as int],
            ).update(second as int, old(self).changed_flags()[first as int]),
            final(self).rendered() == old(self).rendered(),
            final(self).pending_removals() == old(self).pending_removals(),
            final(self).next_uid() == old(self).next_uid(),
            final(self).spec_widget() == old(self).spec_widget(),
            final(self).slots() == old(self).slots().update(
                first as int,
                old(self).slots()[second as int],
            ).update(second as int, old(self).slots()[first as int]),
    {
        if first != second {
            let (a, b) = if first < second {
                (first, second)
            } else {
                (second, first)
            };
            let ghost m0 = self.model_state@;
            vec_swap(&mut self.model_state, a, b);
            vec_swap(&mut self.components, a, b);
            self.model_state[first].index.set_value(first);
            self.model_state[second].index.set_value(second);
            proof {
                let m1 = self.model_state@;
                assert(slots_of(m1) =~= slots_of(m0).update(
                    first as int,
                    slots_of(m0)[second as int],
                ).update(second as int, slots_of(m0)[first as int]));
                assert(uids(m1) =~= uids(m0).update(first as int, uids(m0)[second as int]).update(
                    second as int,
                    uids(m0)[first as int],
                ));
                assert(m1.map_values(|s: ModelStateValue| s.changed) =~= old(
                    self,
                ).changed_flags().update(first as int, old(self).changed_flags()[second as int]).update(
                    second as int,
                    old(self).changed_flags()[first as int],
                ));
                assert(self.components@ =~= old(self)@.update(
                    first as int,
                    old(self)@[second as int],
                ).update(second as int, old(self)@[first as int]));
                assert forall|x: int, y: int|
                    0 <= x < y < uids(m1).len() implies uids(m1)[x] != uids(m1)[y] by {
                    let x0 = if x == a {
                        b as int
                    } else if x == b {
                        a as int
                    } else {
                        x
                    };
                    let y0 = if y == a {
                        b as int
                    } else if y == b {
                        a as int
                    } else {
                        y
                    };
                    assert(uids(m1)[x] == uids(m0)[x0] && uids(m1)[y] == uids(m0)[y0]);
                }
                assert forall|i: int| 0 <= i < m1.len() implies 1 <= #[trigger] m1[i].uid
                    < self.uid_counter by {
                    if i == a {
                        assert(m1[i].uid == m0[b as int].uid);
                    } else if i == b {
                        assert(m1[i].uid == m0[a as int].uid);
                    } else {
                        assert(m1[i].uid == m0[i].uid);
                    }
                }
                assert forall|i: int| 0 <= i < m1.len() implies #[trigger] m1[i].index.written()
                    == i by {
                    if i != a && i != b {
                        assert(m1[i] == m0[i]);
                    }
                }
            }
        } else {
            assert(old(self)@.update(first as int, old(self)@[second as int]).update(
                second as int,
                old(self)@[first as int],
            ) =~= old(self)@);
            assert(old(self).model_uids().update(
                first as int,
                old(self).model_uids()[second as int],
            ).update(second as int, old(self).model_uids()[first as int]) =~= old(
                self,
            ).model_uids());
            assert(old(self).changed_flags().update(
                first as int,
                old(self).changed_flags()[second as int],
            ).update(second as int, old(self).changed_flags()[first as int]) =~= old(
                self,
            ).changed_flags());
        }
    }

    /// Moves the element at `current_position` to `target`, shifting all
    /// elements in between; the two may be equal.
    #[verifier::spinoff_prover]
    #[verifier::rlimit(40)]
    pub fn move_to(&mut self, current_position: usize, target: usize)
        requires
            old(self).wf(),
            current_position < old(self)@.len(),
            target < old(self)@.len(),
        ensures
            final(self).wf(),
            final(self)@ == old(self)@.remove(current_position as int).insert(
                target as int,
                old(self)@[current_position as int],
            ),
            final(self).model_uids() == old(self).model_uids().remove(
                current_position as int,
            ).insert(target as int, old(self).model_uids()[current_position as int]),
            final(self).changed_flags() == old(self).changed_flags().remove(
                current_position as int,
            ).insert(target as int, old(self).changed_flags()[current_position as int]),
            final(self).rendered() == old(self).rendered(),
            final(self).pending_removals() == old(self).pending_removals(),
            final(self).next_uid() == old(self).next_uid(),
            final(self).spec_widget() == old(self).spec_widget(),
            final(self).slots() == old(self).slots().remove(current_position as int).insert(
                target as int,
                old(self).slots()[current_position as int],
            ),
    {
        let ghost m0 = self.model_state@;
        let ghost c0 = self.components@;
        let cur = current_position;
        if cur != target {
            let mut elem = self.model_state.remove(cur);
            elem.index.set_value(target);
            self.model_state.insert(target, elem);
            let comp = self.components.remove(cur);
            self.components.insert(target, comp);
            let ghost m1 = self.model_state@;
            let n = self.model_state.len();
            assert(cur < n);
            let (lo, hi) = if cur > target {
                (target + 1, cur + 1)
            } else {
                (cur, target)
            };
            let mut k: usize = lo;
            while k < hi
                invariant
                    lo <= k <= hi <= m0.len(),
                    cur != target,
                    cur > target ==> lo == target + 1 && hi == cur + 1,
                    cur < target ==> lo == cur && hi == target,
                    self.model_state@.len() == m0.len(),
                    m1.len() == m0.len(),
                    forall|j: int|
                        0 <= j < m1.len() ==> (#[trigger] self.model_state@[j]).uid == m1[j].uid
                            && self.model_state@[j].changed == m1[j].changed
                            && self.model_state@[j].index.slot() == m1[j].index.slot(),
                    forall|j: int|
                        0 <= j < m1.len() ==> (#[trigger] self.model_state@[j]).index.written() == (
                        if lo <= j < k {
                            if cur > target {
                                m1[j].index.written() + 1int
                            } else {
                                m1[j].index.written() - 1int
                            }
                        } else {
                            m1[j].index.written() as int
                        }),
                    forall|j: int|
                        0 <= j < m1.len() && lo <= j < hi ==> (if cur > target {
                            #[trigger] m1[j].index.written() == j - 1
                        } else {
                            m1[j].index.written() == j + 1
                        }),
                    self.components@ == old(self)@.remove(cur as int).insert(
                        target as int,
                        old(self)@[cur as int],
                    ),
                    self.rendered_state == old(self).rendered_state,
                    self.removals == old(self).removals,
                    self.uid_counter == old(self).uid_counter,
                    self.widget == old(self).widget,
                decreases hi - k,
            {
                if cur > target {
                    self.model_state[k].index.increment();
                } else {
                    self.model_state[k].index.decrement();
                }
                k += 1;
            }
            proof {
                let m2 = self.model_state@;
                assert(slots_of(m2) =~= slots_of(m0).remove(cur as int).insert(
                    target as int,
                    slots_of(m0)[cur as int],
                ));
                assert(uids(m2) =~= uids(m0).remove(cur as int).insert(
                    target as int,
                    uids(m0)[cur as int],
                ));
                assert(m2.map_values(|s: ModelStateValue| s.changed) =~= old(
                    self,
                ).changed_flags().remove(cur as int).insert(
                    target as int,
                    old(self).changed_flags()[cur as int],
                ));
                assert(self.components@ =~= old(self)@.remove(cur as int).insert(
                    target as int,
                    old(self)@[cur as int],
                ));
                assert forall|x: int, y: int|
                    0 <= x < y < uids(m2).len() implies uids(m2)[x] != uids(m2)[y] by {
                    let r = uids(m0).remove(cur as int);
                    assert forall|p: int, q: int| 0 <= p < q < r.len() implies r[p] != r[q] by {
                        let p0 = if p < cur { p } else { p + 1 };
                        let q0 = if q < cur { q } else { q + 1 };
                        assert(uids(m0)[p0] != uids(m0)[q0]);
                    }
                    assert forall|p: int| 0 <= p < r.len() implies r[p] != uids(m0)[cur as int] by {
                        let p0 = if p < cur { p } else { p + 1 };
                        assert(uids(m0)[p0] != uids(m0)[cur as int]);
                    }
                    if x != target && y != target {
                        let x0 = if x < target { x } else { x - 1 };
                        let y0 = if y < target { y } else { y - 1 };
                        assert(r[x0] != r[y0]);
                    } else if x == target {
                        let y0 = if y < target { y } else { y - 1 };
                        assert(r[y0] != uids(m0)[cur as int]);
                    } else {
                        let x0 = if x < target { x } else { x - 1 };
                        assert(r[x0] != uids(m0)[cur as int]);
                    }
                }
                assert forall|i: int| 0 <= i < m2.len() implies 1 <= #[trigger] m2[i].uid
                    < self.uid_counter by {
                    let r = m0.remove(cur as int);
                    if i == target {
                        assert(m2[i].uid == m0[cur as int].uid);
                    } else {
                        let i0 = if i < target { i } else { i - 1 };
                        let i1 = if i0 < cur { i0 } else { i0 + 1 };
                        assert(m1[i] == r[i0]);
                        assert(r[i0] == m0[i1]);
                    }
                }
                assert forall|i: int| 0 <= i < m2.len() implies #[trigger] m2[i].index.written()
                    == i by {
                    let r = m0.remove(cur as int);
                    if i != target {
                        let i0 = if i < target { i } else { i - 1 };
                        let i1 = if i0 < cur { i0 } else { i0 + 1 };
                        assert(m1[i] == r[i0]);
                        assert(r[i0] == m0[i1]);
                        assert(m0[i1].index.written() == i1);
                    }
                }
            }
        } else {
            assert(old(self)@.remove(cur as int).insert(target as int, old(self)@[cur as int])
                =~= old(self)@);
            assert(old(self).model_uids().remove(cur as int).insert(
                target as int,
                old(self).model_uids()[cur as int],
            ) =~= old(self).model_uids());
            assert(old(self).changed_flags().remove(cur as int).insert(
                target as int,
                old(self).changed_flags()[cur as int],
            ) =~= old(self).changed_flags());
            assert(old(self).slots().remove(cur as int).insert(
                target as int,
                old(self).slots()[cur as int],
            ) =~= old(self).slots());
        }
    }

    /// Moves the element at `current_position` to the front.
    pub fn move_front(&mut self, current_position: usize)
        requires
            old(self).wf(),
            current_position < old(self)@.len(),
        ensures
            final(self).wf(),
            final(self)@ == old(self)@.remove(current_position as int).insert(
                0,
                old(self)@[current_position as int],
            ),
            final(self).model_uids() == old(self).model_uids().remove(
                current_position as int,
            ).insert(0, old(self).model_uids()[current_position as int]),
            final(self).changed_flags() == old(self).changed_flags().remove(
                current_position as int,
            ).insert(0, old(self).changed_flags()[current_position as int]),
            final(self).rendered() == old(self).rendered(),
            final(self).pending_removals() == old(self).pending_removals(),
            final(self).next_uid() == old(self).next_uid(),
            final(self).spec_widget() == old(self).spec_widget(),
            final(self).slots() == old(self).slots().remove(current_position as int).insert(
                0,
                old(self).slots()[current_position as int],
            ),
    {
        self.move_to(current_position, 0);
    }

    /// Moves the element at `current_position` to the back.
    pub fn move_back(&mut self, current_position: usize)
        requires
            old(self).wf(),
            current_position < old(self)@.len(),
        ensures
            final(self).wf(),
            final(self)@ == old(self)@.remove(current_position as int).push(
                old(self)@[current_position as int],
            ),
            final(self).model_uids() == old(self).model_uids().remove(
                current_position as int,
            ).push(old(self).model_uids()[current_position as int]),
            final(self).changed_flags() == old(self).changed_flags().remove(
                current_position as int,
            ).push(old(self).changed_flags()[current_position as int]),
            final(self).rendered() == old(self).rendered(),
            final(self).pending_removals() == old(self).pending_removals(),
            final(self).next_uid() == old(self).next_uid(),
            final(self).spec_widget() == old(self).spec_widget(),
            final(self).slots() == old(self).slots().remove(current_position as int).push(
                old(self).slots()[current_position as int],
            ),
    {
        let last = self.len() - 1;
        self.move_to(current_position, last);
        let ghost c = current_position as int;
        assert(old(self).slots().remove(c).insert(last as int, old(self).slots()[c]) =~= old(
            self,
        ).slots().remove(c).push(old(self).slots()[c]));
        assert(old(self)@.remove(c).insert(last as int, old(self)@[c]) =~= old(self)@.remove(
            c,
        ).push(old(self)@[c]));
        assert(old(self).model_uids().remove(c).insert(last as int, old(self).model_uids()[c])
            =~= old(self).model_uids().remove(c).push(old(self).model_uids()[c]));
        assert(old(self).changed_flags().remove(c).insert(
            last as int,
            old(self).changed_flags()[c],
        ) =~= old(self).changed_flags().remove(c).push(old(self).changed_flags()[c]));
    }

    /// A mutable reference to the model of the back element, which is marked
    /// as modified, or [`None`] if there is none.
    pub fn back_mut(&mut self) -> (r: Option<&mut C>)
        requires
            old(self).wf(),
        ensures
            final(self).wf(),
            final(self).model_uids() == old(self).model_uids(),
            final(self).rendered() == old(self).rendered(),
            final(self).pending_removals() == old(self).pending_removals(),
            final(self).next_uid() == old(self).next_uid(),
            old(self)@.len() > 0 ==> r is Some && *r->0 == old(self)@.last() && final(self)@ == old(
                self,
            )@.update(old(self)@.len() - 1, *final(r->0)) && final(self).changed_flags() == old(
                self,
            ).changed_flags().update(old(self)@.len() - 1, true),
            old(self)@.len() == 0 ==> r is None && final(self)@ == old(self)@
                && final(self).changed_flags() == old(self).changed_flags(),
            final(self).slots() == old(self).slots(),
    {
        let last = self.len().wrapping_sub(1);
        self.get_mut(last)
    }

    /// A mutable reference to the model of the front element, which is marked
    /// as modified, or [`None`] if there is none.
    pub fn front_mut(&mut self) -> (r: Option<&mut C>)
        requires
            old(self).wf(),
        ensures
            final(self).wf(),
            final(self).model_uids() == old(self).model_uids(),
            final(self).rendered() == old(self).rendered(),
            final(self).pending_removals() == old(self).pending_removals(),
            final(self).next_uid() == old(self).next_uid(),
            old(self)@.len() > 0 ==> r is Some && *r->0 == old(self)@[0] && final(self)@ == old(
                self,
            )@.update(0, *final(r->0)) && final(self).changed_flags() == old(
                self,
            ).changed_flags().update(0, true),
            old(self)@.len() == 0 ==> r is None && final(self)@ == old(self)@
                && final(self).changed_flags() == old(self).changed_flags(),
            final(self).slots() == old(self).slots(),
    {
        self.get_mut(0)
    }

    /// Removes all elements.  The widgets of launched elements are scheduled
    /// for removal, in order, and identifiers start again from `1`.
    pub fn clear(&mut self)
        requires
            old(self).wf(),
        ensures
            final(self).wf(),
            final(self)@ == Seq::<C>::empty(),
            final(self).model_uids() == Seq::<usize>::empty(),
            final(self).rendered() == Seq::<usize>::empty(),
            final(self).pending_removals() == old(self).pending_removals() + removals_of(
                old(self).model_uids(),
                old(self).rendered(),
            ),
            final(self).next_uid() == 1,
            final(self).spec_widget() == old(self).spec_widget(),
            final(self).slots() == Seq::<Arc<AtomicUsize>>::empty(),
    {
        let ghost ids = uids(self.model_state@);
        let ghost rs = rendered_uids(self.rendered_state@);
        let ghost pred = |u: usize| rs.contains(u);
        let ghost tag = |u: usize| WidgetAction::Remove { uid: u };
        let mut k: usize = 0;
        while k < self.model_state.len()
            invariant
                k <= self.model_state@.len(),
                ids == uids(self.model_state@),
                rs == rendered_uids(self.rendered_state@),
                pred == (|u: usize| rs.contains(u)),
                tag == (|u: usize| WidgetAction::Remove { uid: u }),
                self.removals@ == old(self).removals@ + ids.take(k as int).filter(pred).map_values(
                    tag,
                ),
                forall|q: int| 0 <= q < self.removals@.len() ==> #[trigger] self.removals@[q] is Remove,
                self.widget == old(self).widget,
                self.model_state == old(self).model_state,
                self.rendered_state == old(self).rendered_state,
            decreases self.model_state@.len() - k,
        {
            let uid = self.model_state[k].uid;
            let ghost before = self.removals@;
            assert(ids.take(k + 1) =~= ids.take(k as int).push(uid));
            proof {
                ids.take(k as int).lemma_filter_push(uid, pred);
            }
            if rendered_contains(&self.rendered_state, uid) {
                self.removals.push(WidgetAction::Remove { uid });
                assert(self.removals@ =~= old(self).removals@ + ids.take(k + 1).filter(
                    pred,
                ).map_values(tag));
            } else {
                assert(self.removals@ =~= old(self).removals@ + ids.take(k + 1).filter(
                    pred,
                ).map_values(tag));
            }
            k += 1;
        }
        assert(ids.take(k as int) =~= ids);
        self.components.clear();
        self.model_state.clear();
        self.rendered_state.clear();
        self.uid_counter = 1;
        assert(uids(self.model_state@) =~= Seq::<usize>::empty());
        assert(rendered_uids(self.rendered_state@) =~= Seq::<usize>::empty());
        assert(self.removals@ == old(self).pending_removals() + removals_of(ids, rs));
        assert(slots_of(self.model_state@) =~= Seq::<Arc<AtomicUsize>>::empty());
    }

    /// Updates the widgets according to the changes made to the model.
    ///
    /// Returns the scheduled removals followed by the plan of
    /// [`render_plan`](crate::factory::render::render_plan); afterwards the
    /// rendered state is the model, no element is marked as modified and no
    /// removal is pending.
    pub fn render_changes(&mut self) -> (r: Vec<WidgetAction>)
        requires
            old(self).wf(),
        ensures
            final(self).wf(),
            r@ == old(self).pending_removals() + render_plan(old(self).model(), old(self).rendered()),
            final(self)@ == old(self)@,
            final(self).model_uids() == old(self).model_uids(),
            final(self).rendered() == old(self).model_uids(),
            final(self).changed_flags() == Seq::new(old(self)@.len(), |i: int| false),
            final(self).pending_removals() == Seq::<WidgetAction>::empty(),
            final(self).next_uid() == old(self).next_uid(),
            final(self).spec_widget() == old(self).spec_widget(),
            final(self).slots() == old(self).slots(),
    {
        let mut plan = plan_render(&self.model_state, &self.rendered_state);
        let mut out: Vec<WidgetAction> = Vec::new();
        std::mem::swap(&mut out, &mut self.removals);
        out.append(&mut plan);
        let ghost m0 = self.model_state@;
        let mut rendered: Vec<RenderedState> = Vec::new();
        let mut k: usize = 0;
        while k < self.model_state.len()
            invariant
                k <= self.model_state@.len(),
                self.model_state@.len() == m0.len(),
                forall|j: int|
                    0 <= j < m0.len() ==> (#[trigger] self.model_state@[j]).uid == m0[j].uid
                        && self.model_state@[j].index == m0[j].index && (self.model_state@[j].changed
                        == (if j < k {
                        false
                    } else {
                        m0[j].changed
                    })),
                rendered_uids(rendered@) == uids(m0).take(k as int),
                m0 == old(self).model_state@,
                self.components == old(self).components,
                self.rendered_state == old(self).rendered_state,
                self.removals@ == Seq::<WidgetAction>::empty(),
                self.uid_counter == old(self).uid_counter,
                self.widget == old(self).widget,
            decreases m0.len() - k,
        {
            self.model_state[k].changed = false;
            let uid = self.model_state[k].uid;
            let ghost rb = rendered@;
            rendered.push(RenderedState { uid });
            assert(rendered_uids(rendered@) =~= rendered_uids(rb).push(uid));
            assert(uids(m0)[k as int] == uid);
            assert(uids(m0).take(k + 1) =~= uids(m0).take(k as int).push(uid));
            k += 1;
            assert(rendered_uids(rendered@) =~= uids(m0).take(k as int));
        }
        self.rendered_state = rendered;
        proof {
            let m1 = self.model_state@;
            assert(uids(m1) =~= uids(m0));
            assert(slots_of(m1) =~= slots_of(m0));
            assert(uids(m0).take(k as int) =~= uids(m0));
            assert(m1.map_values(|s: ModelStateValue| s.changed) =~= Seq::new(
                old(self)@.len(),
                |i: int| false,
            ));
            assert forall|i: int| 0 <= i < self.rendered_state@.len() implies 1
                <= #[trigger] self.rendered_state@[i].uid < self.uid_counter by {
                assert(rendered_uids(self.rendered_state@)[i] == uids(m0)[i]);
                assert(m0[i].uid == uids(m0)[i]);
            }
            assert forall|i: int| 0 <= i < m1.len() implies 1 <= #[trigger] m1[i].uid
                < self.uid_counter by {
                assert(m1[i].uid == m0[i].uid);
            }
        }
        out
    }

    /// Applies the closing of pages that happened in the container widget
    /// since the last render.
    ///
    /// `page_uids` are the identifiers of the elements whose pages the
    /// container still shows.  Every element without a page is removed from
    /// the model and from the rendered state, in order, and the removal of
    /// its widget is scheduled; the other elements keep their order.
    pub fn apply_external_updates(&mut self, page_uids: &Vec<usize>)
        requires
            old(self).wf(),
            old(self).rendered() == old(self).model_uids(),
        ensures
            final(self).wf(),
            final(self)@ == retain_kept(
                old(self)@,
                present_flags(old(self).model_uids(), page_uids@),
            ),
            final(self).model_uids() == retain_kept(
                old(self).model_uids(),
                present_flags(old(self).model_uids(), page_uids@),
            ),
            final(self).changed_flags() == retain_kept(
                old(self).changed_flags(),
                present_flags(old(self).model_uids(), page_uids@),
            ),
            final(self).pending_removals() == old(self).pending_removals() + removal_actions(
                retain_kept(old(self).model_uids(), missing_flags(old(self).model_uids(), page_uids@)),
            ),
            final(self).rendered() == final(self).model_uids(),
            final(self).next_uid() == old(self).next_uid(),
            final(self).spec_widget() == old(self).spec_widget(),
            final(self).slots() == retain_kept(
                old(self).slots(),
                present_flags(old(self).model_uids(), page_uids@),
            ),
    {
        let ghost c0 = self@;
        let ghost f0 = self.changed_flags();
        let ghost s0 = self.slots();
        let ghost u0 = self.model_uids();
        let ghost p0 = self.pending_removals();
        let ghost keep = present_flags(u0, page_uids@);
        let ghost drop = missing_flags(u0, page_uids@);
        let ghost mut done: int = 0;
        let mut i: usize = 0;
        proof {
            assert(c0.take(0) =~= Seq::<C>::empty());
            assert(u0.take(0) =~= Seq::<usize>::empty());
            assert(keep.take(0) =~= Seq::<bool>::empty());
            assert(drop.take(0) =~= Seq::<bool>::empty());
            assert(c0.skip(0) =~= c0);
            assert(u0.skip(0) =~= u0);
            assert(f0.take(0) =~= Seq::<bool>::empty());
            assert(f0.skip(0) =~= f0);
            assert(s0.take(0) =~= Seq::<Arc<AtomicUsize>>::empty());
            assert(s0.skip(0) =~= s0);
            assert(removal_actions(Seq::<usize>::empty()) =~= Seq::<WidgetAction>::empty());
            assert(p0 + Seq::<WidgetAction>::empty() =~= p0);
        }
        while i < self.components.len()
            invariant
                self.wf(),
                c0.len() == u0.len(),
                keep.len() == u0.len(),
                drop.len() == u0.len(),
                keep == present_flags(u0, page_uids@),
                drop == missing_flags(u0, page_uids@),
                0 <= done <= u0.len(),
                i == retain_kept(u0.take(done), keep.take(done)).len(),
                self@ == retain_kept(c0.take(done), keep.take(done)) + c0.skip(done),
                self.model_uids() == retain_kept(u0.take(done), keep.take(done)) + u0.skip(done),
                f0.len() == u0.len(),
                self.changed_flags() == retain_kept(f0.take(done), keep.take(done)) + f0.skip(done),
                s0.len() == u0.len(),
                self.slots() == retain_kept(s0.take(done), keep.take(done)) + s0.skip(done),
                self.pending_removals() == p0 + removal_actions(
                    retain_kept(u0.take(done), drop.take(done)),
                ),
                self.rendered() == self.model_uids(),
                self.next_uid() == old(self).next_uid(),
                self.spec_widget() == old(self).spec_widget(),
            decreases u0.len() - done,
        {
            proof {
                lemma_retain_step(c0, keep, done);
                lemma_retain_step(u0, keep, done);
                lemma_retain_step(u0, drop, done);
                lemma_retain_step(f0, keep, done);
                lemma_retain_step(s0, keep, done);
                lemma_retain_len_same(s0.take(done), u0.take(done), keep.take(done));
                assert(s0.skip(done + 1) =~= s0.skip(done).drop_first());
                lemma_retain_len(u0.take(done), keep.take(done));
                lemma_retain_len_same(c0.take(done), u0.take(done), keep.take(done));
                lemma_retain_len_same(f0.take(done), u0.take(done), keep.take(done));
                assert(f0.skip(done + 1) =~= f0.skip(done).drop_first());
                assert(self@.len() == i + (c0.len() - done));
                assert(self.model_uids()[i as int] == u0[done]);
                assert(self@[i as int] == c0[done]);
                assert(u0.skip(done + 1) =~= u0.skip(done).drop_first());
                assert(c0.skip(done + 1) =~= c0.skip(done).drop_first());
            }
            let uid = self.model_state[i].uid;
            proof {
                assert(uids(self.model_state@)[i as int] == uid);
            }
            if ids_contain(page_uids, uid) {
                proof {
                    assert(keep[done] && !drop[done]);
                    assert(self@ =~= retain_kept(c0.take(done + 1), keep.take(done + 1)) + c0.skip(
                        done + 1,
                    ));
                    assert(self.model_uids() =~= retain_kept(u0.take(done + 1), keep.take(done + 1))
                        + u0.skip(done + 1));
                    assert(self.changed_flags() =~= retain_kept(f0.take(done + 1), keep.take(done + 1))
                        + f0.skip(done + 1));
                    assert(self.slots() =~= retain_kept(s0.take(done + 1), keep.take(done + 1))
                        + s0.skip(done + 1));
                }
                i = i + 1;
            } else {
                proof {
                    assert(!keep[done] && drop[done]);
                    assert(u0.contains(uid));
                }
                let _ = self.remove(i);
                let ghost rendered_before = self.rendered_state@;
                self.rendered_state.remove(i);
                proof {
                    assert(rendered_uids(self.rendered_state@) =~= rendered_uids(rendered_before).remove(
                        i as int,
                    ));
                    lemma_no_dup_remove(rendered_uids(rendered_before), i as int);
                    assert forall|q: int| 0 <= q < self.rendered_state@.len() implies 1
                        <= #[trigger] self.rendered_state@[q].uid < self.uid_counter by {
                        if q < i {
                            assert(self.rendered_state@[q] == rendered_before[q]);
                        } else {
                            assert(self.rendered_state@[q] == rendered_before[q + 1]);
                        }
                    }
                    assert(self@ =~= retain_kept(c0.take(done + 1), keep.take(done + 1)) + c0.skip(
                        done + 1,
                    ));
                    assert(self.model_uids() =~= retain_kept(u0.take(done + 1), keep.take(done + 1))
                        + u0.skip(done + 1));
                    assert(self.changed_flags() =~= retain_kept(f0.take(done + 1), keep.take(done + 1))
                        + f0.skip(done + 1));
                    assert(self.slots() =~= retain_kept(s0.take(done + 1), keep.take(done + 1))
                        + s0.skip(done + 1));
                    assert(removal_actions(retain_kept(u0.take(done + 1), drop.take(done + 1)))
                        =~= removal_actions(retain_kept(u0.take(done), drop.take(done))).push(
                        WidgetAction::Remove { uid },
                    ));
                }
            }
            proof {
                done = done + 1;
            }
        }
        proof {
            lemma_retain_len(u0.take(done), keep.take(done));
            assert(done == u0.len());
            assert(c0.take(done) =~= c0);
            assert(u0.take(done) =~= u0);
            assert(keep.take(done) =~= keep);
            assert(drop.take(done) =~= drop);
            assert(c0.skip(done) =~= Seq::<C>::empty());
            assert(u0.skip(done) =~= Seq::<usize>::empty());
            assert(f0.take(done) =~= f0);
            assert(f0.skip(done) =~= Seq::<bool>::empty());
            assert(s0.take(done) =~= s0);
            assert(s0.skip(done) =~= Seq::<Arc<AtomicUsize>>::empty());
        }
    }

    /// Creates a container from models, in order.
    pub fn from_iter(components: Vec<C>, widget: W) -> (r: Self)
        requires
            components.len() < usize::MAX,
        ensures
            r.wf(),
            r@ == components@,
            r.rendered() == Seq::<usize>::empty(),
            r.pending_removals() == Seq::<WidgetAction>::empty(),
            r.next_uid() == components.len() + 1,
            r.spec_widget() == widget,
    {
        let mut output = Self::new(widget);
        let mut rest = components;
        let ghost all = rest@;
        let n = rest.len();
        while rest.len() > 0
            invariant
                output.wf(),
                output@ + rest@ == all,
                output.next_uid() == output@.len() + 1,
                output@.len() + rest@.len() == n,
                n == all.len(),
                n < usize::MAX,
                output.rendered() == Seq::<usize>::empty(),
                output.pending_removals() == Seq::<WidgetAction>::empty(),
                output.spec_widget() == widget,
            decreases rest@.len(),
        {
            let ghost before = output@;
            let ghost rest_before = rest@;
            let c = rest.remove(0);
            output.push_back(c);
            assert(output@ + rest@ =~= before + rest_before);
        }
        assert(output@ + rest@ =~= output@);
        output
    }
}


/// Every element of a factory holds the index of its position: inserting,
/// removing, swapping and moving elements keep the dynamic indices up to date.
pub proof fn lemma_indices_follow_positions<C, W>(d: &FactoryVecDeque<C, W>)
    requires
        d.wf(),
    ensures
        forall|i: int| 0 <= i < d@.len() ==> #[trigger] d.index_value(i) == i,
{
}

/// Swapping the same two elements twice leaves the model as it was: the
/// components, the identifiers and the modification flags.
pub proof fn lemma_swap_twice<A>(s: Seq<A>, first: int, second: int)
    requires
        0 <= first < s.len(),
        0 <= second < s.len(),
    ensures
        ({
            let once = s.update(first, s[second]).update(second, s[first]);
            once.update(first, once[second]).update(second, once[first])
        }) == s,
{
    let once = s.update(first, s[second]).update(second, s[first]);
    assert(once.update(first, once[second]).update(second, once[first]) =~= s);
}

} // verus!

verus! {

/// The first stage of building a [`FactoryVecDeque`].
pub struct FactoryVecDequeBuilder<C, W> {
    _component: core::marker::PhantomData<C>,
    _widget: core::marker::PhantomData<W>,
}

/// The second stage of building a [`FactoryVecDeque`]: the parent widget
/// is known.
pub struct FactoryVecDequeConnector<C, W> {
    parent_widget: W,
    _component: core::marker::PhantomData<C>,
}

impl<C, W> FactoryVecDequeBuilder<C, W> {
    /// Starts building a factory whose widgets go into `parent_widget`.
    pub fn init(parent_widget: W) -> (r: FactoryVecDequeConnector<C, W>)
        ensures
            r.widget_value() == parent_widget,
    {
        FactoryVecDequeConnector { parent_widget, _component: core::marker::PhantomData }
    }
}

impl<C, W> FactoryVecDequeConnector<C, W> {
    /// The parent widget.
    pub closed spec fn widget_value(&self) -> W {
        self.parent_widget
    }

    /// Finishes the builder with an empty factory.
    pub fn detach(self) -> (r: FactoryVecDeque<C, W>)
        ensures
            r.wf(),
            r@ == Seq::<C>::empty(),
            r.rendered() == Seq::<usize>::empty(),
            r.pending_removals() == Seq::<WidgetAction>::empty(),
            r.spec_widget() == self.widget_value(),
    {
        FactoryVecDeque::new(self.parent_widget)
    }
}

} // verus!

verus! {

/// Removing the element at the index it was inserted at gives that element
/// back and restores the sequence it was inserted into: the components, the
/// identifiers and the modification flags.
pub proof fn lemma_remove_undoes_insert<A>(s: Seq<A>, index: int, value: A)
    requires
        0 <= index <= s.len(),
    ensures
        s.insert(index, value)[index] == value,
        s.insert(index, value).remove(index) == s,
{
    assert(s.insert(index, value).remove(index) =~= s);
}

} // verus!

verus! {

/// The result of swapping the elements at `first` and `second`.
pub open spec fn swapped<A>(s: Seq<A>, first: int, second: int) -> Seq<A> {
    s.update(first, s[second]).update(second, s[first])
}

/// Swapping the same two elements twice between two renders causes no
/// widget update: when the widgets were in sync with an unmodified model,
/// the next render has nothing to do but the removals already scheduled.
///
/// `after` is the container after the two swaps, as the contract of
/// [`FactoryVecDeque::swap`] describes it.
pub proof fn lemma_swap_twice_renders_nothing<C, W>(
    before: FactoryVecDeque<C, W>,
    after: FactoryVecDeque<C, W>,
    first: int,
    second: int,
)
    requires
        before.wf(),
        after.wf(),
        0 <= first < before@.len(),
        0 <= second < before@.len(),
        before.rendered() == before.model_uids(),
        forall|k: int| 0 <= k < before@.len() ==> !(#[trigger] before.changed_flags()[k]),
        after.model_uids() == swapped(swapped(before.model_uids(), first, second), first, second),
        after.changed_flags() == swapped(swapped(before.changed_flags(), first, second), first, second),
        after.rendered() == before.rendered(),
        after.pending_removals() == before.pending_removals(),
    ensures
        after.pending_removals() + render_plan(after.model(), after.rendered())
            == before.pending_removals(),
{
    lemma_swap_twice(before.model_uids(), first, second);
    lemma_swap_twice(before.changed_flags(), first, second);
    assert forall|k: int| 0 <= k < after.model().len() implies !(#[trigger] after.model()[k].changed) by {
        assert(after.changed_flags()[k] == after.model()[k].changed);
    }
    lemma_in_sync_plan_is_empty(after.model(), after.rendered());
    assert(before.pending_removals() + Seq::<WidgetAction>::empty() =~= before.pending_removals());
}

} // verus!

verus! {

/// Applying the closing of pages to a container whose widgets were in sync
/// with an unmodified model leaves the next render nothing to do but remove
/// the widgets of the closed pages, in model order.
///
/// `after` is the container after [`FactoryVecDeque::apply_external_updates`]
/// with `page_uids`, as its contract describes it.
pub proof fn lemma_closed_pages_render_only_removals<C, W>(
    before: FactoryVecDeque<C, W>,
    after: FactoryVecDeque<C, W>,
    page_uids: Seq<usize>,
)
    requires
        before.wf(),
        after.wf(),
        before.rendered() == before.model_uids(),
        forall|k: int| 0 <= k < before@.len() ==> !(#[trigger] before.changed_flags()[k]),
        after.model_uids() == retain_kept(
            before.model_uids(),
            present_flags(before.model_uids(), page_uids),
        ),
        after.changed_flags() == retain_kept(
            before.changed_flags(),
            present_flags(before.model_uids(), page_uids),
        ),
        after.rendered() == after.model_uids(),
        after.pending_removals() == before.pending_removals() + removal_actions(
            retain_kept(before.model_uids(), missing_flags(before.model_uids(), page_uids)),
        ),
    ensures
        after.pending_removals() + render_plan(after.model(), after.rendered())
            == before.pending_removals() + removal_actions(
            retain_kept(before.model_uids(), missing_flags(before.model_uids(), page_uids)),
        ),
{
    let unchanged = |b: bool| !b;
    assert forall|i: int| 0 <= i < before.changed_flags().len() implies unchanged(
        #[trigger] before.changed_flags()[i],
    ) by {}
    lemma_retain_all_satisfy(
        before.changed_flags(),
        present_flags(before.model_uids(), page_uids),
        unchanged,
    );
    assert forall|k: int| 0 <= k < after.model().len() implies !(#[trigger] after.model()[k].changed) by {
        assert(after.changed_flags()[k] == after.model()[k].changed);
        assert(unchanged(after.changed_flags()[k]));
    }
    lemma_in_sync_plan_is_empty(after.model(), after.rendered());
    assert(after.pending_removals() + Seq::<WidgetAction>::empty() =~= after.pending_removals());
}

} // verus!

verus! {

/// The bookkeeping of a well-formed container: one entry per element, no
/// identifier twice in the model or in the rendered state, and every
/// element's index is its position.
pub proof fn lemma_wf_facts<C, W>(d: FactoryVecDeque<C, W>)
    requires
        d.wf(),
    ensures
        d.model().len() == d@.len(),
        d.model_uids().no_duplicates(),
        d.rendered().no_duplicates(),
        forall|i: int| 0 <= i < d@.len() ==> #[trigger] d.index_value(i) == i,
{
}

/// A render puts every element's widget into the container once, in element
/// order: applying the plan of [`FactoryVecDeque::render_changes`] to the
/// attached widgets of the rendered elements still in the model gives the
/// identifiers of the model, in order.
pub proof fn lemma_render_orders_container<C, W>(d: FactoryVecDeque<C, W>)
    requires
        d.wf(),
    ensures
        apply_actions(attached(d.rendered(), d.model()), render_plan(d.model(), d.rendered()))
            == d.model_uids(),
        d.model_uids().no_duplicates(),
{
    lemma_render_orders_widgets(d.model(), d.rendered());
}

/// A render tells every modified element that already had a widget that its
/// model changed, at its position, whether its widget stays or moves: the
/// plan of [`FactoryVecDeque::render_changes`] holds its notification.
pub proof fn lemma_render_notifies_changed<C, W>(d: FactoryVecDeque<C, W>, i: int)
    requires
        d.wf(),
        0 <= i < d@.len(),
        d.changed_flags()[i],
        d.rendered().contains(d.model_uids()[i]),
    ensures
        render_plan(d.model(), d.rendered()).contains(
            WidgetAction::Notify { uid: d.model_uids()[i], index: i as usize },
        ),
{
    lemma_plan_notifies_changed(d.model(), d.rendered(), i);
}

/// Where the element at `p` ends after the element at `from` moved to `to`.
pub open spec fn moved_position(p: int, from: int, to: int) -> int {
    if p == from {
        to
    } else if from < p && p <= to {
        p - 1
    } else if to <= p && p < from {
        p + 1
    } else {
        p
    }
}

/// The last value a container wrote into an element's index slot is the
/// element's position, so a handle sharing that slot names the position.
pub proof fn lemma_slot_holds_position<C, W>(d: FactoryVecDeque<C, W>, h: DynamicIndex, i: int)
    requires
        d.wf(),
        0 <= i < d@.len(),
        h.slot() == d.slots()[i],
    ensures
        d.slots().len() == d@.len(),
        d.index_value(i) == i,
{
}

/// Moving an element carries every element's index along: after
/// [`FactoryVecDeque::move_to`] the element that was at `p` sits at
/// `moved_position(p, from, to)` with the slot its handles share, and the
/// container wrote that new position into the slot.
pub proof fn lemma_move_carries_indices<C, W>(
    before: FactoryVecDeque<C, W>,
    after: FactoryVecDeque<C, W>,
    from: int,
    to: int,
    p: int,
)
    requires
        before.wf(),
        after.wf(),
        0 <= from < before@.len(),
        0 <= to < before@.len(),
        0 <= p < before@.len(),
        after@ == before@.remove(from).insert(to, before@[from]),
        after.slots() == before.slots().remove(from).insert(to, before.slots()[from]),
    ensures
        0 <= moved_position(p, from, to) < after@.len(),
        after@[moved_position(p, from, to)] == before@[p],
        after.slots()[moved_position(p, from, to)] == before.slots()[p],
        after.index_value(moved_position(p, from, to)) == moved_position(p, from, to),
{
    let q = moved_position(p, from, to);
    let r = before@.remove(from);
    let rs = before.slots().remove(from);
    if p != from {
        let p0 = if p < from { p } else { p - 1 };
        assert(r[p0] == before@[p]);
        assert(rs[p0] == before.slots()[p]);
        if p0 < to {
            assert(q == p0);
        } else {
            assert(q == p0 + 1);
        }
    }
}

/// Swapping two elements carries their indices along: after
/// [`FactoryVecDeque::swap`] each of the two sits at the other's old
/// position with the slot its handles share, and the container wrote that
/// new position into the slot.
pub proof fn lemma_swap_carries_indices<C, W>(
    before: FactoryVecDeque<C, W>,
    after: FactoryVecDeque<C, W>,
    first: int,
    second: int,
)
    requires
        before.wf(),
        after.wf(),
        0 <= first < before@.len(),
        0 <= second < before@.len(),
        after@ == before@.update(first, before@[second]).update(second, before@[first]),
        after.slots() == before.slots().update(first, before.slots()[second]).update(
            second,
            before.slots()[first],
        ),
    ensures
        after@[second] == before@[first],
        after.slots()[second] == before.slots()[first],
        after.index_value(second) == second,
        after@[first] == before@[second],
        after.slots()[first] == before.slots()[second],
        after.index_value(first) == first,
{
}

} // verus!
