//! A keyed container of factory components and its builder.
use crate::channel::ChannelReceiver;
use crate::channel::ChannelSender;
use crate::channel::channel;
use crate::factory::sync::traits::FactoryComponent;
use core::marker::PhantomData;
use std::collections::HashMap;
use std::collections::hash_map::RandomState;
use std::hash::BuildHasher;
use std::hash::Hash;
use vstd::prelude::*;
use vstd::std_specs::hash::builds_valid_hashers;
use vstd::std_specs::hash::obeys_key_model;
use vstd::std_specs::hash::into_iter;
use vstd::std_specs::hash::into_iter_values;
use vstd::std_specs::hash::spec_hash_map_iter;
use vstd::std_specs::iter::IteratorSpec;

verus! {

broadcast use vstd::std_specs::hash::group_hash_axioms;

/// Calls `RandomState::new`, which makes a hash builder with random keys.
/// Nothing is claimed of it.
#[verifier::external_body]
fn new_random_state() -> RandomState {
    RandomState::new()
}

/// Calls `HashMap::with_hasher`, which creates an empty map that hashes
/// with `hasher`.  Claims that the map holds no key.
#[verifier::external_body]
fn hash_map_with_hasher<K, V, S>(hasher: S) -> (r: HashMap<K, V, S>)
    ensures
        r@.dom().is_empty(),
{
    HashMap::with_hasher(hasher)
}

/// Calls `HashMap::get_mut`, which gives mutable access to the value of
/// `key`.  Claims, for keys and hashers that follow the hash table model,
/// that the result is the value of `key` when the map holds it, [`None`]
/// otherwise, and that writing through the result updates that entry only.
#[verifier::external_body]
fn hash_map_get_mut<'a, K: Eq + Hash, V, S: BuildHasher>(m: &'a mut HashMap<K, V, S>, key: &K) -> (r:
    Option<&'a mut V>)
    ensures
        obeys_key_model::<K>() && builds_valid_hashers::<S>() ==> match r {
            Some(v) => old(m)@.contains_key(*key) && *v == old(m)@[*key] && final(m)@ == old(
                m,
            )@.insert(*key, *final(v)),
            None => !old(m)@.contains_key(*key) && final(m)@ == old(m)@,
        },
{
    m.get_mut(key)
}

/// Advances `iter` by one item.
fn next_item<I: Iterator>(iter: &mut I) -> (r: Option<I::Item>)
    ensures
        (*old(iter)).obeys_prophetic_iter_laws() ==> if (*old(iter)).remaining().len() > 0 {
            &&& (*final(iter)).remaining() == (*old(iter)).remaining().drop_first()
            &&& r == Some((*old(iter)).remaining()[0])
        } else {
            &&& (*final(iter)).remaining() == (*old(iter)).remaining()
            &&& r is None
        },
{
    iter.next()
}

/// A builder for a [`FactoryHashMap`].
#[verifier::reject_recursive_types(K)]
pub struct FactoryHashMapBuilder<K, C: FactoryComponent, S = RandomState> {
    hasher: S,
    _component: PhantomData<C>,
    _key: PhantomData<K>,
}

impl<K, C: FactoryComponent, S> FactoryHashMapBuilder<K, C, S> {
    /// The hash builder the map will use.
    pub closed spec fn hasher_value(&self) -> S {
        self.hasher
    }
}

impl<K, C: FactoryComponent> FactoryHashMapBuilder<K, C> {
    /// Creates a builder that hashes with a [`RandomState`].
    pub fn new() -> Self {
        FactoryHashMapBuilder { hasher: new_random_state(), _component: PhantomData, _key: PhantomData }
    }
}

impl<K, C: FactoryComponent, S> FactoryHashMapBuilder<K, C, S> {
    /// Sets a different hash builder.
    pub fn hasher<H>(self, hasher: H) -> (r: FactoryHashMapBuilder<K, C, H>)
        ensures
            r.hasher_value() == hasher,
    {
        FactoryHashMapBuilder { hasher, _component: PhantomData, _key: PhantomData }
    }

    /// Launches the factory: attaches it to `widget` and creates the channel
    /// of the outputs of its components.
    pub fn launch(self, widget: C::ParentWidget) -> (r: FactoryHashMapConnector<K, C, S>)
        ensures
            r.widget_value() == widget,
            r.hasher_value() == self.hasher_value(),
    {
        let (output_sender, output_receiver) = channel();
        FactoryHashMapConnector {
            widget,
            output_sender,
            output_receiver,
            hasher: self.hasher,
            _key: PhantomData,
        }
    }
}

impl<K, C: FactoryComponent, S> FactoryHashMapBuilder<K, C, S> where C::ParentWidget: Default {
    /// Launches the factory with a default parent widget.
    pub fn launch_default(self) -> (r: FactoryHashMapConnector<K, C, S>)
        ensures
            call_ensures(C::ParentWidget::default, (), r.widget_value()),
            r.hasher_value() == self.hasher_value(),
    {
        self.launch(C::ParentWidget::default())
    }
}

/// The second stage of building a [`FactoryHashMap`].
#[verifier::reject_recursive_types(K)]
pub struct FactoryHashMapConnector<K, C: FactoryComponent, S = RandomState> {
    widget: C::ParentWidget,
    output_sender: ChannelSender<C::Output>,
    output_receiver: ChannelReceiver<C::Output>,
    hasher: S,
    _key: PhantomData<K>,
}

impl<K, C: FactoryComponent, S> FactoryHashMapConnector<K, C, S> {
    /// The receiver of the connector is the receiving end of the outputs'
    /// channel.
    #[verifier::type_invariant]
    spec fn outputs_paired(&self) -> bool {
        self.output_receiver.sender_end() == self.output_sender
    }

    /// The widget the components will be attached to.
    pub closed spec fn widget_value(&self) -> C::ParentWidget {
        self.widget
    }

    /// The hash builder the map will use.
    pub closed spec fn hasher_value(&self) -> S {
        self.hasher
    }

    /// The sender the components send their outputs through.
    pub closed spec fn output_channel(&self) -> ChannelSender<C::Output> {
        self.output_sender
    }

    /// Ignores the outputs of the components and finishes the builder.
    pub fn detach(self) -> (r: FactoryHashMap<K, C, S>)
        ensures
            r@ == Map::<K, C>::empty(),
            r.uid_of() == Map::<K, usize>::empty(),
            r.widget_actions() == Seq::<MapWidgetAction>::empty(),
            r.next_uid() == 1,
            r.widget_value() == self.widget_value(),
            r.output_channel() == self.output_channel(),
    {
        let inner: HashMap<K, (usize, C), S> = hash_map_with_hasher(self.hasher);
        let map = FactoryHashMap {
            widget: self.widget,
            output_sender: self.output_sender,
            inner,
            actions: Vec::new(),
            uid_counter: 1,
        };
        assert(map@ =~= Map::<K, C>::empty());
        assert(map.uid_of() =~= Map::<K, usize>::empty());
        map
    }

    /// Finishes the builder and hands out the receiver of the outputs of the
    /// components, for a task that forwards them: it is the receiving end of
    /// the channel the map's components send their outputs through.
    pub fn detach_with_receiver(self) -> (r: (FactoryHashMap<K, C, S>, ChannelReceiver<C::Output>))
        ensures
            r.1.sender_end() == r.0.output_channel(),
            r.0@ == Map::<K, C>::empty(),
            r.0.uid_of() == Map::<K, usize>::empty(),
            r.0.widget_actions() == Seq::<MapWidgetAction>::empty(),
            r.0.next_uid() == 1,
            r.0.widget_value() == self.widget_value(),
            r.0.output_channel() == self.output_channel(),
    {
        proof {
            use_type_invariant(&self);
        }
        let inner: HashMap<K, (usize, C), S> = hash_map_with_hasher(self.hasher);
        let map = FactoryHashMap {
            widget: self.widget,
            output_sender: self.output_sender,
            inner,
            actions: Vec::new(),
            uid_counter: 1,
        };
        assert(map@ =~= Map::<K, C>::empty());
        assert(map.uid_of() =~= Map::<K, usize>::empty());
        (map, self.output_receiver)
    }
}

/// A change of the container widget that a [`FactoryHashMap`] owes after an
/// edit of its models.  Each element carries a unique identifier.
#[derive(Clone, Copy, Debug, PartialEq, Eq, Structural)]
pub enum MapWidgetAction {
    /// Launch the element and append its widget to the container.
    Append { uid: usize },
    /// Detach the widget of the element from the container.
    Remove { uid: usize },
}

/// The removals of the elements with the identifiers `uids`, in order.
pub open spec fn map_removals(uids: Seq<usize>) -> Seq<MapWidgetAction> {
    uids.map_values(|u: usize| MapWidgetAction::Remove { uid: u })
}

/// A container similar to a hash map that stores the models of factory
/// components by key.
///
/// Edits change the models at once and record the widget operations they
/// owe; [`FactoryHashMap::take_widget_actions`] hands those out in order.
#[verifier::reject_recursive_types(K)]
#[verifier::reject_recursive_types(C)]
#[verifier::reject_recursive_types(S)]
pub struct FactoryHashMap<K, C: FactoryComponent, S = RandomState> {
    widget: C::ParentWidget,
    output_sender: ChannelSender<C::Output>,
    inner: HashMap<K, (usize, C), S>,
    actions: Vec<MapWidgetAction>,
    uid_counter: usize,
}

impl<K, C: FactoryComponent, S> View for FactoryHashMap<K, C, S> {
    type V = Map<K, C>;

    closed spec fn view(&self) -> Map<K, C> {
        self.inner@.map_values(|e: (usize, C)| e.1)
    }
}

impl<K, C: FactoryComponent, S> FactoryHashMap<K, C, S> {
    /// The widget the components are attached to.
    pub closed spec fn widget_value(&self) -> C::ParentWidget {
        self.widget
    }

    /// The sender the components send their outputs through.
    pub closed spec fn output_channel(&self) -> ChannelSender<C::Output> {
        self.output_sender
    }

    /// The identifier of the element stored at each key.
    pub closed spec fn uid_of(&self) -> Map<K, usize> {
        self.inner@.map_values(|e: (usize, C)| e.0)
    }

    /// The widget operations recorded since they were last taken.
    pub closed spec fn widget_actions(&self) -> Seq<MapWidgetAction> {
        self.actions@
    }

    /// The identifier the next inserted element receives.
    pub closed spec fn next_uid(&self) -> usize {
        self.uid_counter
    }

    /// Returns the number of elements.
    pub fn len(&self) -> (r: usize)
        ensures
            obeys_key_model::<K>() && builds_valid_hashers::<S>() ==> r == self@.len(),
    {
        assert(self@.dom() =~= self.inner@.dom());
        self.inner.len()
    }

    /// Whether another element can still be given a fresh identifier, as
    /// inserting requires.
    pub fn has_free_uid(&self) -> (r: bool)
        ensures
            r == (self.next_uid() < usize::MAX),
    {
        self.uid_counter < usize::MAX
    }

    /// Returns true if there are no elements.
    pub fn is_empty(&self) -> (r: bool)
        ensures
            r == self@.is_empty(),
    {
        assert(self@.dom() =~= self.inner@.dom());
        self.inner.is_empty()
    }

    /// Returns the widget all components are attached to.
    pub fn widget(&self) -> (r: &C::ParentWidget)
        ensures
            *r == self.widget_value(),
    {
        &self.widget
    }

    /// Hands out the widget operations recorded so far, oldest first, and
    /// forgets them.
    pub fn take_widget_actions(&mut self) -> (r: Vec<MapWidgetAction>)
        ensures
            r@ == old(self).widget_actions(),
            final(self).widget_actions() == Seq::<MapWidgetAction>::empty(),
            final(self)@ == old(self)@,
            final(self).uid_of() == old(self).uid_of(),
            final(self).next_uid() == old(self).next_uid(),
            final(self).widget_value() == old(self).widget_value(),
            final(self).output_channel() == old(self).output_channel(),
    {
        let mut out: Vec<MapWidgetAction> = Vec::new();
        core::mem::swap(&mut out, &mut self.actions);
        out
    }

    /// Removes every component; the widget of each is scheduled for removal.
    pub fn clear(&mut self)
        ensures
            final(self)@ == Map::<K, C>::empty(),
            final(self).uid_of() == Map::<K, usize>::empty(),
            final(self).next_uid() == old(self).next_uid(),
            final(self).widget_value() == old(self).widget_value(),
            final(self).output_channel() == old(self).output_channel(),
            obeys_key_model::<K>() && builds_valid_hashers::<S>() ==> exists|removed: Seq<usize>|
                {
                    &&& final(self).widget_actions() == old(self).widget_actions() + map_removals(
                        removed,
                    )
                    &&& removed.len() == old(self)@.len()
                    &&& removed.to_set() == old(self).uid_of().values()
                },
    {
        let n = self.inner.len();
        let mut removed: Vec<usize> = Vec::new();
        let ghost model = obeys_key_model::<K>() && builds_valid_hashers::<S>();
        let ghost init: Seq<(usize, C)>;
        {
            let mut iter = self.inner.values();
            proof {
                init = into_iter_values(iter);
            }
            assert(model ==> init.to_set() == self.inner@.values() && init.len() == n);
            assert(model ==> forall|j: int|
                0 <= j < iter.remaining().len() ==> *(#[trigger] iter.remaining()[j]) == init[j]) by {
                if model {
                    assert forall|j: int| 0 <= j < iter.remaining().len() implies *(
                    #[trigger] iter.remaining()[j]) == init[j] by {
                        assert(iter.remaining().unref()[j] == *iter.remaining()[j]);
                    }
                }
            }
            let mut i: usize = 0;
            while i < n
                invariant
                    i <= n,
                    model ==> init.len() == n,
                    model ==> iter.remaining().len() == init.len() - removed@.len(),
                    model ==> forall|j: int|
                        0 <= j < iter.remaining().len() ==> *(#[trigger] iter.remaining()[j])
                            == init[removed@.len() + j],
                    model ==> removed@.len() == i,
                    model ==> forall|j: int|
                        0 <= j < removed@.len() ==> removed@[j] == (#[trigger] init[j]).0,
                decreases n - i,
            {
                match next_item(&mut iter) {
                    Some(e) => {
                        removed.push(e.0);
                    },
                    None => {},
                }
                i = i + 1;
            }
        }
        self.inner.clear();
        let ghost pushed = removed@;
        let mut k: usize = 0;
        while k < removed.len()
            invariant
                k <= removed@.len(),
                removed@ == pushed,
                self.actions@ == old(self).actions@ + map_removals(pushed.take(k as int)),
                self.inner@ == Map::<K, (usize, C)>::empty(),
                self.uid_counter == old(self).uid_counter,
                self.widget == old(self).widget,
                self.output_sender == old(self).output_sender,
            decreases removed@.len() - k,
        {
            let uid = removed[k];
            self.actions.push(MapWidgetAction::Remove { uid });
            assert(map_removals(pushed.take(k as int + 1)) =~= map_removals(pushed.take(k as int)).push(
                MapWidgetAction::Remove { uid },
            ));
            k = k + 1;
        }
        assert(pushed.take(k as int) =~= pushed);
        assert(self@ =~= Map::<K, C>::empty());
        assert(self.uid_of() =~= Map::<K, usize>::empty());
        proof {
            if obeys_key_model::<K>() && builds_valid_hashers::<S>() {
                let m0 = old(self).inner@;
                let vals = init;
                assert(pushed.len() == m0.dom().len());
                assert(old(self)@.dom() =~= m0.dom());
                assert forall|u: usize| pushed.to_set().contains(u) implies old(
                    self,
                ).uid_of().values().contains(u) by {
                    assert(pushed.contains(u));
                    let j = choose|j: int| 0 <= j < pushed.len() && pushed[j] == u;
                    assert(pushed[j] == vals[j].0);
                    assert(vals.contains(vals[j]));
                    assert(vals.to_set().contains(vals[j]));
                    assert(m0.values().contains(vals[j]));
                    let key = choose|key: K| m0.contains_key(key) && m0[key] == vals[j];
                    assert(old(self).uid_of().contains_key(key));
                    assert(old(self).uid_of()[key] == u);
                }
                assert forall|u: usize| old(self).uid_of().values().contains(u) implies pushed.to_set().contains(
                    u,
                ) by {
                    let key = choose|key: K| old(self).uid_of().contains_key(key) && old(
                        self,
                    ).uid_of()[key] == u;
                    assert(m0.values().contains(m0[key]));
                    assert(vals.to_set().contains(m0[key]));
                    assert(vals.contains(m0[key]));
                    let j = choose|j: int| 0 <= j < vals.len() && vals[j] == m0[key];
                    assert(pushed[j] == u);
                }
                assert(pushed.to_set() =~= old(self).uid_of().values());
            }
        }
    }
}

impl<K, C: FactoryComponent> FactoryHashMap<K, C, RandomState> {
    /// Creates a builder.
    pub fn builder() -> FactoryHashMapBuilder<K, C> {
        FactoryHashMapBuilder::new()
    }
}

/// The map that inserting `pairs` in order into an empty map gives: a later
/// pair replaces an earlier one with the same key.
pub open spec fn map_of<K, C>(pairs: Seq<(K, C)>) -> Map<K, C>
    decreases pairs.len(),
{
    if pairs.len() == 0 {
        Map::empty()
    } else {
        map_of(pairs.drop_last()).insert(pairs.last().0, pairs.last().1)
    }
}

impl<K: Eq + Hash, C: FactoryComponent> FactoryHashMap<K, C, RandomState> {
    /// Creates a map from key-component pairs, inserted in order, attached
    /// to `widget`.
    pub fn from_vec(component_vec: Vec<(K, C)>, widget: C::ParentWidget) -> (r: Self)
        requires
            component_vec@.len() < usize::MAX,
        ensures
            r.next_uid() == component_vec@.len() + 1,
            r.widget_value() == widget,
            obeys_key_model::<K>() ==> r@ == map_of(component_vec@),
    {
        let ghost pairs = component_vec@;
        let mut output = Self::builder().launch(widget).detach();
        let mut rest = component_vec;
        let mut i: usize = 0;
        assert(pairs.len() == rest.len());
        while rest.len() > 0
            invariant
                i + rest@.len() == pairs.len(),
                pairs.len() < usize::MAX,
                rest@ == pairs.skip(i as int),
                output.widget_value() == widget,
                output.next_uid() == i + 1,
                obeys_key_model::<K>() ==> output@ == map_of(pairs.take(i as int)),
            decreases rest@.len(),
        {
            let (key, component) = rest.remove(0);
            let ghost prefix = pairs.take(i as int + 1);
            assert(prefix.drop_last() =~= pairs.take(i as int));
            assert(prefix.last() == (key, component));
            let _ = output.insert(key, component);
            i = i + 1;
            assert(rest@ =~= pairs.skip(i as int));
        }
        assert(pairs.take(i as int) =~= pairs);
        output
    }
}

impl<K: Eq + Hash, C: FactoryComponent, S: BuildHasher> FactoryHashMap<K, C, S> {
    /// The model of the component at `key`, if there is one.
    pub fn get(&self, key: &K) -> (r: Option<&C>)
        ensures
            obeys_key_model::<K>() && builds_valid_hashers::<S>() ==> match r {
                Some(c) => self@.contains_key(*key) && *c == self@[*key],
                None => !self@.contains_key(*key),
            },
    {
        match self.inner.get(key) {
            Some(e) => Some(&e.1),
            None => None,
        }
    }

    /// The keys with the models of their components, each entry once, in
    /// the order the map walks them.
    pub fn iter(&self) -> (r: Vec<(&K, &C)>)
        ensures
            obeys_key_model::<K>() && builds_valid_hashers::<S>() ==> {
                &&& r@.len() == self@.len()
                &&& forall|i: int|
                    0 <= i < r@.len() ==> self@.contains_key(*(#[trigger] r@[i]).0) && *r@[i].1
                        == self@[*r@[i].0]
                &&& forall|k: K| #[trigger]
                    self@.contains_key(k) ==> exists|i: int| 0 <= i < r@.len() && *r@[i].0 == k
            },
    {
        let n = self.inner.len();
        let mut out: Vec<(&K, &C)> = Vec::new();
        let ghost model = obeys_key_model::<K>() && builds_valid_hashers::<S>();
        let mut iter = self.inner.iter();
        let ghost init = into_iter(iter);
        assert(model ==> forall|j: int|
            0 <= j < iter.remaining().len() ==> (*(#[trigger] iter.remaining()[j]).0, *iter.remaining()[j].1)
                == init[j]) by {
            if model {
                assert forall|j: int| 0 <= j < iter.remaining().len() implies (*(
                #[trigger] iter.remaining()[j]).0, *iter.remaining()[j].1) == init[j] by {
                    assert(iter.remaining().unref()[j] == (*iter.remaining()[j].0, *iter.remaining()[j].1));
                }
            }
        }
        let mut i: usize = 0;
        while i < n
            invariant
                i <= n,
                model ==> init.len() == n,
                model ==> iter.remaining().len() == init.len() - out@.len(),
                model ==> forall|j: int|
                    0 <= j < iter.remaining().len() ==> (*(#[trigger] iter.remaining()[j]).0, *iter.remaining()[j].1)
                        == init[out@.len() + j],
                model ==> out@.len() == i,
                model ==> forall|j: int|
                    0 <= j < out@.len() ==> *(#[trigger] out@[j]).0 == init[j].0 && *out@[j].1
                        == init[j].1.1,
            decreases n - i,
        {
            match next_item(&mut iter) {
                Some(entry) => {
                    out.push((entry.0, &entry.1.1));
                },
                None => {},
            }
            i = i + 1;
        }
        proof {
            if model {
                let m = self.inner@;
                let v = spec_hash_map_iter(&self.inner).remaining();
                assert(init.len() == v.len());
                assert forall|j: int| 0 <= j < v.len() implies init[j] == (*v[j].0, *v[j].1) by {
                    assert(v.unref()[j] == (*v[j].0, *v[j].1));
                }
                assert(self@.dom() =~= m.dom());
                assert forall|j: int| 0 <= j < out@.len() implies self@.contains_key(*(
                #[trigger] out@[j]).0) && *out@[j].1 == self@[*out@[j].0] by {
                    assert(m.contains_key(*v[j].0) && m[*v[j].0] == *v[j].1);
                }
                assert forall|k: K| #[trigger] self@.contains_key(k) implies exists|j: int|
                    0 <= j < out@.len() && *out@[j].0 == k by {
                    assert(m.contains_key(k));
                    assert(v.contains((&k, &m[k])));
                    let j = choose|j: int| 0 <= j < v.len() && v[j] == (&k, &m[k]);
                    assert(*out@[j].0 == k);
                }
            }
        }
        out
    }

    /// The models of the components, each entry once, in the order the map
    /// walks them.
    pub fn values(&self) -> (r: Vec<&C>)
        ensures
            obeys_key_model::<K>() && builds_valid_hashers::<S>() ==> r@.len() == self@.len(),
            obeys_key_model::<K>() && builds_valid_hashers::<S>() ==> forall|i: int|
                0 <= i < r@.len() ==> self@.values().contains(*#[trigger] r@[i]),
            obeys_key_model::<K>() && builds_valid_hashers::<S>() ==> forall|k: K| #[trigger]
                self@.contains_key(k) ==> exists|i: int| 0 <= i < r@.len() && *r@[i] == self@[k],
    {
        let entries = self.iter();
        let mut out: Vec<&C> = Vec::new();
        let mut i: usize = 0;
        while i < entries.len()
            invariant
                i <= entries@.len(),
                out@.len() == i,
                forall|j: int| 0 <= j < i ==> out@[j] == (#[trigger] entries@[j]).1,
            decreases entries@.len() - i,
        {
            out.push(entries[i].1);
            i = i + 1;
        }
        proof {
            if obeys_key_model::<K>() && builds_valid_hashers::<S>() {
                assert forall|j: int| 0 <= j < out@.len() implies self@.values().contains(
                    *#[trigger] out@[j],
                ) by {
                    let k = *entries@[j].0;
                    assert(self@.contains_key(k));
                    assert(*out@[j] == self@[k]);
                }
                assert forall|k: K| #[trigger] self@.contains_key(k) implies exists|j: int|
                    0 <= j < out@.len() && *out@[j] == self@[k] by {
                    let j = choose|j: int| 0 <= j < entries@.len() && *entries@[j].0 == k;
                    assert(out@[j] == entries@[j].1);
                    assert(*out@[j] == self@[k]);
                }
                assert(out@.len() == self@.len());
            }
        }
        out
    }

    /// The identifier of the element at `key`, if there is one.
    pub fn uid(&self, key: &K) -> (r: Option<usize>)
        ensures
            obeys_key_model::<K>() && builds_valid_hashers::<S>() ==> match r {
                Some(u) => self.uid_of().contains_key(*key) && u == self.uid_of()[*key],
                None => !self.uid_of().contains_key(*key),
            },
    {
        match self.inner.get(key) {
            Some(e) => Some(e.0),
            None => None,
        }
    }

    /// Mutable access to the model of the component at `key`, if there is one.
    pub fn get_mut(&mut self, key: &K) -> (r: Option<&mut C>)
        ensures
            final(self).widget_value() == old(self).widget_value(),
            final(self).output_channel() == old(self).output_channel(),
            final(self).widget_actions() == old(self).widget_actions(),
            final(self).next_uid() == old(self).next_uid(),
            obeys_key_model::<K>() && builds_valid_hashers::<S>() ==> {
                &&& final(self).uid_of() == old(self).uid_of()
                &&& match r {
                    Some(c) => old(self)@.contains_key(*key) && *c == old(self)@[*key]
                        && final(self)@ == old(self)@.insert(*key, *final(c)),
                    None => !old(self)@.contains_key(*key) && final(self)@ == old(self)@,
                }
            },
    {
        match hash_map_get_mut(&mut self.inner, key) {
            Some(e) => Some(&mut e.1),
            None => None,
        }
    }

    /// Inserts a component and schedules the launch of its widget.  The
    /// component that was stored at the key before, if any, is returned and
    /// its widget is scheduled for removal first.
    pub fn insert(&mut self, key: K, component: C) -> (r: Option<C>)
        requires
            old(self).next_uid() < usize::MAX,
        ensures
            final(self).widget_value() == old(self).widget_value(),
            final(self).output_channel() == old(self).output_channel(),
            final(self).next_uid() == old(self).next_uid() + 1,
            obeys_key_model::<K>() && builds_valid_hashers::<S>() ==> {
                &&& final(self)@ == old(self)@.insert(key, component)
                &&& final(self).uid_of() == old(self).uid_of().insert(key, old(self).next_uid())
                &&& final(self).widget_actions() == (if old(self)@.contains_key(key) {
                    old(self).widget_actions().push(
                        MapWidgetAction::Remove { uid: old(self).uid_of()[key] },
                    )
                } else {
                    old(self).widget_actions()
                }).push(MapWidgetAction::Append { uid: old(self).next_uid() })
                &&& match r {
                    Some(c) => old(self)@.contains_key(key) && c == old(self)@[key],
                    None => !old(self)@.contains_key(key),
                }
            },
    {
        let existing = self.remove(&key);
        let uid = self.uid_counter;
        self.uid_counter = uid + 1;
        self.actions.push(MapWidgetAction::Append { uid });
        let ghost mid = self.inner@;
        let ghost mid_view = self@;
        let ghost mid_uid = self.uid_of();
        let _ = self.inner.insert(key, (uid, component));
        proof {
            if obeys_key_model::<K>() && builds_valid_hashers::<S>() {
                let target = old(self)@.insert(key, component);
                let target_uid = old(self).uid_of().insert(key, uid);
                // Every key other than `key` keeps its entry through the removal
                // and the insertion.
                assert forall|k: K| k != key implies {
                    &&& #[trigger] self.inner@.contains_key(k) == mid.contains_key(k)
                    &&& mid_view.contains_key(k) == old(self)@.contains_key(k)
                    &&& mid_uid.contains_key(k) == old(self).uid_of().contains_key(k)
                    &&& mid.contains_key(k) ==> {
                        &&& self.inner@[k] == mid[k]
                        &&& mid_view[k] == mid[k].1 && mid_view[k] == old(self)@[k]
                        &&& mid_uid[k] == mid[k].0 && mid_uid[k] == old(self).uid_of()[k]
                    }
                } by {
                    assert(old(self)@.remove(key).contains_key(k) == old(self)@.contains_key(k));
                    assert(old(self).uid_of().remove(key).contains_key(k) == old(
                        self,
                    ).uid_of().contains_key(k));
                    if mid.contains_key(k) {
                        assert(old(self)@.remove(key)[k] == old(self)@[k]);
                        assert(old(self).uid_of().remove(key)[k] == old(self).uid_of()[k]);
                    }
                }
                assert forall|k: K| #[trigger] self@.contains_key(k) == target.contains_key(k) by {
                    if k != key {
                        assert(self.inner@.contains_key(k) == mid.contains_key(k));
                    }
                }
                assert forall|k: K| #[trigger] self@.contains_key(k) implies self@[k] == target[k] by {
                    if k != key {
                        assert(self.inner@.contains_key(k) == mid.contains_key(k));
                    }
                }
                assert(self@ =~= target);
                assert forall|k: K| #[trigger] self.uid_of().contains_key(k) == target_uid.contains_key(k) by {
                    if k != key {
                        assert(self.inner@.contains_key(k) == mid.contains_key(k));
                    }
                }
                assert forall|k: K| #[trigger] self.uid_of().contains_key(k) implies self.uid_of()[k] == target_uid[k] by {
                    if k != key {
                        assert(self.inner@.contains_key(k) == mid.contains_key(k));
                    }
                }
                assert(self.uid_of() =~= target_uid);
            }
        }
        existing
    }

    /// Removes the component at `key`, returning it if there was one; its
    /// widget is scheduled for removal.
    pub fn remove(&mut self, key: &K) -> (r: Option<C>)
        ensures
            final(self).widget_value() == old(self).widget_value(),
            final(self).output_channel() == old(self).output_channel(),
            final(self).next_uid() == old(self).next_uid(),
            obeys_key_model::<K>() && builds_valid_hashers::<S>() ==> {
                &&& final(self)@ == old(self)@.remove(*key)
                &&& final(self).uid_of() == old(self).uid_of().remove(*key)
                &&& final(self).widget_actions() == if old(self)@.contains_key(*key) {
                    old(self).widget_actions().push(
                        MapWidgetAction::Remove { uid: old(self).uid_of()[*key] },
                    )
                } else {
                    old(self).widget_actions()
                }
                &&& match r {
                    Some(c) => old(self)@.contains_key(*key) && c == old(self)@[*key],
                    None => !old(self)@.contains_key(*key),
                }
            },
    {
        match self.inner.remove(key) {
            Some(e) => {
                self.actions.push(MapWidgetAction::Remove { uid: e.0 });
                proof {
                    if obeys_key_model::<K>() && builds_valid_hashers::<S>() {
                        assert(self@ =~= old(self)@.remove(*key));
                        assert(self.uid_of() =~= old(self).uid_of().remove(*key));
                    }
                }
                Some(e.1)
            },
            None => {
                proof {
                    if obeys_key_model::<K>() && builds_valid_hashers::<S>() {
                        assert(self@ =~= old(self)@.remove(*key));
                        assert(self.uid_of() =~= old(self).uid_of().remove(*key));
                    }
                }
                None
            },
        }
    }
}

} // verus!

verus! {

/// What [`FactoryHashMap::get`] gives for a key after
/// [`FactoryHashMap::insert`] put a component there is that component;
/// the other keys keep their components.
pub proof fn lemma_get_after_insert<K, C>(m: Map<K, C>, key: K, component: C, other: K)
    requires
        other != key,
    ensures
        m.insert(key, component).contains_key(key),
        m.insert(key, component)[key] == component,
        m.insert(key, component).contains_key(other) == m.contains_key(other),
        m.contains_key(other) ==> m.insert(key, component)[other] == m[other],
{
}

/// Removing the key of a component that [`FactoryHashMap::insert`] added
/// under a new key restores the map.
pub proof fn lemma_remove_undoes_insert<K, C>(m: Map<K, C>, key: K, component: C)
    requires
        !m.contains_key(key),
    ensures
        m.insert(key, component).remove(key) == m,
{
    assert(m.insert(key, component).remove(key) =~= m);
}

} // verus!
