//! The filtered store shared by the typed views.
use vstd::prelude::*;

verus! {

broadcast use vstd::seq_lib::group_seq_properties, vstd::seq_lib::group_filter_ensures;

/// A predicate on the items of a typed view, used to filter and to find items.
pub trait ItemFilter<T> {
    /// Whether the predicate holds of `item`.
    spec fn spec_keeps(&self, item: &T) -> bool;

    /// Evaluates the predicate.
    fn keeps(&self, item: &T) -> (r: bool)
        ensures
            r == self.spec_keeps(item),
    ;
}

/// An order on the items of a typed view, used to insert items in sorted position.
pub trait ItemOrder<T> {
    /// Whether `a` must come strictly before `b`.
    spec fn spec_before(&self, a: &T, b: &T) -> bool;

    /// Evaluates the order.
    fn before(&self, a: &T, b: &T) -> (r: bool)
        ensures
            r == self.spec_before(a, b),
    ;
}

/// One filter of the stack, with whether it is currently applied.
pub struct Filter<F> {
    filter: F,
    active: bool,
}

/// A reference to an item of a typed view.
pub struct TypedListItem<'a, T> {
    inner: &'a T,
}

impl<'a, T> TypedListItem<'a, T> {
    /// The referenced item.
    pub closed spec fn value(&self) -> T {
        *self.inner
    }

    /// Wraps a reference to an item.
    pub fn new(inner: &'a T) -> (r: Self)
        ensures
            r.value() == *inner,
    {
        TypedListItem { inner }
    }

    /// Immutably borrows the item.
    pub fn borrow(&self) -> (r: &T)
        ensures
            *r == self.value(),
    {
        self.inner
    }
}

/// The items of a typed view together with its stack of filters.
///
/// Every filter of the stack has the type `F`; a stack of different closures
/// uses a type that boxes them.
pub struct FilteredStore<T, F> {
    store: Vec<T>,
    filters: Vec<Filter<F>>,
}

/// Filtering by a predicate that holds of every element changes nothing.
pub proof fn lemma_filter_all<T>(s: Seq<T>, p: spec_fn(T) -> bool)
    requires
        forall|k: int| 0 <= k < s.len() ==> p(#[trigger] s[k]),
    ensures
        s.filter(p) == s,
    decreases s.len(),
{
    reveal(Seq::filter);
    if s.len() > 0 {
        lemma_filter_all(s.drop_last(), p);
        assert(s.drop_last().push(s.last()) =~= s);
    }
}

/// The first index from which `pred` holds, or `None`.
pub open spec fn first_match<T>(s: Seq<T>, pred: spec_fn(T) -> bool) -> Option<int> {
    if exists|j: int| 0 <= j < s.len() && pred(s[j]) {
        Some(choose|j: int| 0 <= j < s.len() && pred(s[j]) && forall|k: int| 0 <= k < j ==> !pred(s[k]))
    } else {
        None
    }
}

/// The position at which an item is inserted into an ordered sequence: after
/// every item that it does not come strictly before.
pub open spec fn sorted_position<T, O: ItemOrder<T>>(s: Seq<T>, order: O, value: T) -> int {
    match first_match(s, |x: T| order.spec_before(&value, &x)) {
        Some(j) => j,
        None => s.len() as int,
    }
}


/// Inserting into an ordered sequence, after every item that `value` does not
/// come strictly before.
pub open spec fn sorted_insert<T, O: ItemOrder<T>>(s: Seq<T>, order: O, value: T) -> Seq<T> {
    s.insert(sorted_position(s, order, value), value)
}

/// The items sorted by inserting them one after the other, in order: a stable
/// sort when `order` is a strict weak order.
pub open spec fn sort_by_order<T, O: ItemOrder<T>>(s: Seq<T>, order: O) -> Seq<T>
    decreases s.len(),
{
    if s.len() == 0 {
        s
    } else {
        sorted_insert(sort_by_order(s.drop_last(), order), order, s.last())
    }
}

/// The items at the given positions.
pub open spec fn pick<T>(s: Seq<T>, idx: Seq<usize>) -> Seq<T> {
    Seq::new(idx.len(), |k: int| s[idx[k] as int])
}

/// The positions of `s` in the order of [`sort_by_order`].
pub fn sorted_indices<T, O: ItemOrder<T>>(s: &Vec<T>, order: &O) -> (r: Vec<usize>)
    ensures
        pick(s@, r@) == sort_by_order(s@, *order),
        forall|k: int| 0 <= k < r@.len() ==> #[trigger] r@[k] < s@.len(),
{
    let mut idx: Vec<usize> = Vec::new();
    let mut j: usize = 0;
    while j < s.len()
        invariant
            j <= s@.len(),
            idx@.len() == j,
            forall|k: int| 0 <= k < idx@.len() ==> #[trigger] idx@[k] < j,
            pick(s@, idx@) == sort_by_order(s@.take(j as int), *order),
        decreases s@.len() - j,
    {
        let ghost cur = pick(s@, idx@);
        let ghost pred = |x: T| order.spec_before(&s@[j as int], &x);
        let mut p: usize = 0;
        let mut found = false;
        while p < idx.len() && !found
            invariant
                p <= idx@.len(),
                idx@.len() == j,
                j < s@.len(),
                forall|k: int| 0 <= k < idx@.len() ==> #[trigger] idx@[k] < j,
                cur == pick(s@, idx@),
                pred == (|x: T| order.spec_before(&s@[j as int], &x)),
                forall|k: int| 0 <= k < p ==> !pred(#[trigger] cur[k]),
                found ==> p < idx@.len() && pred(cur[p as int]),
            decreases (idx@.len() - p) * 2 + if found {
                0int
            } else {
                1int
            },
        {
            if order.before(&s[j], &s[idx[p]]) {
                found = true;
            } else {
                p += 1;
            }
        }
        proof {
            if p < cur.len() {
                assert(pred(cur[p as int]));
                let c = choose|q: int|
                    0 <= q < cur.len() && pred(cur[q]) && forall|k: int| 0 <= k < q ==> !pred(cur[k]);
                if c < p {
                    assert(!pred(cur[c]));
                } else if c > p {
                    assert(!pred(cur[p as int]));
                }
                assert(first_match(cur, pred) == Some(p as int));
            } else {
                assert(first_match(cur, pred) == None::<int>);
            }
            assert(sorted_position(cur, *order, s@[j as int]) == p);
        }
        let ghost before = idx@;
        idx.insert(p, j);
        proof {
            let t = s@.take(j + 1);
            assert(t.drop_last() =~= s@.take(j as int));
            assert(t.last() == s@[j as int]);
            assert(pick(s@, idx@) =~= cur.insert(p as int, s@[j as int]));
        }
        j += 1;
    }
    assert(s@.take(j as int) =~= s@);
    idx
}


/// No item of `s` comes strictly before its predecessor.
pub open spec fn ordered_by<T, O: ItemOrder<T>>(s: Seq<T>, order: O) -> bool {
    forall|k: int| #![trigger s[k]] 0 < k < s.len() ==> !order.spec_before(&s[k], &s[k - 1])
}

/// `order` never puts two items before each other.
pub open spec fn asymmetric<T, O: ItemOrder<T>>(order: O) -> bool {
    forall|a: T, b: T| #[trigger] order.spec_before(&a, &b) ==> !order.spec_before(&b, &a)
}

/// The position chosen for an inserted item follows every item it does not
/// come before, and precedes the item right after it.
pub proof fn lemma_sorted_position<T, O: ItemOrder<T>>(s: Seq<T>, order: O, value: T)
    ensures
        0 <= sorted_position(s, order, value) <= s.len(),
        forall|k: int|
            #![trigger s[k]] 0 <= k < sorted_position(s, order, value) ==> !order.spec_before(&value, &s[k]),
        sorted_position(s, order, value) < s.len() ==> order.spec_before(
            &value,
            &s[sorted_position(s, order, value)],
        ),
{
    let pred = |x: T| order.spec_before(&value, &x);
    if exists|j: int| 0 <= j < s.len() && pred(s[j]) {
        let w = choose|j: int| 0 <= j < s.len() && pred(s[j]);
        lemma_first_match_exists(s, pred, w);
    }
}

proof fn lemma_first_match_exists<T>(s: Seq<T>, pred: spec_fn(T) -> bool, w: int)
    requires
        0 <= w < s.len(),
        pred(s[w]),
    ensures
        exists|j: int| 0 <= j < s.len() && pred(s[j]) && forall|k: int| 0 <= k < j ==> !pred(s[k]),
    decreases w,
{
    if exists|k: int| 0 <= k < w && pred(s[k]) {
        let k = choose|k: int| 0 <= k < w && pred(s[k]);
        lemma_first_match_exists(s, pred, k);
    } else {
        assert(forall|k: int| 0 <= k < w ==> !pred(s[k]));
    }
}

/// Inserting into an ordered sequence at the sorted position keeps it
/// ordered, for any asymmetric order.
pub proof fn lemma_sorted_insert_keeps_order<T, O: ItemOrder<T>>(s: Seq<T>, order: O, value: T)
    requires
        ordered_by(s, order),
        asymmetric::<T, O>(order),
    ensures
        ordered_by(sorted_insert(s, order, value), order),
{
    lemma_sorted_position(s, order, value);
    let p = sorted_position(s, order, value);
    let t = sorted_insert(s, order, value);
    assert forall|k: int| #![trigger t[k]] 0 < k < t.len() implies !order.spec_before(&t[k], &t[k - 1]) by {
        if k < p {
            assert(t[k] == s[k] && t[k - 1] == s[k - 1]);
        } else if k == p {
            assert(t[k] == value && t[k - 1] == s[k - 1]);
        } else if k == p + 1 {
            assert(t[k] == s[p] && t[k - 1] == value);
            assert(order.spec_before(&value, &s[p]));
        } else {
            assert(t[k] == s[k - 1] && t[k - 1] == s[k - 2]);
        }
    }
}

/// A sorted view shows its items ordered, for any asymmetric order.
pub proof fn lemma_sort_is_ordered<T, O: ItemOrder<T>>(s: Seq<T>, order: O)
    requires
        asymmetric::<T, O>(order),
    ensures
        ordered_by(sort_by_order(s, order), order),
    decreases s.len(),
{
    if s.len() > 0 {
        lemma_sort_is_ordered(s.drop_last(), order);
        lemma_sorted_insert_keeps_order(sort_by_order(s.drop_last(), order), order, s.last());
    }
}

/// A sorted view shows exactly the stored items, each as often as it is stored.
pub proof fn lemma_sort_is_permutation<T, O: ItemOrder<T>>(s: Seq<T>, order: O)
    ensures
        sort_by_order(s, order).to_multiset() == s.to_multiset(),
    decreases s.len(),
{
    broadcast use vstd::seq_lib::group_to_multiset_ensures;

    if s.len() > 0 {
        lemma_sort_is_permutation(s.drop_last(), order);
        let sorted = sort_by_order(s.drop_last(), order);
        lemma_sorted_position(sorted, order, s.last());
        let p = sorted_position(sorted, order, s.last());
        let t = sorted.insert(p, s.last());
        assert(t =~= sorted.take(p) + seq![s.last()] + sorted.skip(p));
        assert(sorted =~= sorted.take(p) + sorted.skip(p));
        vstd::seq_lib::lemma_multiset_commutative(sorted.take(p), seq![s.last()]);
        vstd::seq_lib::lemma_multiset_commutative(sorted.take(p) + seq![s.last()], sorted.skip(p));
        vstd::seq_lib::lemma_multiset_commutative(sorted.take(p), sorted.skip(p));
        assert(s =~= s.drop_last().push(s.last()));
    }
}

/// Filters only hide items: every visible item is stored and passes every
/// active filter, and with no active filter every stored item is visible.
pub proof fn lemma_visible_items<T, F: ItemFilter<T>>(st: &FilteredStore<T, F>)
    ensures
        st.visible().len() <= st.items().len(),
        forall|k: int|
            0 <= k < st.visible().len() ==> st.items().contains(#[trigger] st.visible()[k])
                && st.passes(st.visible()[k]),
        (forall|i: int| 0 <= i < st.filter_count() ==> !#[trigger] st.filter_active(i))
            ==> st.visible() == st.items(),
{
    let s = st.items();
    let p = st.passing();
    assert forall|k: int| 0 <= k < st.visible().len() implies s.contains(
        #[trigger] st.visible()[k],
    ) && st.passes(st.visible()[k]) by {
        s.lemma_filter_contains_rev(p, st.visible()[k]);
    }
    if forall|i: int| 0 <= i < st.filter_count() ==> !#[trigger] st.filter_active(i) {
        assert forall|k: int| 0 <= k < s.len() implies p(#[trigger] s[k]) by {}
        lemma_filter_all(s, p);
    }
}

/// Filters stack: an item that passes the filters after a filter was added
/// on top of the stack passed them before, and it passes the new filter.
pub proof fn lemma_added_filter_only_hides<T, F: ItemFilter<T>>(
    before: &FilteredStore<T, F>,
    after: &FilteredStore<T, F>,
    item: T,
)
    requires
        after.filter_count() == before.filter_count() + 1,
        after.filter_active(before.filter_count() as int),
        forall|i: int|
            0 <= i < before.filter_count() ==> after.filter_active(i) == before.filter_active(i) && (
            forall|x: T| #[trigger] after.filter_keeps(i, x) == before.filter_keeps(i, x)),
        after.passes(item),
    ensures
        before.passes(item),
        after.filter_keeps(before.filter_count() as int, item),
{
    assert forall|i: int|
        0 <= i < before.filter_count() && #[trigger] before.filter_active(i) implies before.filter_keeps(
        i,
        item,
    ) by {
        assert(after.filter_active(i));
        assert(after.filter_keeps(i, item));
    }
    assert(after.filter_active(before.filter_count() as int));
}

impl<T, F: ItemFilter<T>> FilteredStore<T, F> {
    /// The stored items, in store order.
    pub closed spec fn items(&self) -> Seq<T> {
        self.store@
    }

    /// The number of filters in the stack.
    pub closed spec fn filter_count(&self) -> nat {
        self.filters@.len()
    }

    /// Whether filter `i` is applied.
    pub closed spec fn filter_active(&self, i: int) -> bool {
        self.filters@[i].active
    }

    /// Whether filter `i` holds of `item`.
    pub closed spec fn filter_keeps(&self, i: int, item: T) -> bool {
        self.filters@[i].filter.spec_keeps(&item)
    }

    /// Whether an item passes every active filter.
    pub open spec fn passes(&self, item: T) -> bool {
        forall|i: int|
            0 <= i < self.filter_count() && #[trigger] self.filter_active(i) ==> self.filter_keeps(
                i,
                item,
            )
    }

    /// The predicate "passes every active filter".
    pub open spec fn passing(&self) -> spec_fn(T) -> bool {
        |x: T| self.passes(x)
    }

    /// The visible items: the stored items that pass every active filter.
    pub open spec fn visible(&self) -> Seq<T> {
        self.items().filter(self.passing())
    }

    /// Both stores have the same filters, applied in the same way.
    pub open spec fn same_filters_as(&self, other: &Self) -> bool {
        &&& self.filter_count() == other.filter_count()
        &&& forall|i: int|
            0 <= i < self.filter_count() ==> self.filter_active(i) == other.filter_active(i) && (
            forall|x: T| #[trigger] self.filter_keeps(i, x) == other.filter_keeps(i, x))
    }

    /// The internal invariant: positions fit in `u32`.
    pub closed spec fn wf(&self) -> bool {
        self.store@.len() <= u32::MAX
    }

    /// Creates an empty store without filters.
    pub fn new() -> (r: Self)
        ensures
            r.wf(),
            r.items() == Seq::<T>::empty(),
            r.filter_count() == 0,
    {
        FilteredStore { store: Vec::new(), filters: Vec::new() }
    }

    /// Pushes a filter, applied, on top of the stack.
    pub fn add_filter(&mut self, f: F)
        requires
            old(self).wf(),
        ensures
            final(self).wf(),
            final(self).items() == old(self).items(),
            final(self).filter_count() == old(self).filter_count() + 1,
            final(self).filter_active(old(self).filter_count() as int),
            forall|x: T|
                #[trigger] final(self).filter_keeps(old(self).filter_count() as int, x)
                    == f.spec_keeps(&x),
            forall|i: int|
                0 <= i < old(self).filter_count() ==> final(self).filter_active(i) == old(
                    self,
                ).filter_active(i) && (forall|x: T| #[trigger]
                    final(self).filter_keeps(i, x) == old(self).filter_keeps(i, x)),
    {
        self.filters.push(Filter { filter: f, active: true });
    }

    /// The number of filters in the stack.
    pub fn filters_len(&self) -> (r: usize)
        ensures
            r == self.filter_count(),
    {
        self.filters.len()
    }

    /// Applies or suspends filter `idx`; returns whether it exists.
    pub fn set_filter_status(&mut self, idx: usize, active: bool) -> (r: bool)
        requires
            old(self).wf(),
        ensures
            final(self).wf(),
            r == (idx < old(self).filter_count()),
            final(self).items() == old(self).items(),
            final(self).filter_count() == old(self).filter_count(),
            forall|i: int|
                0 <= i < old(self).filter_count() ==> final(self).filter_active(i) == (if i == idx {
                    active
                } else {
                    old(self).filter_active(i)
                }) && (forall|x: T| #[trigger]
                    final(self).filter_keeps(i, x) == old(self).filter_keeps(i, x)),
    {
        if idx < self.filters.len() {
            self.filters[idx].active = active;
            true
        } else {
            false
        }
    }

    /// Whether filter `idx` exists.
    pub fn has_filter(&self, idx: usize) -> (r: bool)
        ensures
            r == (idx < self.filter_count()),
    {
        idx < self.filters.len()
    }

    /// Removes the filter on top of the stack, if any.
    pub fn pop_filter(&mut self)
        requires
            old(self).wf(),
        ensures
            final(self).wf(),
            final(self).items() == old(self).items(),
            final(self).filter_count() == (if old(self).filter_count() > 0 {
                old(self).filter_count() - 1
            } else {
                0
            }),
            forall|i: int|
                0 <= i < final(self).filter_count() ==> final(self).filter_active(i) == old(
                    self,
                ).filter_active(i) && (forall|x: T| #[trigger]
                    final(self).filter_keeps(i, x) == old(self).filter_keeps(i, x)),
    {
        let _ = self.filters.pop();
    }

    /// Removes all filters.
    pub fn clear_filters(&mut self)
        requires
            old(self).wf(),
        ensures
            final(self).wf(),
            final(self).items() == old(self).items(),
            final(self).filter_count() == 0,
    {
        self.filters.clear();
    }

    /// Appends an item.
    pub fn append(&mut self, value: T)
        requires
            old(self).wf(),
            old(self).items().len() < u32::MAX,
        ensures
            final(self).wf(),
            final(self).items() == old(self).items().push(value),
            final(self).filter_count() == old(self).filter_count(),
            forall|i: int|
                0 <= i < old(self).filter_count() ==> final(self).filter_active(i) == old(
                    self,
                ).filter_active(i) && (forall|x: T| #[trigger]
                    final(self).filter_keeps(i, x) == old(self).filter_keeps(i, x)),
    {
        self.store.push(value);
    }

    /// Appends items, in order.
    pub fn extend(&mut self, values: Vec<T>)
        requires
            old(self).wf(),
            old(self).items().len() + values.len() <= u32::MAX,
        ensures
            final(self).wf(),
            final(self).items() == old(self).items() + values@,
            final(self).filter_count() == old(self).filter_count(),
            forall|i: int|
                0 <= i < old(self).filter_count() ==> final(self).filter_active(i) == old(
                    self,
                ).filter_active(i) && (forall|x: T| #[trigger]
                    final(self).filter_keeps(i, x) == old(self).filter_keeps(i, x)),
    {
        let mut values = values;
        self.store.append(&mut values);
    }

    /// Inserts an item at `position`; nothing happens if `position` is past the end.
    pub fn insert(&mut self, position: u32, value: T)
        requires
            old(self).wf(),
            old(self).items().len() < u32::MAX,
        ensures
            final(self).wf(),
            final(self).items() == (if position <= old(self).items().len() {
                old(self).items().insert(position as int, value)
            } else {
                old(self).items()
            }),
            final(self).filter_count() == old(self).filter_count(),
            forall|i: int|
                0 <= i < old(self).filter_count() ==> final(self).filter_active(i) == old(
                    self,
                ).filter_active(i) && (forall|x: T| #[trigger]
                    final(self).filter_keeps(i, x) == old(self).filter_keeps(i, x)),
    {
        let p = position as usize;
        if p <= self.store.len() {
            self.store.insert(p, value);
        }
    }

    /// Inserts an item after every stored item that it does not come strictly
    /// before, and returns its position.
    pub fn insert_sorted<O: ItemOrder<T>>(&mut self, value: T, order: O) -> (r: u32)
        requires
            old(self).wf(),
            old(self).items().len() < u32::MAX,
        ensures
            final(self).wf(),
            r == sorted_position(old(self).items(), order, value),
            final(self).items() == old(self).items().insert(r as int, value),
            final(self).filter_count() == old(self).filter_count(),
            forall|i: int|
                0 <= i < old(self).filter_count() ==> final(self).filter_active(i) == old(
                    self,
                ).filter_active(i) && (forall|x: T| #[trigger]
                    final(self).filter_keeps(i, x) == old(self).filter_keeps(i, x)),
    {
        let ghost pred = |x: T| order.spec_before(&value, &x);
        let mut j: usize = 0;
        let mut found = false;
        while j < self.store.len() && !found
            invariant
                j <= self.store@.len(),
                self.store@ == old(self).store@,
                self.filters == old(self).filters,
                self.store@.len() < u32::MAX,
                pred == (|x: T| order.spec_before(&value, &x)),
                forall|k: int| 0 <= k < j ==> !pred(#[trigger] self.store@[k]),
                found ==> j < self.store@.len() && pred(self.store@[j as int]),
            decreases (self.store@.len() - j) * 2 + if found {
                0int
            } else {
                1int
            },
        {
            if order.before(&value, &self.store[j]) {
                found = true;
            } else {
                j += 1;
            }
        }
        proof {
            let s = old(self).store@;
            if j < s.len() {
                assert(pred(s[j as int]));
                assert(exists|q: int| 0 <= q < s.len() && pred(s[q]));
                let c = choose|q: int|
                    0 <= q < s.len() && pred(s[q]) && forall|k: int| 0 <= k < q ==> !pred(s[k]);
                assert(pred(s[j as int]) && forall|k: int| 0 <= k < j ==> !pred(s[k]));
                if c < j {
                    assert(!pred(s[c]));
                } else if c > j {
                    assert(!pred(s[j as int]));
                }
                assert(first_match(s, pred) == Some(j as int));
            } else {
                assert(first_match(s, pred) == None::<int>);
            }
        }
        self.store.insert(j, value);
        j as u32
    }

    /// Removes the item at `position`; nothing happens if it is past the end.
    pub fn remove(&mut self, position: u32)
        requires
            old(self).wf(),
        ensures
            final(self).wf(),
            final(self).items() == (if position < old(self).items().len() {
                old(self).items().remove(position as int)
            } else {
                old(self).items()
            }),
            final(self).filter_count() == old(self).filter_count(),
            forall|i: int|
                0 <= i < old(self).filter_count() ==> final(self).filter_active(i) == old(
                    self,
                ).filter_active(i) && (forall|x: T| #[trigger]
                    final(self).filter_keeps(i, x) == old(self).filter_keeps(i, x)),
    {
        let p = position as usize;
        if p < self.store.len() {
            let _ = self.store.remove(p);
        }
    }

    /// Removes all items.
    pub fn clear(&mut self)
        requires
            old(self).wf(),
        ensures
            final(self).wf(),
            final(self).items() == Seq::<T>::empty(),
            final(self).filter_count() == old(self).filter_count(),
            forall|i: int|
                0 <= i < old(self).filter_count() ==> final(self).filter_active(i) == old(
                    self,
                ).filter_active(i) && (forall|x: T| #[trigger]
                    final(self).filter_keeps(i, x) == old(self).filter_keeps(i, x)),
    {
        self.store.clear();
    }

    /// The number of stored items (filters ignored).
    pub fn len(&self) -> (r: u32)
        requires
            self.wf(),
        ensures
            r == self.items().len(),
    {
        self.store.len() as u32
    }

    /// The stored item at `position`, if any.
    pub fn get(&self, position: u32) -> (r: Option<TypedListItem<'_, T>>)
        requires
            self.wf(),
        ensures
            position < self.items().len() ==> r is Some && r->0.value() == self.items()[position as int],
            position >= self.items().len() ==> r is None,
    {
        let p = position as usize;
        if p < self.store.len() {
            Some(TypedListItem::new(&self.store[p]))
        } else {
            None
        }
    }

    /// Mutable access to the item at `position`, if any.
    pub fn get_mut(&mut self, position: u32) -> (r: Option<&mut T>)
        requires
            old(self).wf(),
        ensures
            final(self).wf(),
            final(self).same_filters_as(old(self)),
            position < old(self).items().len() ==> r is Some && *r->0 == old(self).items()[position as int]
                && final(self).items() == old(self).items().update(position as int, *final(r->0)),
            position >= old(self).items().len() ==> r is None && final(self).items() == old(self).items(),
    {
        let p = position as usize;
        if p < self.store.len() {
            Some(&mut self.store[p])
        } else {
            None
        }
    }

    /// Whether `item` passes every active filter.
    pub fn item_passes(&self, item: &T) -> (r: bool)
        ensures
            r == self.passes(*item),
    {
        let mut i: usize = 0;
        while i < self.filters.len()
            invariant
                i <= self.filters@.len(),
                forall|k: int|
                    0 <= k < i && #[trigger] self.filter_active(k) ==> self.filter_keeps(k, *item),
            decreases self.filters@.len() - i,
        {
            if self.filters[i].active && !self.filters[i].filter.keeps(item) {
                assert(self.filter_active(i as int) && !self.filter_keeps(i as int, *item));
                return false;
            }
            i += 1;
        }
        true
    }

    /// The visible item at `position` (the `position`-th stored item that
    /// passes every active filter), if any.
    pub fn get_visible(&self, position: u32) -> (r: Option<TypedListItem<'_, T>>)
        requires
            self.wf(),
        ensures
            position < self.visible().len() ==> r is Some && r->0.value() == self.visible()[position as int],
            position >= self.visible().len() ==> r is None,
    {
        let ghost s = self.store@;
        let ghost p = self.passing();
        let mut count: usize = 0;
        let mut j: usize = 0;
        while j < self.store.len()
            invariant
                j <= s.len(),
                s == self.store@,
                p == self.passing(),
                count == s.take(j as int).filter(p).len(),
                count <= position,
            decreases s.len() - j,
        {
            let keep = self.item_passes(&self.store[j]);
            proof {
                assert(s.take(j + 1) =~= s.take(j as int).push(s[j as int]));
                s.take(j as int).lemma_filter_push(s[j as int], p);
            }
            if keep {
                if count == position as usize {
                    proof {
                        let pre = s.take(j + 1);
                        assert(s =~= pre + s.skip(j + 1));
                        Seq::filter_distributes_over_add(pre, s.skip(j + 1), p);
                        assert(self.visible()[position as int] == pre.filter(p)[position as int]);
                    }
                    return Some(TypedListItem::new(&self.store[j]));
                }
                count += 1;
            }
            j += 1;
        }
        assert(s.take(j as int) =~= s);
        None
    }


    /// The visible item at `position` when the items are shown sorted by
    /// `order`: the `position`-th item of the sorted items that passes every
    /// active filter, if any.
    pub fn get_visible_sorted<O: ItemOrder<T>>(&self, position: u32, order: &O) -> (r: Option<
        TypedListItem<'_, T>,
    >)
        requires
            self.wf(),
        ensures
            position < sort_by_order(self.items(), *order).filter(self.passing()).len() ==> r is Some
                && r->0.value() == sort_by_order(self.items(), *order).filter(
                self.passing(),
            )[position as int],
            position >= sort_by_order(self.items(), *order).filter(self.passing()).len() ==> r is None,
    {
        let idx = sorted_indices(&self.store, order);
        let ghost s = pick(self.store@, idx@);
        let ghost p = self.passing();
        let mut count: usize = 0;
        let mut j: usize = 0;
        while j < idx.len()
            invariant
                j <= idx@.len(),
                s == pick(self.store@, idx@),
                s == sort_by_order(self.items(), *order),
                forall|k: int| 0 <= k < idx@.len() ==> #[trigger] idx@[k] < self.store@.len(),
                p == self.passing(),
                count == s.take(j as int).filter(p).len(),
                count <= position,
            decreases idx@.len() - j,
        {
            let item = &self.store[idx[j]];
            let keep = self.item_passes(item);
            proof {
                assert(s[j as int] == *item);
                assert(s.take(j + 1) =~= s.take(j as int).push(s[j as int]));
                s.take(j as int).lemma_filter_push(s[j as int], p);
            }
            if keep {
                if count == position as usize {
                    proof {
                        let pre = s.take(j + 1);
                        assert(s =~= pre + s.skip(j + 1));
                        Seq::filter_distributes_over_add(pre, s.skip(j + 1), p);
                    }
                    return Some(TypedListItem::new(item));
                }
                count += 1;
            }
            j += 1;
        }
        assert(s.take(j as int) =~= s);
        None
    }

    /// The position of the first stored item that satisfies `pred`, if any.
    pub fn find<P: ItemFilter<T>>(&self, pred: &P) -> (r: Option<u32>)
        requires
            self.wf(),
        ensures
            r matches Some(j) ==> first_match(self.items(), |x: T| pred.spec_keeps(&x)) == Some(
                j as int,
            ),
            r is None ==> first_match(self.items(), |x: T| pred.spec_keeps(&x)) is None,
    {
        let ghost q = |x: T| pred.spec_keeps(&x);
        let ghost s = self.store@;
        let mut j: usize = 0;
        while j < self.store.len()
            invariant
                j <= s.len(),
                s == self.store@,
                s.len() <= u32::MAX,
                q == (|x: T| pred.spec_keeps(&x)),
                forall|k: int| 0 <= k < j ==> !q(#[trigger] s[k]),
            decreases s.len() - j,
        {
            if pred.keeps(&self.store[j]) {
                proof {
                    assert(q(s[j as int]));
                    let c = choose|c: int|
                        0 <= c < s.len() && q(s[c]) && forall|k: int| 0 <= k < c ==> !q(s[k]);
                    if c < j {
                        assert(!q(s[c]));
                    } else if c > j {
                        assert(!q(s[j as int]));
                    }
                }
                return Some(j as u32);
            }
            j += 1;
        }
        None
    }
}

} // verus!
