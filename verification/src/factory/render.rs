//! Planning how the widgets of a factory follow the changes of its model.
//!
//! A factory keeps the components in the order of its model.  After a batch
//! of edits the widgets still show the previously rendered order.  The plan
//! computed here is the list of widget operations that brings the widgets
//! back in line with the model, touching only what changed.
use crate::factory::dynamic_index::DynamicIndex;
use vstd::prelude::*;

verus! {

broadcast use vstd::seq_lib::group_seq_properties, vstd::seq_lib::group_filter_ensures;

/// Bookkeeping of one element of a factory model.
pub struct ModelStateValue {
    /// The index handed to the component.
    pub index: DynamicIndex,
    /// A unique identifier of the element.  `0` is never used.
    pub uid: usize,
    /// Whether the element was modified since the last render.
    pub changed: bool,
}

/// The identifier of an element whose widget is attached to the container.
#[derive(Debug, Clone, Copy, PartialEq, Eq, Structural)]
pub struct RenderedState {
    /// Unique identifier of the element.
    pub uid: usize,
}

/// One operation on the container widget of a factory.
///
/// Elements are named by their unique identifiers; `index` fields give the
/// position of the element in the model at the time of rendering.
#[derive(Debug, Clone, Copy, PartialEq, Eq, Structural)]
pub enum WidgetAction {
    /// Detach the widget of an element from the container.
    Remove { uid: usize },
    /// Launch a new element and attach its widget at the front.
    Prepend { uid: usize, index: usize },
    /// Launch a new element and attach its widget after the widget of `after`.
    InsertAfter { uid: usize, index: usize, after: usize },
    /// Move an attached widget to the front.
    MoveStart { uid: usize },
    /// Move an attached widget after the widget of `after`.
    MoveAfter { uid: usize, after: usize },
    /// Tell a launched element that its model changed.
    Notify { uid: usize, index: usize },
    /// Recompute the position of a widget inside positioned containers.
    UpdatePosition { uid: usize, index: usize },
}

/// The identifiers of a model, in order.
pub open spec fn uids(m: Seq<ModelStateValue>) -> Seq<usize> {
    m.map_values(|s: ModelStateValue| s.uid)
}

/// The identifiers of a rendered state, in order.
pub open spec fn rendered_uids(r: Seq<RenderedState>) -> Seq<usize> {
    r.map_values(|s: RenderedState| s.uid)
}

/// Whether an identifier belongs to the model.
pub open spec fn in_model(m: Seq<ModelStateValue>) -> spec_fn(usize) -> bool {
    |u: usize| uids(m).contains(u)
}

/// Identifiers different from `u`.
pub open spec fn other_than(u: usize) -> spec_fn(usize) -> bool {
    |x: usize| x != u
}

/// The widgets attached to the container: the rendered elements still in the model.
pub open spec fn attached(rendered: Seq<usize>, m: Seq<ModelStateValue>) -> Seq<usize> {
    rendered.filter(in_model(m))
}

/// Element `i` is the first of the remaining rendered ones.
pub open spec fn keeps_front(m: Seq<ModelStateValue>, i: int, rem: Seq<usize>) -> bool {
    rem.len() > 0 && rem[0] == m[i].uid
}

/// Attaching the widget of a new element `i`.
pub open spec fn placement(m: Seq<ModelStateValue>, i: int) -> WidgetAction {
    if i == 0 {
        WidgetAction::Prepend { uid: m[0].uid, index: 0 }
    } else {
        WidgetAction::InsertAfter { uid: m[i].uid, index: i as usize, after: m[i - 1].uid }
    }
}

/// Moving the widget of element `i` behind its predecessor.
pub open spec fn relocation(m: Seq<ModelStateValue>, i: int) -> WidgetAction {
    if i == 0 {
        WidgetAction::MoveStart { uid: m[0].uid }
    } else {
        WidgetAction::MoveAfter { uid: m[i].uid, after: m[i - 1].uid }
    }
}

/// The notification of element `i`, if it changed.
pub open spec fn notification(m: Seq<ModelStateValue>, i: int) -> Seq<WidgetAction> {
    if m[i].changed {
        seq![WidgetAction::Notify { uid: m[i].uid, index: i as usize }]
    } else {
        seq![]
    }
}

/// The operations for element `i`, given the rendered elements not yet visited.
pub open spec fn step_actions(m: Seq<ModelStateValue>, i: int, rem: Seq<usize>) -> Seq<
    WidgetAction,
> {
    if keeps_front(m, i, rem) {
        notification(m, i)
    } else if rem.contains(m[i].uid) {
        seq![relocation(m, i)] + notification(m, i)
    } else {
        seq![placement(m, i)]
    }
}

/// The rendered elements not yet visited after element `i`.
pub open spec fn step_rest(m: Seq<ModelStateValue>, i: int, rem: Seq<usize>) -> Seq<usize> {
    if keeps_front(m, i, rem) {
        rem.drop_first()
    } else if rem.contains(m[i].uid) {
        rem.remove(rem.index_of(m[i].uid))
    } else {
        rem
    }
}

/// The operations for the elements from `i` on.
pub open spec fn actions_from(m: Seq<ModelStateValue>, i: int, rem: Seq<usize>) -> Seq<
    WidgetAction,
>
    decreases m.len() - i,
{
    if i < 0 || i >= m.len() {
        seq![]
    } else {
        step_actions(m, i, rem) + actions_from(m, i + 1, step_rest(m, i, rem))
    }
}

/// The first element, from `i` on, whose widget is attached or moved.
/// It is the length of the model when there is none.
pub open spec fn first_change_from(m: Seq<ModelStateValue>, i: int, rem: Seq<usize>) -> int
    decreases m.len() - i,
{
    if i < 0 || i >= m.len() {
        m.len() as int
    } else if keeps_front(m, i, rem) {
        first_change_from(m, i + 1, rem.drop_first())
    } else {
        i
    }
}

/// Position updates of all elements from `from` on.
pub open spec fn position_updates(m: Seq<ModelStateValue>, from: int) -> Seq<WidgetAction> {
    Seq::new(
        (m.len() - from) as nat,
        |k: int| WidgetAction::UpdatePosition { uid: m[from + k].uid, index: (from + k) as usize },
    )
}

/// The complete plan of a render.
pub open spec fn render_plan(m: Seq<ModelStateValue>, rendered: Seq<usize>) -> Seq<WidgetAction> {
    actions_from(m, 0, rendered) + position_updates(m, first_change_from(m, 0, rendered))
}

/// Detaching the widget `u` from a container.
pub open spec fn detach(c: Seq<usize>, u: usize) -> Seq<usize> {
    c.filter(other_than(u))
}

/// Attaching the widget `u` right after the widget `a`.
pub open spec fn attach_after(c: Seq<usize>, u: usize, a: usize) -> Seq<usize> {
    c.insert(c.index_of(a) + 1, u)
}

/// The children of a container after one operation.
pub open spec fn apply_action(c: Seq<usize>, a: WidgetAction) -> Seq<usize> {
    match a {
        WidgetAction::Remove { uid } => detach(c, uid),
        WidgetAction::Prepend { uid, .. } => seq![uid] + c,
        WidgetAction::InsertAfter { uid, after, .. } => attach_after(c, uid, after),
        WidgetAction::MoveStart { uid } => seq![uid] + detach(c, uid),
        WidgetAction::MoveAfter { uid, after } => attach_after(detach(c, uid), uid, after),
        WidgetAction::Notify { .. } => c,
        WidgetAction::UpdatePosition { .. } => c,
    }
}

/// The children of a container after a sequence of operations.
pub open spec fn apply_actions(c: Seq<usize>, acts: Seq<WidgetAction>) -> Seq<usize>
    decreases acts.len(),
{
    if acts.len() == 0 {
        c
    } else {
        apply_actions(apply_action(c, acts[0]), acts.drop_first())
    }
}

/// Operations that leave the order of the children alone.
pub open spec fn order_neutral(a: WidgetAction) -> bool {
    a is Notify || a is UpdatePosition
}

proof fn lemma_apply_concat(c: Seq<usize>, a: Seq<WidgetAction>, b: Seq<WidgetAction>)
    ensures
        apply_actions(c, a + b) == apply_actions(apply_actions(c, a), b),
    decreases a.len(),
{
    if a.len() == 0 {
        assert(a + b =~= b);
    } else {
        assert((a + b).drop_first() =~= a.drop_first() + b);
        lemma_apply_concat(apply_action(c, a[0]), a.drop_first(), b);
    }
}

proof fn lemma_apply_neutral(c: Seq<usize>, a: Seq<WidgetAction>)
    requires
        forall|k: int| 0 <= k < a.len() ==> order_neutral(#[trigger] a[k]),
    ensures
        apply_actions(c, a) == c,
    decreases a.len(),
{
    if a.len() > 0 {
        assert(order_neutral(a[0]));
        lemma_apply_neutral(c, a.drop_first());
    }
}

proof fn lemma_filter_keeps_all(s: Seq<usize>, p: spec_fn(usize) -> bool)
    requires
        forall|k: int| 0 <= k < s.len() ==> p(#[trigger] s[k]),
    ensures
        s.filter(p) == s,
    decreases s.len(),
{
    reveal(Seq::filter);
    if s.len() > 0 {
        lemma_filter_keeps_all(s.drop_last(), p);
        assert(s.drop_last().push(s.last()) =~= s);
    }
}

proof fn lemma_index_of_unique(s: Seq<usize>, j: int)
    requires
        0 <= j < s.len(),
        forall|k: int| 0 <= k < s.len() && #[trigger] s[k] == s[j] ==> k == j,
    ensures
        s.index_of(s[j]) == j,
{
}

proof fn lemma_filter_subset(s: Seq<usize>, p: spec_fn(usize) -> bool, x: usize)
    requires
        s.filter(p).contains(x),
    ensures
        s.contains(x),
        p(x),
{
    s.lemma_filter_contains_rev(p, x);
}

/// The element of `s` at `j` is not in the rest of it.
pub(crate) proof fn lemma_no_dup_remove(s: Seq<usize>, j: int)
    requires
        s.no_duplicates(),
        0 <= j < s.len(),
    ensures
        s.remove(j).no_duplicates(),
        !s.remove(j).contains(s[j]),
        forall|x: usize| s.remove(j).contains(x) ==> s.contains(x),
{
    let r = s.remove(j);
    assert forall|a: int, b: int| 0 <= a < b < r.len() implies r[a] != r[b] by {
        let a2 = if a < j { a } else { a + 1 };
        let b2 = if b < j { b } else { b + 1 };
        assert(r[a] == s[a2] && r[b] == s[b2]);
    }
    assert forall|x: usize| r.contains(x) implies s.contains(x) by {
        let k = choose|k: int| 0 <= k < r.len() && r[k] == x;
        if k < j {
            assert(s[k] == x);
        } else {
            assert(s[k + 1] == x);
        }
    }
    if r.contains(s[j]) {
        let k = choose|k: int| 0 <= k < r.len() && r[k] == s[j];
        if k < j {
            assert(s[k] == s[j]);
        } else {
            assert(s[k + 1] == s[j]);
        }
    }
}

/// Widgets after step `i`: the elements before `i` in model order,
/// followed by the attached widgets not yet visited.
pub open spec fn layout(m: Seq<ModelStateValue>, i: int, rem: Seq<usize>) -> Seq<usize> {
    uids(m).take(i) + rem.filter(in_model(m))
}

/// Attaching after the last placed element lands at position `i`.
proof fn lemma_attach_at(m: Seq<ModelStateValue>, i: int, rest: Seq<usize>, u: usize)
    requires
        0 < i <= m.len(),
        uids(m).no_duplicates(),
        forall|x: usize| rest.contains(x) ==> x != m[i - 1].uid,
    ensures
        attach_after(uids(m).take(i) + rest, u, m[i - 1].uid) == uids(m).take(i) + seq![u] + rest,
{
    let d = uids(m).take(i) + rest;
    assert(d[i - 1] == m[i - 1].uid);
    assert forall|k: int| 0 <= k < d.len() && #[trigger] d[k] == d[i - 1] implies k == i - 1 by {
        if k < i {
            assert(uids(m)[k] == uids(m)[i - 1]);
        } else {
            assert(rest[k - i] == d[k]);
            assert(rest.contains(d[k]));
        }
    }
    lemma_index_of_unique(d, i - 1);
    assert(d.insert(i, u) =~= uids(m).take(i) + seq![u] + rest);
}

proof fn lemma_step(m: Seq<ModelStateValue>, i: int, rem: Seq<usize>)
    requires
        0 <= i < m.len(),
        uids(m).no_duplicates(),
        rem.no_duplicates(),
        forall|k: int| 0 <= k < i ==> !rem.contains(#[trigger] m[k].uid),
    ensures
        apply_actions(layout(m, i, rem), step_actions(m, i, rem)) == layout(
            m,
            i + 1,
            step_rest(m, i, rem),
        ),
        step_rest(m, i, rem).no_duplicates(),
        forall|k: int| 0 <= k < i + 1 ==> !step_rest(m, i, rem).contains(#[trigger] m[k].uid),
{
    reveal_with_fuel(apply_actions, 2);
    let u = m[i].uid;
    let p = in_model(m);
    let pre = uids(m).take(i);
    assert(uids(m)[i] == u);
    assert(uids(m).take(i + 1) =~= pre + seq![u]);
    assert(p(u));
    assert forall|k: int| 0 <= k < pre.len() implies other_than(u)(#[trigger] pre[k]) by {
        assert(uids(m)[k] == pre[k]);
    }
    if keeps_front(m, i, rem) {
        let tail = rem.drop_first();
        assert(rem =~= seq![u] + tail);
        tail.lemma_filter_prepend(u, p);
        assert(rem.filter(p) == seq![u] + tail.filter(p));
        assert(layout(m, i, rem) =~= layout(m, i + 1, tail));
        lemma_no_dup_remove(rem, 0);
        assert(rem.remove(0) =~= tail);
        assert forall|k: int| 0 <= k < i + 1 implies !tail.contains(#[trigger] m[k].uid) by {
            if k < i {
                if tail.contains(m[k].uid) {
                    assert(rem.contains(m[k].uid));
                }
            }
        }
        assert forall|k: int| 0 <= k < notification(m, i).len() implies order_neutral(
            #[trigger] notification(m, i)[k],
        ) by {}
        lemma_apply_neutral(layout(m, i, rem), notification(m, i));
    } else if rem.contains(u) {
        let j = rem.index_of(u);
        let tail = rem.remove(j);
        let a = rem.take(j);
        let b = rem.skip(j + 1);
        assert(rem =~= a + (seq![u] + b));
        assert(tail =~= a + b);
        lemma_no_dup_remove(rem, j);
        assert forall|k: int| 0 <= k < a.len() implies other_than(u)(#[trigger] a[k]) by {
            assert(rem[k] == a[k]);
        }
        assert forall|k: int| 0 <= k < b.len() implies other_than(u)(#[trigger] b[k]) by {
            assert(rem[j + 1 + k] == b[k]);
        }
        b.lemma_filter_prepend(u, p);
        assert(rem.filter(p) == a.filter(p) + (seq![u] + b.filter(p)));
        assert(tail.filter(p) == a.filter(p) + b.filter(p));
        let o = other_than(u);
        assert forall|k: int| 0 <= k < a.filter(p).len() implies o(#[trigger] a.filter(p)[k]) by {
            lemma_filter_subset(a, p, a.filter(p)[k]);
            let q = choose|q: int| 0 <= q < a.len() && a[q] == a.filter(p)[k];
            assert(o(a[q]));
        }
        assert forall|k: int| 0 <= k < b.filter(p).len() implies o(#[trigger] b.filter(p)[k]) by {
            lemma_filter_subset(b, p, b.filter(p)[k]);
            let q = choose|q: int| 0 <= q < b.len() && b[q] == b.filter(p)[k];
            assert(o(b[q]));
        }
        lemma_filter_keeps_all(pre, o);
        lemma_filter_keeps_all(a.filter(p), o);
        lemma_filter_keeps_all(b.filter(p), o);
        assert(seq![u].filter(o) =~= Seq::<usize>::empty()) by {
            reveal(Seq::filter);
            assert(seq![u].drop_last() =~= Seq::<usize>::empty());
        }
        let c = layout(m, i, rem);
        assert(c =~= pre + (a.filter(p) + (seq![u] + b.filter(p))));
        assert(detach(c, u) =~= pre + tail.filter(p));
        let moved = apply_action(c, relocation(m, i));
        if i == 0 {
            assert(moved =~= layout(m, 1, tail));
        } else {
            assert forall|x: usize| tail.filter(p).contains(x) implies x != m[i - 1].uid by {
                lemma_filter_subset(tail, p, x);
                assert(!rem.contains(m[i - 1].uid));
            }
            lemma_attach_at(m, i, tail.filter(p), u);
            assert(moved =~= layout(m, i + 1, tail));
        }
        assert(step_actions(m, i, rem) =~= seq![relocation(m, i)] + notification(m, i));
        lemma_apply_concat(c, seq![relocation(m, i)], notification(m, i));
        assert(seq![relocation(m, i)].drop_first() =~= Seq::<WidgetAction>::empty());
        assert forall|k: int| 0 <= k < notification(m, i).len() implies order_neutral(
            #[trigger] notification(m, i)[k],
        ) by {}
        lemma_apply_neutral(moved, notification(m, i));
        assert forall|k: int| 0 <= k < i + 1 implies !tail.contains(#[trigger] m[k].uid) by {
            if k < i {
                if tail.contains(m[k].uid) {
                    assert(rem.contains(m[k].uid));
                }
            }
        }
    } else {
        let c = layout(m, i, rem);
        assert(seq![placement(m, i)].drop_first() =~= Seq::<WidgetAction>::empty());
        if i == 0 {
            assert(apply_action(c, placement(m, i)) =~= layout(m, 1, rem));
        } else {
            assert forall|x: usize| rem.filter(p).contains(x) implies x != m[i - 1].uid by {
                lemma_filter_subset(rem, p, x);
            }
            lemma_attach_at(m, i, rem.filter(p), u);
            assert(apply_action(c, placement(m, i)) =~= layout(m, i + 1, rem));
        }
    }
}

proof fn lemma_actions_from(m: Seq<ModelStateValue>, i: int, rem: Seq<usize>)
    requires
        0 <= i <= m.len(),
        uids(m).no_duplicates(),
        rem.no_duplicates(),
        forall|k: int| 0 <= k < i ==> !rem.contains(#[trigger] m[k].uid),
    ensures
        apply_actions(layout(m, i, rem), actions_from(m, i, rem)) == uids(m),
    decreases m.len() - i,
{
    if i == m.len() {
        let p = in_model(m);
        assert forall|x: usize| rem.filter(p).contains(x) implies false by {
            lemma_filter_subset(rem, p, x);
            let k = choose|k: int| 0 <= k < uids(m).len() && uids(m)[k] == x;
            assert(m[k].uid == x);
        }
        if rem.filter(p).len() > 0 {
            assert(rem.filter(p).contains(rem.filter(p)[0]));
        }
        assert(layout(m, i, rem) =~= uids(m));
    } else {
        lemma_step(m, i, rem);
        lemma_apply_concat(
            layout(m, i, rem),
            step_actions(m, i, rem),
            actions_from(m, i + 1, step_rest(m, i, rem)),
        );
        lemma_actions_from(m, i + 1, step_rest(m, i, rem));
    }
}

/// After a render, the children of an ordered container are exactly the
/// elements of the model, in model order: the plan attaches every new element,
/// moves every element that changed position and leaves the others alone.
pub proof fn lemma_render_orders_widgets(m: Seq<ModelStateValue>, rendered: Seq<usize>)
    requires
        uids(m).no_duplicates(),
        rendered.no_duplicates(),
    ensures
        apply_actions(attached(rendered, m), render_plan(m, rendered)) == uids(m),
{
    assert(layout(m, 0, rendered) =~= attached(rendered, m));
    lemma_actions_from(m, 0, rendered);
    let f = first_change_from(m, 0, rendered);
    lemma_apply_concat(
        attached(rendered, m),
        actions_from(m, 0, rendered),
        position_updates(m, f),
    );
    assert forall|k: int| 0 <= k < position_updates(m, f).len() implies order_neutral(
        #[trigger] position_updates(m, f)[k],
    ) by {}
    lemma_apply_neutral(uids(m), position_updates(m, f));
}



proof fn lemma_in_sync_from(m: Seq<ModelStateValue>, i: int)
    requires
        0 <= i <= m.len(),
        forall|k: int| 0 <= k < m.len() ==> !(#[trigger] m[k].changed),
    ensures
        actions_from(m, i, uids(m).skip(i)) == Seq::<WidgetAction>::empty(),
        first_change_from(m, i, uids(m).skip(i)) == m.len(),
    decreases m.len() - i,
{
    if i < m.len() {
        let rem = uids(m).skip(i);
        assert(rem[0] == m[i].uid);
        assert(rem.drop_first() =~= uids(m).skip(i + 1));
        assert(notification(m, i) =~= Seq::<WidgetAction>::empty());
        lemma_in_sync_from(m, i + 1);
        assert(step_actions(m, i, rem) + actions_from(m, i + 1, uids(m).skip(i + 1))
            =~= Seq::<WidgetAction>::empty());
    }
}

/// A model whose widgets are in sync needs no widget work: when the rendered
/// state is the model's order and no element is marked as modified, the plan is
/// empty.  In particular edits that cancel out (such as swapping two elements
/// twice) cause no widget update at all.
pub proof fn lemma_in_sync_plan_is_empty(m: Seq<ModelStateValue>, rendered: Seq<usize>)
    requires
        rendered == uids(m),
        forall|k: int| 0 <= k < m.len() ==> !(#[trigger] m[k].changed),
    ensures
        render_plan(m, rendered) == Seq::<WidgetAction>::empty(),
{
    assert(uids(m).skip(0) =~= uids(m));
    lemma_in_sync_from(m, 0);
    assert(position_updates(m, m.len() as int) =~= Seq::<WidgetAction>::empty());
    assert(render_plan(m, rendered) =~= Seq::<WidgetAction>::empty());
}

/// What an operation of a plan may do to the model `m` that had the
/// widgets `rendered`: a notification goes to an element that was
/// modified, and only an element without a widget gets one attached.
pub open spec fn touches_only_changes(
    m: Seq<ModelStateValue>,
    rendered: Seq<usize>,
    a: WidgetAction,
) -> bool {
    match a {
        WidgetAction::Notify { uid, index } => index < m.len() && m[index as int].uid == uid
            && m[index as int].changed,
        WidgetAction::Prepend { uid, index } => index < m.len() && m[index as int].uid == uid
            && !rendered.contains(uid),
        WidgetAction::InsertAfter { uid, index, .. } => index < m.len() && m[index as int].uid
            == uid && !rendered.contains(uid),
        _ => true,
    }
}

proof fn lemma_actions_touch_only_changes(
    m: Seq<ModelStateValue>,
    i: int,
    rem: Seq<usize>,
    rendered: Seq<usize>,
)
    requires
        0 <= i <= m.len(),
        m.len() <= usize::MAX,
        uids(m).no_duplicates(),
        rem.no_duplicates(),
        forall|x: usize| rem.contains(x) <==> (rendered.contains(x) && !uids(m).take(i).contains(x)),
    ensures
        forall|k: int|
            0 <= k < actions_from(m, i, rem).len() ==> touches_only_changes(
                m,
                rendered,
                #[trigger] actions_from(m, i, rem)[k],
            ),
    decreases m.len() - i,
{
    if i < m.len() {
        let u = m[i].uid;
        let step = step_actions(m, i, rem);
        let rest = step_rest(m, i, rem);
        assert(uids(m)[i] == u);
        assert(!uids(m).take(i).contains(u)) by {
            if uids(m).take(i).contains(u) {
                let q = choose|q: int| 0 <= q < i && uids(m).take(i)[q] == u;
                assert(uids(m)[q] == uids(m)[i]);
            }
        }
        assert(uids(m).take(i + 1) =~= uids(m).take(i).push(u));
        if keeps_front(m, i, rem) {
            lemma_no_dup_remove(rem, 0);
            assert(rem.remove(0) =~= rem.drop_first());
        } else if rem.contains(u) {
            let j = rem.index_of(u);
            lemma_no_dup_remove(rem, j);
        } else {
            assert(!rendered.contains(u));
        }
        assert forall|x: usize| rest.contains(x) <==> (rendered.contains(x) && !uids(m).take(
            i + 1,
        ).contains(x)) by {
            if keeps_front(m, i, rem) {
                assert(rest == rem.remove(0));
                if rem.contains(x) && x != u {
                    let q = choose|q: int| 0 <= q < rem.len() && rem[q] == x;
                    assert(q != 0);
                    assert(rest[q - 1] == x);
                }
            } else if rem.contains(u) {
                let j = rem.index_of(u);
                assert(rest == rem.remove(j));
                if rem.contains(x) && x != u {
                    let q = choose|q: int| 0 <= q < rem.len() && rem[q] == x;
                    if q < j {
                        assert(rest[q] == x);
                    } else {
                        assert(q != j);
                        assert(rest[q - 1] == x);
                    }
                }
            }
        }
        lemma_actions_touch_only_changes(m, i + 1, rest, rendered);
        let tail = actions_from(m, i + 1, rest);
        assert(actions_from(m, i, rem) == step + tail);
        assert forall|k: int| 0 <= k < step.len() implies touches_only_changes(
            m,
            rendered,
            #[trigger] step[k],
        ) by {
            if keeps_front(m, i, rem) {
                assert(step == notification(m, i));
            } else if rem.contains(u) {
                assert(step == seq![relocation(m, i)] + notification(m, i));
                if k > 0 {
                    assert(step[k] == notification(m, i)[k - 1]);
                }
            } else {
                assert(step == seq![placement(m, i)]);
            }
        }
        assert forall|k: int| 0 <= k < actions_from(m, i, rem).len() implies touches_only_changes(
            m,
            rendered,
            #[trigger] actions_from(m, i, rem)[k],
        ) by {
            if k < step.len() {
                assert(actions_from(m, i, rem)[k] == step[k]);
            } else {
                assert(actions_from(m, i, rem)[k] == tail[k - step.len()]);
            }
        }
    }
}

/// A render touches only what changed: it notifies an element only when the
/// element was modified since the last render, and it attaches a widget only
/// for an element that had none.  Swapping, moving and removing elements
/// never notifies them.
pub proof fn lemma_plan_touches_only_changes(m: Seq<ModelStateValue>, rendered: Seq<usize>)
    requires
        m.len() <= usize::MAX,
        uids(m).no_duplicates(),
        rendered.no_duplicates(),
    ensures
        forall|k: int|
            0 <= k < render_plan(m, rendered).len() ==> touches_only_changes(
                m,
                rendered,
                #[trigger] render_plan(m, rendered)[k],
            ),
{
    assert(uids(m).take(0) =~= Seq::<usize>::empty());
    lemma_actions_touch_only_changes(m, 0, rendered, rendered);
    let acts = actions_from(m, 0, rendered);
    let ups = position_updates(m, first_change_from(m, 0, rendered));
    assert forall|k: int| 0 <= k < render_plan(m, rendered).len() implies touches_only_changes(
        m,
        rendered,
        #[trigger] render_plan(m, rendered)[k],
    ) by {
        if k < acts.len() {
            assert(render_plan(m, rendered)[k] == acts[k]);
        } else {
            assert(render_plan(m, rendered)[k] == ups[k - acts.len()]);
        }
    }
}

/// The position of the first occurrence of `u` in `v`.
fn find_uid(v: &Vec<usize>, u: usize) -> (r: Option<usize>)
    ensures
        match r {
            Some(p) => p < v.len() && v@[p as int] == u && forall|q: int|
                0 <= q < p ==> v@[q] != u,
            None => !v@.contains(u),
        },
{
    let mut k: usize = 0;
    while k < v.len()
        invariant
            k <= v.len(),
            forall|q: int| 0 <= q < k ==> v@[q] != u,
        decreases v.len() - k,
    {
        if v[k] == u {
            return Some(k);
        }
        k += 1;
    }
    None
}

/// The identifiers of a rendered state, as a vector.
pub fn rendered_ids(rendered: &Vec<RenderedState>) -> (r: Vec<usize>)
    ensures
        r@ == rendered_uids(rendered@),
{
    let mut r: Vec<usize> = Vec::new();
    let mut k: usize = 0;
    while k < rendered.len()
        invariant
            k <= rendered.len(),
            r@ == rendered_uids(rendered@).take(k as int),
        decreases rendered.len() - k,
    {
        r.push(rendered[k].uid);
        k += 1;
        assert(r@ =~= rendered_uids(rendered@).take(k as int));
    }
    assert(rendered_uids(rendered@).take(k as int) =~= rendered_uids(rendered@));
    r
}

/// Computes the widget operations of a render: for every element, in model
/// order, either nothing (its widget is already in place), a move, or the
/// launch of a new widget, each followed by a notification for changed
/// elements that were already launched; then position updates for every
/// element from the first one that was moved or launched.
pub fn plan_render(model: &Vec<ModelStateValue>, rendered: &Vec<RenderedState>) -> (r: Vec<
    WidgetAction,
>)
    requires
        rendered_uids(rendered@).no_duplicates(),
    ensures
        r@ == render_plan(model@, rendered_uids(rendered@)),
{
    let ghost m = model@;
    let ghost r0 = rendered_uids(rendered@);
    let mut rem = rendered_ids(rendered);
    let mut acts: Vec<WidgetAction> = Vec::new();
    let mut first: usize = model.len();
    let mut found = false;
    let mut i: usize = 0;
    while i < model.len()
        invariant
            m == model@,
            i <= model.len(),
            rem@.no_duplicates(),
            acts@ + actions_from(m, i as int, rem@) == actions_from(m, 0, r0),
            !found ==> first == model.len() && first_change_from(m, 0, r0) == first_change_from(
                m,
                i as int,
                rem@,
            ),
            found ==> first_change_from(m, 0, r0) == first && first < i,
        decreases model.len() - i,
    {
        let uid = model[i].uid;
        let changed = model[i].changed;
        let ghost before = acts@;
        let ghost rem_before = rem@;
        if rem.len() > 0 && rem[0] == uid {
            rem.remove(0);
            assert(rem@ =~= rem_before.drop_first());
            proof {
                lemma_no_dup_remove(rem_before, 0);
            }
            assert(rem_before.remove(0) =~= rem_before.drop_first());
            if changed {
                acts.push(WidgetAction::Notify { uid, index: i });
            }
            assert(acts@ =~= before + step_actions(m, i as int, rem_before));
        } else {
            if !found {
                found = true;
                first = i;
            }
            match find_uid(&rem, uid) {
                Some(p) => {
                    assert(rem_before.index_of(uid) == p as int) by {
                        lemma_index_of_unique(rem_before, p as int);
                    }
                    proof {
                        lemma_no_dup_remove(rem_before, p as int);
                    }
                    rem.remove(p);
                    if i == 0 {
                        acts.push(WidgetAction::MoveStart { uid });
                    } else {
                        let after = model[i - 1].uid;
                        acts.push(WidgetAction::MoveAfter { uid, after });
                    }
                    if changed {
                        acts.push(WidgetAction::Notify { uid, index: i });
                    }
                    assert(acts@ =~= before + step_actions(m, i as int, rem_before));
                },
                None => {
                    if i == 0 {
                        acts.push(WidgetAction::Prepend { uid, index: 0 });
                    } else {
                        let after = model[i - 1].uid;
                        acts.push(WidgetAction::InsertAfter { uid, index: i, after });
                    }
                    assert(acts@ =~= before + step_actions(m, i as int, rem_before));
                },
            }
        }
        assert(rem@ == step_rest(m, i as int, rem_before));
        assert(actions_from(m, i as int, rem_before) == step_actions(m, i as int, rem_before)
            + actions_from(m, i + 1, rem@));
        assert(acts@ + actions_from(m, i + 1, rem@) =~= before + actions_from(
            m,
            i as int,
            rem_before,
        ));
        i += 1;
    }
    let ghost loop_acts = acts@;
    assert(acts@ == actions_from(m, 0, r0));
    let mut k: usize = first;
    while k < model.len()
        invariant
            m == model@,
            first <= k <= model.len(),
            first == first_change_from(m, 0, r0),
            acts@ == loop_acts + position_updates(m, first as int).take(k - first),
        decreases model.len() - k,
    {
        let uid = model[k].uid;
        acts.push(WidgetAction::UpdatePosition { uid, index: k });
        k += 1;
        assert(acts@ =~= loop_acts + position_updates(m, first as int).take(k - first));
    }
    assert(position_updates(m, first as int).take(k - first) =~= position_updates(
        m,
        first as int,
    ));
    acts
}

/// The step of an element that changed and still has its widget among the
/// remaining rendered ones notifies it.
proof fn lemma_step_notifies(m: Seq<ModelStateValue>, i: int, rem: Seq<usize>)
    requires
        0 <= i < m.len(),
        m[i].changed,
        rem.contains(m[i].uid),
    ensures
        step_actions(m, i, rem).contains(
            WidgetAction::Notify { uid: m[i].uid, index: i as usize },
        ),
{
    let n = WidgetAction::Notify { uid: m[i].uid, index: i as usize };
    let step = step_actions(m, i, rem);
    assert(notification(m, i) =~= seq![n]);
    if keeps_front(m, i, rem) {
        assert(step == notification(m, i));
        assert(step[0] == n);
    } else {
        assert(step == seq![relocation(m, i)] + notification(m, i));
        assert(step[1] == n);
    }
}

/// Visiting another element keeps `u` among the remaining rendered ones.
proof fn lemma_step_keeps_other(m: Seq<ModelStateValue>, i: int, rem: Seq<usize>, u: usize)
    requires
        0 <= i < m.len(),
        rem.contains(u),
        m[i].uid != u,
    ensures
        step_rest(m, i, rem).contains(u),
{
    let j = choose|j: int| 0 <= j < rem.len() && rem[j] == u;
    if keeps_front(m, i, rem) {
        assert(rem.drop_first()[j - 1] == u);
    } else if rem.contains(m[i].uid) {
        let x = rem.index_of(m[i].uid);
        let removed = rem.remove(x);
        if j < x {
            assert(removed[j] == u);
        } else {
            assert(removed[j - 1] == u);
        }
    }
}

/// An element still to be visited keeps its widget among the remaining
/// rendered ones until its own step, and that step notifies it when it
/// changed.
proof fn lemma_notify_from(m: Seq<ModelStateValue>, start: int, rem: Seq<usize>, i: int)
    requires
        uids(m).no_duplicates(),
        0 <= start <= i < m.len(),
        m[i].changed,
        rem.contains(m[i].uid),
    ensures
        actions_from(m, start, rem).contains(
            WidgetAction::Notify { uid: m[i].uid, index: i as usize },
        ),
    decreases m.len() - start,
{
    let n = WidgetAction::Notify { uid: m[i].uid, index: i as usize };
    let step = step_actions(m, start, rem);
    let rest = actions_from(m, start + 1, step_rest(m, start, rem));
    assert(actions_from(m, start, rem) == step + rest);
    if start == i {
        lemma_step_notifies(m, i, rem);
        let k = choose|k: int| 0 <= k < step.len() && step[k] == n;
        assert((step + rest)[k] == n);
    } else {
        assert(m[start].uid != m[i].uid) by {
            assert(uids(m)[start] == m[start].uid);
            assert(uids(m)[i] == m[i].uid);
        }
        lemma_step_keeps_other(m, start, rem, m[i].uid);
        lemma_notify_from(m, start + 1, step_rest(m, start, rem), i);
        let k = choose|k: int| 0 <= k < rest.len() && rest[k] == n;
        assert((step + rest)[step.len() + k] == n);
    }
}

/// A render tells every element that changed and already had a widget that
/// its model changed, at its position, whether its widget stays in place
/// or is moved.
pub proof fn lemma_plan_notifies_changed(m: Seq<ModelStateValue>, rendered: Seq<usize>, i: int)
    requires
        uids(m).no_duplicates(),
        0 <= i < m.len(),
        m[i].changed,
        rendered.contains(m[i].uid),
    ensures
        render_plan(m, rendered).contains(
            WidgetAction::Notify { uid: m[i].uid, index: i as usize },
        ),
{
    let n = WidgetAction::Notify { uid: m[i].uid, index: i as usize };
    lemma_notify_from(m, 0, rendered, i);
    let acts = actions_from(m, 0, rendered);
    let ups = position_updates(m, first_change_from(m, 0, rendered));
    let k = choose|k: int| 0 <= k < acts.len() && acts[k] == n;
    assert((acts + ups)[k] == n);
}

/// The position an action tells of a changed model, if it is a notification.
pub open spec fn notified_index(a: WidgetAction) -> Option<usize> {
    match a {
        WidgetAction::Notify { index, .. } => Some(index),
        _ => None,
    }
}

/// The notifications of the steps from `start` on name positions from
/// `start` on, in strictly increasing order.
proof fn lemma_notifications_increase(m: Seq<ModelStateValue>, start: int, rem: Seq<usize>)
    requires
        0 <= start <= m.len(),
        m.len() <= usize::MAX,
    ensures
        forall|k: int|
            0 <= k < actions_from(m, start, rem).len() && (#[trigger] notified_index(
                actions_from(m, start, rem)[k],
            )) is Some ==> start <= notified_index(actions_from(m, start, rem)[k])->0 < m.len(),
        forall|k1: int, k2: int|
            0 <= k1 < k2 < actions_from(m, start, rem).len() && (#[trigger] notified_index(
                actions_from(m, start, rem)[k1],
            )) is Some && (#[trigger] notified_index(actions_from(m, start, rem)[k2])) is Some
                ==> notified_index(actions_from(m, start, rem)[k1])->0 < notified_index(
                actions_from(m, start, rem)[k2],
            )->0,
    decreases m.len() - start,
{
    if start < m.len() {
        let step = step_actions(m, start, rem);
        let next = step_rest(m, start, rem);
        let rest = actions_from(m, start + 1, next);
        let acts = actions_from(m, start, rem);
        assert(acts == step + rest);
        lemma_notifications_increase(m, start + 1, next);
        // A step holds at most one notification, for its own element, and
        // it is the step's last action.
        assert forall|k: int|
            0 <= k < step.len() && (#[trigger] notified_index(step[k])) is Some implies notified_index(
            step[k],
        )->0 == start && k == step.len() - 1 by {
            if keeps_front(m, start, rem) {
                assert(step == notification(m, start));
            } else if rem.contains(m[start].uid) {
                assert(step == seq![relocation(m, start)] + notification(m, start));
                if k == 0 {
                    assert(step[0] == relocation(m, start));
                } else {
                    assert(step[k] == notification(m, start)[k - 1]);
                }
            } else {
                assert(step == seq![placement(m, start)]);
            }
        }
        assert forall|k: int|
            0 <= k < acts.len() && (#[trigger] notified_index(acts[k])) is Some implies start
            <= notified_index(acts[k])->0 < m.len() by {
            if k < step.len() {
                assert(acts[k] == step[k]);
            } else {
                assert(acts[k] == rest[k - step.len()]);
            }
        }
        assert forall|k1: int, k2: int|
            0 <= k1 < k2 < acts.len() && (#[trigger] notified_index(acts[k1])) is Some && (
            #[trigger] notified_index(acts[k2])) is Some implies notified_index(acts[k1])->0
            < notified_index(acts[k2])->0 by {
            if k2 < step.len() {
                assert(acts[k1] == step[k1]);
                assert(acts[k2] == step[k2]);
            } else if k1 < step.len() {
                assert(acts[k1] == step[k1]);
                assert(acts[k2] == rest[k2 - step.len()]);
            } else {
                assert(acts[k1] == rest[k1 - step.len()]);
                assert(acts[k2] == rest[k2 - step.len()]);
            }
        }
    }
}

/// A render notifies each element at most once: the notifications of a
/// plan name strictly increasing positions.
pub proof fn lemma_plan_notifies_each_once(m: Seq<ModelStateValue>, rendered: Seq<usize>)
    requires
        m.len() <= usize::MAX,
    ensures
        forall|k1: int, k2: int|
            0 <= k1 < k2 < render_plan(m, rendered).len() && (#[trigger] notified_index(
                render_plan(m, rendered)[k1],
            )) is Some && (#[trigger] notified_index(render_plan(m, rendered)[k2])) is Some
                ==> notified_index(render_plan(m, rendered)[k1])->0 < notified_index(
                render_plan(m, rendered)[k2],
            )->0,
{
    lemma_notifications_increase(m, 0, rendered);
    let acts = actions_from(m, 0, rendered);
    let ups = position_updates(m, first_change_from(m, 0, rendered));
    let plan = render_plan(m, rendered);
    assert(plan == acts + ups);
    assert forall|k1: int, k2: int|
        0 <= k1 < k2 < plan.len() && (#[trigger] notified_index(plan[k1])) is Some && (
        #[trigger] notified_index(plan[k2])) is Some implies notified_index(plan[k1])->0
        < notified_index(plan[k2])->0 by {
        if k2 >= acts.len() {
            assert(plan[k2] == ups[k2 - acts.len()]);
        }
        if k1 >= acts.len() {
            assert(plan[k1] == ups[k1 - acts.len()]);
        }
        assert(plan[k1] == acts[k1]);
        assert(plan[k2] == acts[k2]);
    }
}

} // verus!
