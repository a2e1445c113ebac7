//! Temporary widgets that are shown while an asynchronous initialization
//! runs and removed from their containers afterwards.
use vstd::prelude::*;

verus! {

/// A container widget that children can be removed from.
pub trait RelmRemoveExt {
    /// The type of the children.
    type Child;

    /// Removes `child` from the container.
    fn container_remove(&self, child: &Self::Child);
}

/// One container with the temporary children it holds.
pub struct TempChildren<C: RelmRemoveExt> {
    /// The container.
    pub container: C,
    /// The temporary children of the container.
    pub children: Vec<C::Child>,
}

/// Whether `group` holds a clone of `container` and clones of `children`, in order.
pub open spec fn clones_of<C: RelmRemoveExt + Clone>(
    group: TempChildren<C>,
    container: C,
    children: Seq<C::Child>,
) -> bool where C::Child: Clone {
    &&& cloned(container, group.container)
    &&& group.children@.len() == children.len()
    &&& forall|i: int| 0 <= i < children.len() ==> cloned(children[i], #[trigger] group.children@[i])
}

/// Clones the children of a slice, in order.
fn clone_children<T: Clone>(children: &[T]) -> (r: Vec<T>)
    ensures
        r@.len() == children@.len(),
        forall|i: int| 0 <= i < children@.len() ==> cloned(children@[i], #[trigger] r@[i]),
{
    let mut r: Vec<T> = Vec::new();
    let mut i: usize = 0;
    while i < children.len()
        invariant
            i <= children@.len(),
            r@.len() == i,
            forall|j: int| 0 <= j < i ==> cloned(children@[j], #[trigger] r@[j]),
        decreases children@.len() - i,
    {
        r.push(children[i].clone());
        i = i + 1;
    }
    r
}

/// Whether every child of `group` was removed from the group's container.
pub open spec fn group_removed<C: RelmRemoveExt>(group: TempChildren<C>) -> bool {
    forall|k: int|
        0 <= k < group.children@.len() ==> call_ensures(
            C::container_remove,
            (&group.container, &#[trigger] group.children@[k]),
            (),
        )
}

/// Whether every child of every group was removed from its container.
pub open spec fn groups_removed<C: RelmRemoveExt>(groups: Seq<TempChildren<C>>) -> bool {
    forall|g: int| 0 <= g < groups.len() ==> group_removed(#[trigger] groups[g])
}

/// Removes every child of `group` from its container, in order.
fn remove_group<C: RelmRemoveExt>(group: &TempChildren<C>)
    ensures
        group_removed(*group),
{
    let mut i: usize = 0;
    while i < group.children.len()
        invariant
            i <= group.children@.len(),
            forall|k: int|
                0 <= k < i ==> call_ensures(
                    C::container_remove,
                    (&group.container, &#[trigger] group.children@[k]),
                    (),
                ),
        decreases group.children@.len() - i,
    {
        group.container.container_remove(&group.children[i]);
        i = i + 1;
    }
}

/// Removes the children of every group from their containers, group by group.
pub(crate) fn remove_groups<C: RelmRemoveExt>(groups: &Vec<TempChildren<C>>)
    ensures
        groups_removed(groups@),
{
    let mut i: usize = 0;
    while i < groups.len()
        invariant
            i <= groups@.len(),
            forall|g: int| 0 <= g < i ==> group_removed(#[trigger] groups@[g]),
        decreases groups@.len() - i,
    {
        remove_group(&groups[i]);
        i = i + 1;
    }
}

/// Makes the group of one container and clones of its temporary children.
pub(crate) fn temp_child<C: RelmRemoveExt + Clone>(container: &C, children: &[C::Child]) -> (r: TempChildren<C>) where
    C::Child: Clone,

    ensures
        clones_of(r, *container, children@),
{
    TempChildren { container: container.clone(), children: clone_children(children) }
}

/// Containers with temporary children, which are removed once the
/// asynchronous initialization of the actual widgets is done.
pub struct LoadingWidgets<C: RelmRemoveExt> {
    containers: Vec<TempChildren<C>>,
}

impl<C: RelmRemoveExt> View for LoadingWidgets<C> {
    type V = Seq<TempChildren<C>>;

    closed spec fn view(&self) -> Seq<TempChildren<C>> {
        self.containers@
    }
}

impl<C: RelmRemoveExt + Clone> LoadingWidgets<C> where C::Child: Clone {
    /// Creates loading widgets with one child.
    pub fn new(container: &C, child: C::Child) -> (r: Self)
        ensures
            r@.len() == 1,
            clones_of(r@[0], *container, seq![child]),
    {
        let children = [child];
        proof {
            assert(children@ =~= seq![child]);
        }
        Self::with_children(container, &children)
    }

    /// Creates loading widgets with several children of one container.
    pub fn with_children(container: &C, children: &[C::Child]) -> (r: Self)
        ensures
            r@.len() == 1,
            clones_of(r@[0], *container, children@),
    {
        let temp = temp_child(container, children);
        let mut containers: Vec<TempChildren<C>> = Vec::new();
        containers.push(temp);
        LoadingWidgets { containers }
    }

    /// Adds another temporary child.
    pub fn push(&mut self, container: &C, child: C::Child)
        ensures
            final(self)@.len() == old(self)@.len() + 1,
            final(self)@.take(old(self)@.len() as int) == old(self)@,
            clones_of(final(self)@.last(), *container, seq![child]),
    {
        let children = [child];
        proof {
            assert(children@ =~= seq![child]);
        }
        self.add_many(container, &children);
    }

    /// Adds several temporary children of one container.
    pub fn add_many(&mut self, container: &C, children: &[C::Child])
        ensures
            final(self)@.len() == old(self)@.len() + 1,
            final(self)@.take(old(self)@.len() as int) == old(self)@,
            clones_of(final(self)@.last(), *container, children@),
    {
        let temp = temp_child(container, children);
        self.containers.push(temp);
        proof {
            assert(self.containers@.take(old(self)@.len() as int) =~= old(self)@);
        }
    }
}

impl<C: RelmRemoveExt> LoadingWidgets<C> {
    /// Removes every temporary child from its container, container by
    /// container and each in the order it was added.
    pub fn remove(self)
        ensures
            groups_removed(self@),
    {
        remove_groups(&self.containers);
    }
}

} // verus!

