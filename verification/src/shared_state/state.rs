//! Data shared between components, with subscribers that hear of changes.
use crate::shared_state::subscriber::Subscriber;
use crate::shared_state::subscriber::notify_and_retain;
use crate::retention::retain_kept;
use vstd::prelude::*;

verus! {

/// A value that many parts of an application read and write, and whose
/// subscribers are notified after every write made through
/// [`SharedState::write`].
///
/// Reads and writes go through `&self` and `&mut self`; an application that
/// shares one value between threads puts it behind a lock.
pub struct SharedState<Data, S> {
    data: Data,
    subscribers: Vec<S>,
}

impl<Data, S> SharedState<Data, S> {
    /// The shared value.
    pub closed spec fn data(&self) -> Data {
        self.data
    }

    /// The subscribers, in the order they subscribed.
    pub closed spec fn subscribers(&self) -> Seq<S> {
        self.subscribers@
    }
}

impl<Data: Default, S: Subscriber<Data>> SharedState<Data, S> {
    /// Creates a shared state holding the default value and no subscribers.
    pub fn new() -> (r: Self)
        ensures
            call_ensures(Data::default, (), r.data()),
            r.subscribers() == Seq::<S>::empty(),
    {
        SharedState { data: Data::default(), subscribers: Vec::new() }
    }
}

impl<Data, S: Subscriber<Data>> SharedState<Data, S> {
    /// Adds a subscriber; it is notified after every write from now on.
    pub fn subscribe(&mut self, subscriber: S)
        ensures
            final(self).data() == old(self).data(),
            final(self).subscribers() == old(self).subscribers().push(subscriber),
    {
        self.subscribers.push(subscriber);
    }

    /// Gets immutable access to the shared data.
    pub fn read(&self) -> (r: SharedStateReadGuard<'_, Data>)
        ensures
            r@ == self.data(),
    {
        SharedStateReadGuard { inner: &self.data }
    }

    /// Gets mutable access to the shared data.  The subscribers are
    /// notified when the returned guard is released.
    pub fn write(&mut self) -> (r: SharedStateWriteGuard<'_, Data, S>)
        ensures
            *r.state == *old(self),
            *final(self) == *final(r.state),
    {
        SharedStateWriteGuard { state: self }
    }

    /// Gets mutable access to the shared data without notifying anyone.
    pub fn get_mut(&mut self) -> (r: &mut Data)
        ensures
            *r == old(self).data(),
            final(self).data() == *final(r),
            final(self).subscribers() == old(self).subscribers(),
    {
        &mut self.data
    }

    /// Gets immutable access to the shared data.
    pub fn read_inner(&self) -> (r: &Data)
        ensures
            *r == self.data(),
    {
        &self.data
    }

    /// Gets mutable access to the shared data without notifying anyone.
    pub fn write_inner(&mut self) -> (r: &mut Data)
        ensures
            *r == old(self).data(),
            final(self).data() == *final(r),
            final(self).subscribers() == old(self).subscribers(),
    {
        &mut self.data
    }

    /// Notifies every subscriber, in order, of the current data, and drops
    /// those whose notification returned `false`.  Returns the outcome of
    /// each notification.
    pub fn notify_subscribers(&mut self) -> (kept: Vec<bool>)
        ensures
            kept@.len() == old(self).subscribers().len(),
            final(self).data() == old(self).data(),
            final(self).subscribers() == retain_kept(old(self).subscribers(), kept@),
            forall|i: int|
                0 <= i < old(self).subscribers().len() ==> call_ensures(
                    S::notify,
                    (&old(self).subscribers()[i], &old(self).data()),
                    #[trigger] kept@[i],
                ),
    {
        let mut subscribers: Vec<S> = Vec::new();
        std::mem::swap(&mut subscribers, &mut self.subscribers);
        let (remaining, kept) = notify_and_retain(subscribers, &self.data);
        self.subscribers = remaining;
        kept
    }
}

/// A guard that immutably dereferences the shared data.
pub struct SharedStateReadGuard<'a, Data> {
    inner: &'a Data,
}

impl<'a, Data> View for SharedStateReadGuard<'a, Data> {
    type V = Data;

    closed spec fn view(&self) -> Data {
        *self.inner
    }
}

impl<'a, Data> SharedStateReadGuard<'a, Data> {
    /// The data behind the guard.
    pub fn get(&self) -> (r: &Data)
        ensures
            *r == self@,
    {
        self.inner
    }
}

/// A guard that mutably dereferences the shared data.  Releasing it
/// notifies the subscribers of the state.
pub struct SharedStateWriteGuard<'a, Data, S> {
    /// The state being written.
    pub state: &'a mut SharedState<Data, S>,
}

impl<'a, Data, S: Subscriber<Data>> SharedStateWriteGuard<'a, Data, S> {
    /// The data behind the guard.
    pub fn get(&self) -> (r: &Data)
        ensures
            *r == old(self.state).data(),
    {
        &self.state.data
    }

    /// Replaces the data behind the guard.
    pub fn set(&mut self, data: Data)
        ensures
            final(self).state.data() == data,
            final(self).state.subscribers() == old(self).state.subscribers(),
            *final(final(self).state) == *final(old(self).state),
    {
        self.state.data = data;
    }

    /// Mutable access to the data behind the guard.
    pub fn get_mut(&mut self) -> (r: &mut Data)
        ensures
            *r == old(self).state.data(),
            final(self).state.data() == *final(r),
            final(self).state.subscribers() == old(self).state.subscribers(),
            *final(final(self).state) == *final(old(self).state),
    {
        &mut self.state.data
    }

    /// Releases the guard: every subscriber is notified of the data, in
    /// order, and those whose notification returned `false` are dropped.
    pub fn release(self)
        ensures
            (*final(self.state)).data() == (*old(self.state)).data(),
            exists|kept: Seq<bool>|
                kept.len() == (*old(self.state)).subscribers().len() && (*final(self.state)).subscribers()
                    == retain_kept((*old(self.state)).subscribers(), kept) && forall|i: int|
                    0 <= i < kept.len() ==> call_ensures(
                        S::notify,
                        (&(*old(self.state)).subscribers()[i], &(*old(self.state)).data()),
                        #[trigger] kept[i],
                    ),
    {
        let kept = self.state.notify_subscribers();
        assert(kept@.len() == (*old(self.state)).subscribers().len());
    }
}

} // verus!
