//! Data that is changed by messages processed asynchronously.
use crate::shared_state::subscriber::Subscriber;
use crate::shared_state::subscriber::notify_and_retain;
use crate::retention::retain_kept;
use vstd::prelude::*;

verus! {

/// The data of an asynchronous reducer together with its subscribers.
///
/// The task that receives the messages awaits the asynchronous reduction on
/// [`AsyncReducerState::data_mut`] and hands its outcome to
/// [`AsyncReducerState::after_reduce`].
pub struct AsyncReducerState<Data, S> {
    data: Data,
    subscribers: Vec<S>,
}

impl<Data, S> AsyncReducerState<Data, S> {
    /// The current data.
    pub closed spec fn data(&self) -> Data {
        self.data
    }

    /// The subscribers, in the order they subscribed.
    pub closed spec fn subscribers(&self) -> Seq<S> {
        self.subscribers@
    }
}

impl<Data, S: Subscriber<Data>> AsyncReducerState<Data, S> {
    /// Starts from the data produced by the asynchronous initialization;
    /// there are no subscribers yet.
    pub fn new(data: Data) -> (r: Self)
        ensures
            r.data() == data,
            r.subscribers() == Seq::<S>::empty(),
    {
        AsyncReducerState { data, subscribers: Vec::new() }
    }

    /// Adds a subscriber; it is notified after every change from now on.
    pub fn subscribe(&mut self, subscriber: S)
        ensures
            final(self).data() == old(self).data(),
            final(self).subscribers() == old(self).subscribers().push(subscriber),
    {
        self.subscribers.push(subscriber);
    }

    /// Mutable access to the data, for the reduction.
    pub fn data_mut(&mut self) -> (r: &mut Data)
        ensures
            *r == old(self).data(),
            final(self).data() == *final(r),
            final(self).subscribers() == old(self).subscribers(),
    {
        &mut self.data
    }

    /// Acts on the outcome of a reduction: when it asks for it, every
    /// subscriber is notified of the data, in order, and those whose
    /// notification returned `false` are dropped.  Returns the outcome of
    /// each notification, or [`None`] when nobody was notified.
    pub fn after_reduce(&mut self, notify: bool) -> (kept: Option<Vec<bool>>)
        ensures
            final(self).data() == old(self).data(),
            !notify ==> kept is None && final(self).subscribers() == old(self).subscribers(),
            notify ==> (kept matches Some(k) && k@.len() == old(self).subscribers().len()
                && final(self).subscribers() == retain_kept(old(self).subscribers(), k@)
                && forall|i: int|
                0 <= i < k@.len() ==> call_ensures(
                    S::notify,
                    (&old(self).subscribers()[i], &old(self).data()),
                    #[trigger] k@[i],
                )),
    {
        if notify {
            let mut subscribers: Vec<S> = Vec::new();
            std::mem::swap(&mut subscribers, &mut self.subscribers);
            let (remaining, kept) = notify_and_retain(subscribers, &self.data);
            self.subscribers = remaining;
            Some(kept)
        } else {
            None
        }
    }
}

} // verus!
