//! Data that is changed by messages and announces its changes.
use crate::shared_state::subscriber::Subscriber;
use crate::shared_state::subscriber::notify_all;
use vstd::prelude::*;

verus! {

/// A type whose values are changed by input messages.
pub trait Reducible: Sized {
    /// The input message type used to modify the data.
    type Input;

    /// Initializes the data.
    fn init() -> Self;

    /// Processes the input message and updates the state.
    ///
    /// Returns `true` when the subscribers should be notified, `false`
    /// when the message had no noteworthy effect.
    fn reduce(&mut self, input: Self::Input) -> bool;
}

/// The data of a reducer together with its subscribers.
///
/// The messages reach the reducer through a channel; the task that receives
/// them hands each one to [`ReducerState::handle_input`].
pub struct ReducerState<Data, S> {
    data: Data,
    subscribers: Vec<S>,
}

impl<Data, S> ReducerState<Data, S> {
    /// The current data.
    pub closed spec fn data(&self) -> Data {
        self.data
    }

    /// The subscribers, in the order they subscribed.
    pub closed spec fn subscribers(&self) -> Seq<S> {
        self.subscribers@
    }
}

impl<Data: Reducible, S: Subscriber<Data>> ReducerState<Data, S> {
    /// Initializes the data with [`Reducible::init`]; there are no
    /// subscribers yet.
    pub fn new() -> (r: Self)
        ensures
            call_ensures(Data::init, (), r.data()),
            r.subscribers() == Seq::<S>::empty(),
    {
        ReducerState { data: Data::init(), subscribers: Vec::new() }
    }

    /// Adds a subscriber; it is notified after every change from now on.
    pub fn subscribe(&mut self, subscriber: S)
        ensures
            final(self).data() == old(self).data(),
            final(self).subscribers() == old(self).subscribers().push(subscriber),
    {
        self.subscribers.push(subscriber);
    }

    /// Reduces one input message with [`Reducible::reduce`], which changes the
    /// data and says whether to notify.  When it asks for it, every subscriber
    /// is notified of the new data, in order; all of them stay subscribed.
    /// Returns what the reduction returned.
    pub fn handle_input(&mut self, input: Data::Input) -> (notified: bool)
        ensures
            exists|d: &mut Data|
                *d == old(self).data() && *final(d) == final(self).data() && call_ensures(
                    Data::reduce,
                    (d, input),
                    notified,
                ),
            final(self).subscribers() == old(self).subscribers(),
            notified ==> exists|outcomes: Seq<bool>|
                outcomes.len() == old(self).subscribers().len() && forall|i: int|
                    0 <= i < outcomes.len() ==> call_ensures(
                        S::notify,
                        (&old(self).subscribers()[i], &final(self).data()),
                        #[trigger] outcomes[i],
                    ),
    {
        let notified = self.data.reduce(input);
        if notified {
            notify_all(&self.subscribers, &self.data);
        }
        notified
    }
}

} // verus!
