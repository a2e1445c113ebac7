//! Subscribers that are notified when shared data changes.
use crate::channel::ChannelSender;
use crate::retention::retain_kept;
use core::marker::PhantomData;
use vstd::prelude::*;

verus! {

/// Something that wants to hear about every change of some shared data.
pub trait Subscriber<Data> {
    /// Notifies the subscriber of the current data.
    ///
    /// Returns `false` once the subscriber is gone for good (for instance
    /// because the receiver of its channel was dropped); it is then removed.
    fn notify(&self, data: &Data) -> bool;
}

/// Notifies every subscriber of `subscribers` in order and keeps those
/// whose notification returned `true`.  Returns the kept subscribers and
/// the outcome of each notification.
pub fn notify_and_retain<Data, S: Subscriber<Data>>(subscribers: Vec<S>, data: &Data) -> (r: (
    Vec<S>,
    Vec<bool>,
))
    ensures
        r.1@.len() == subscribers@.len(),
        r.0@ == retain_kept(subscribers@, r.1@),
        forall|i: int|
            0 <= i < subscribers@.len() ==> call_ensures(
                S::notify,
                (&subscribers@[i], data),
                #[trigger] r.1@[i],
            ),
{
    let ghost initial = subscribers@;
    assert(initial.len() == subscribers.len());
    let mut rest = subscribers;
    let mut out: Vec<S> = Vec::new();
    let mut kept: Vec<bool> = Vec::new();
    let mut i: usize = 0;
    while rest.len() > 0
        invariant
            i + rest@.len() == initial.len(),
            initial.len() <= usize::MAX,
            rest@ == initial.skip(i as int),
            kept@.len() == i,
            out@ == retain_kept(initial.take(i as int), kept@),
            forall|j: int| 0 <= j < i ==> call_ensures(S::notify, (&initial[j], data), #[trigger] kept@[j]),
        decreases rest@.len(),
    {
        let ghost kept0 = kept@;
        let ghost out0 = out@;
        let s = rest.remove(0);
        let keep = s.notify(data);
        let ghost prefix = initial.take(i as int + 1);
        assert(prefix.drop_last() =~= initial.take(i as int));
        assert(prefix.last() == s);
        assert(initial[i as int] == s);
        kept.push(keep);
        assert(kept@.drop_last() =~= kept0);
        if keep {
            out.push(s);
        }
        assert(out@ == retain_kept(prefix, kept@));
        i = i + 1;
        assert(rest@ =~= initial.skip(i as int));
    }
    assert(initial.take(i as int) =~= initial);
    (out, kept)
}

/// Notifies every subscriber of `subscribers` in order and keeps all of them,
/// whatever their notification returned.
pub fn notify_all<Data, S: Subscriber<Data>>(subscribers: &Vec<S>, data: &Data)
    ensures
        exists|outcomes: Seq<bool>|
            outcomes.len() == subscribers@.len() && forall|i: int|
                0 <= i < subscribers@.len() ==> call_ensures(
                    S::notify,
                    (&subscribers@[i], data),
                    #[trigger] outcomes[i],
                ),
{
    let ghost mut outcomes: Seq<bool> = Seq::empty();
    let mut i: usize = 0;
    while i < subscribers.len()
        invariant
            i <= subscribers.len(),
            outcomes.len() == i,
            forall|j: int|
                0 <= j < i ==> call_ensures(S::notify, (&subscribers@[j], data), #[trigger] outcomes[j]),
        decreases subscribers.len() - i,
    {
        let outcome = subscribers[i].notify(data);
        proof {
            outcomes = outcomes.push(outcome);
        }
        i = i + 1;
    }
    assert(outcomes.len() == subscribers@.len());
}

/// A subscriber that sends a message made from the data on every change.
#[verifier::reject_recursive_types(Data)]
#[verifier::reject_recursive_types(Msg)]
pub struct SenderSubscriber<Data, Msg, F: Fn(&Data) -> Msg> {
    sender: ChannelSender<Msg>,
    map: F,
    _data: PhantomData<Data>,
}

impl<Data, Msg, F: Fn(&Data) -> Msg> SenderSubscriber<Data, Msg, F> {
    #[verifier::type_invariant]
    spec fn callable(self) -> bool {
        forall|d: &Data| call_requires(self.map, (d,))
    }

    /// The function that makes the messages.
    pub closed spec fn map_fn(&self) -> F {
        self.map
    }

    /// Creates a subscriber that sends `map(data)` through a clone of `sender`.
    pub fn new(sender: &ChannelSender<Msg>, map: F) -> (r: Self)
        requires
            forall|d: &Data| call_requires(map, (d,)),
        ensures
            r.map_fn() == map,
    {
        SenderSubscriber { sender: sender.clone(), map, _data: PhantomData }
    }
}

impl<Data, Msg, F: Fn(&Data) -> Msg> Subscriber<Data> for SenderSubscriber<Data, Msg, F> {
    /// Sends `map(data)`; the subscriber stays as long as the send succeeds.
    fn notify(&self, data: &Data) -> bool {
        proof {
            use_type_invariant(self);
        }
        let msg = (self.map)(data);
        self.sender.send(msg).is_ok()
    }
}

/// A subscriber that only sends a message when its function returns [`Some`].
#[verifier::reject_recursive_types(Data)]
#[verifier::reject_recursive_types(Msg)]
pub struct OptionalSubscriber<Data, Msg, F: Fn(&Data) -> Option<Msg>> {
    sender: ChannelSender<Msg>,
    map: F,
    _data: PhantomData<Data>,
}

impl<Data, Msg, F: Fn(&Data) -> Option<Msg>> OptionalSubscriber<Data, Msg, F> {
    #[verifier::type_invariant]
    spec fn callable(self) -> bool {
        forall|d: &Data| call_requires(self.map, (d,))
    }

    /// The function that makes the messages.
    pub closed spec fn map_fn(&self) -> F {
        self.map
    }

    /// Creates a subscriber that sends the message `map(data)` returns, if any,
    /// through a clone of `sender`.
    pub fn new(sender: &ChannelSender<Msg>, map: F) -> (r: Self)
        requires
            forall|d: &Data| call_requires(map, (d,)),
        ensures
            r.map_fn() == map,
    {
        OptionalSubscriber { sender: sender.clone(), map, _data: PhantomData }
    }
}

impl<Data, Msg, F: Fn(&Data) -> Option<Msg>> Subscriber<Data> for OptionalSubscriber<Data, Msg, F> {
    /// Sends the message if there is one; without a message the subscriber
    /// always stays.
    fn notify(&self, data: &Data) -> (keep: bool)
        ensures
            (forall|m: Option<Msg>| call_ensures(self.map_fn(), (data,), m) ==> m is None) ==> keep,
            !keep ==> exists|m: Msg| call_ensures(self.map_fn(), (data,), Some(m)),
    {
        proof {
            use_type_invariant(self);
            assert(self.map_fn() == self.map);
        }
        match (self.map)(data) {
            Some(msg) => self.sender.send(msg).is_ok(),
            None => true,
        }
    }
}

} // verus!
