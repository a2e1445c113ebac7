//! Channels between components.
use vstd::prelude::*;

verus! {

/// The sending half of an unbounded multi-producer channel.
#[verifier::external_type_specification]
#[verifier::external_body]
#[verifier::reject_recursive_types(T)]
pub struct ExFlumeSender<T>(flume::Sender<T>);

/// The receiving half of an unbounded multi-producer channel.
#[verifier::external_type_specification]
#[verifier::external_body]
#[verifier::reject_recursive_types(T)]
pub struct ExFlumeReceiver<T>(flume::Receiver<T>);

/// Calls `flume::unbounded`, which creates a channel with no capacity limit.
/// Nothing is claimed of the two halves.
#[verifier::external_body]
fn flume_unbounded<T>() -> (flume::Sender<T>, flume::Receiver<T>) {
    flume::unbounded()
}

/// Calls `flume::Sender::send`.  Claims that on failure (every receiver is
/// gone) the message comes back unchanged, as `SendError` holds it; whether
/// the send succeeds depends on the receivers and is not claimed.
#[verifier::external_body]
fn flume_send<T>(sender: &flume::Sender<T>, msg: T) -> (r: Result<(), T>)
    ensures
        r matches Err(m) ==> m == msg,
{
    sender.send(msg).map_err(|e| e.0)
}

/// Calls `flume::Sender::clone`, which makes another handle to the same
/// shared channel (it clones the `Arc` of the channel and counts one more
/// sender).  Claims that the result is the same sender value, as vstd states
/// of `Arc::clone`.
#[verifier::external_body]
fn flume_sender_clone<T>(sender: &flume::Sender<T>) -> (r: flume::Sender<T>)
    ensures
        r == *sender,
{
    sender.clone()
}

/// Calls `flume::Receiver::recv`, which blocks until a message arrives and
/// fails once every sender is gone and the channel is empty.  The error is
/// mapped to [`None`]; which message arrives is not claimed.
#[verifier::external_body]
fn flume_recv<T>(receiver: &flume::Receiver<T>) -> Option<T> {
    receiver.recv().ok()
}

/// Calls `flume::Receiver::try_recv`, which takes a message without
/// blocking.  Errors (empty or disconnected) are mapped to [`None`].
#[verifier::external_body]
fn flume_try_recv<T>(receiver: &flume::Receiver<T>) -> Option<T> {
    receiver.try_recv().ok()
}

/// A sender used to send messages to components.
#[verifier::reject_recursive_types(T)]
pub struct ChannelSender<T> {
    inner: flume::Sender<T>,
}

/// A receiver used to receive messages of components.
///
/// It remembers the sender it was created with: the messages it receives
/// are those sent through that sender and its clones.
#[verifier::reject_recursive_types(T)]
pub struct ChannelReceiver<T> {
    inner: flume::Receiver<T>,
    paired: Ghost<ChannelSender<T>>,
}

/// Creates an unbounded channel.  The receiver is paired with the sender.
pub fn channel<T>() -> (r: (ChannelSender<T>, ChannelReceiver<T>))
    ensures
        r.1.sender_end() == r.0,
{
    let (tx, rx) = flume_unbounded();
    let sender = ChannelSender { inner: tx };
    let receiver = ChannelReceiver { inner: rx, paired: Ghost(sender) };
    (sender, receiver)
}

impl<T> ChannelSender<T> {
    /// Sends a message; on failure (every receiver is gone) the message is
    /// returned.
    pub fn send(&self, message: T) -> (r: Result<(), T>)
        ensures
            r matches Err(m) ==> m == message,
    {
        flume_send(&self.inner, message)
    }

    /// Sends a message and ignores a failure.
    pub fn emit(&self, message: T) {
        let _ = self.send(message);
    }
}

impl<T> Clone for ChannelSender<T> {
    fn clone(&self) -> (r: Self)
        ensures
            r == *self,
    {
        ChannelSender { inner: flume_sender_clone(&self.inner) }
    }
}

impl<T> ChannelReceiver<T> {
    /// The sender this receiver was created with.
    pub closed spec fn sender_end(&self) -> ChannelSender<T> {
        self.paired@
    }

    /// Blocks until a message arrives; [`None`] once every sender is gone.
    pub fn recv_sync(&self) -> Option<T> {
        flume_recv(&self.inner)
    }

    /// Takes a message if one is queued.
    pub fn try_recv(&self) -> Option<T> {
        flume_try_recv(&self.inner)
    }

    /// The underlying receiver.
    pub closed spec fn receiver(&self) -> flume::Receiver<T> {
        self.inner
    }

    /// The underlying receiver, for asynchronous receiving.
    pub fn into_inner(self) -> (r: flume::Receiver<T>)
        ensures
            r == self.receiver(),
    {
        self.inner
    }
}

} // verus!
