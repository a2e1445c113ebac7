//! Broadcasting shutdown signals to the commands of a component.
use vstd::prelude::*;

verus! {

/// The sending half of a broadcast channel.
#[verifier::external_type_specification]
#[verifier::external_body]
#[verifier::reject_recursive_types(T)]
pub struct ExBroadcastSender<T>(async_broadcast::Sender<T>);

/// The receiving half of a broadcast channel.
#[verifier::external_type_specification]
#[verifier::external_body]
#[verifier::reject_recursive_types(T)]
pub struct ExBroadcastReceiver<T>(async_broadcast::Receiver<T>);

/// Calls `async_broadcast::broadcast`, which creates a channel holding at
/// most `cap` messages; it panics on a capacity of zero, which `requires`
/// leaves out.  Nothing is claimed of the two halves.
#[verifier::external_body]
fn broadcast_pair(cap: usize) -> (async_broadcast::Sender<()>, async_broadcast::Receiver<()>)
    requires
        cap > 0,
{
    async_broadcast::broadcast(cap)
}

/// Calls `async_broadcast::Sender::try_broadcast` and discards the outcome,
/// which depends on the receivers (a full or closed channel is an error).
#[verifier::external_body]
fn broadcast_signal(sender: &async_broadcast::Sender<()>) {
    let _ = sender.try_broadcast(());
}

/// Calls `async_broadcast::Receiver::clone`, which makes another receiver
/// with the same queued signals.  Nothing is claimed of it.
#[verifier::external_body]
fn broadcast_receiver_clone(
    receiver: &async_broadcast::Receiver<()>,
) -> async_broadcast::Receiver<()> {
    receiver.clone()
}

/// Sends shutdown signals to receivers.
pub struct ShutdownSender {
    sender: async_broadcast::Sender<()>,
}

/// Listens for shutdown signals.
pub struct ShutdownReceiver {
    receiver: async_broadcast::Receiver<()>,
}

/// Creates a broadcasting shutdown channel.
///
/// The sending side is responsible for initiating a shutdown.
/// The receiving side is responsible for responding to shutdowns.
/// A single queued signal is enough to shut down, so the channel holds one.
pub fn channel() -> (ShutdownSender, ShutdownReceiver) {
    let (sender, receiver) = broadcast_pair(1);
    (ShutdownSender { sender }, ShutdownReceiver { receiver })
}

impl ShutdownSender {
    /// Broadcasts a shutdown signal to listening receivers.
    pub fn shutdown(&self) {
        broadcast_signal(&self.sender);
    }
}

impl Clone for ShutdownReceiver {
    fn clone(&self) -> Self {
        ShutdownReceiver { receiver: broadcast_receiver_clone(&self.receiver) }
    }
}

impl ShutdownReceiver {
    /// The underlying broadcast receiver.
    pub closed spec fn receiver(&self) -> async_broadcast::Receiver<()> {
        self.receiver
    }

    /// The underlying broadcast receiver, for awaiting the signal.
    pub fn into_inner(self) -> (r: async_broadcast::Receiver<()>)
        ensures
            r == self.receiver(),
    {
        self.receiver
    }
}

} // verus!
