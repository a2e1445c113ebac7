//! Senders of components and factory components.
use crate::channel::ChannelSender;
use crate::component::Component;
use crate::factory::sync::traits::FactoryComponent;
use crate::shutdown::ShutdownReceiver;
use std::future::Future;
use std::sync::Arc;
use vstd::prelude::*;

verus! {

/// A handle to the runtime on which commands run.
#[verifier::external_type_specification]
#[verifier::external_body]
pub struct ExRuntimeHandle(tokio::runtime::Handle);

/// Calls `tokio::runtime::Handle::spawn` with a task that, when first
/// polled, applies `cmd` to `sender` and `shutdown` and then awaits the
/// future it returns (`futures::future::lazy` and `flatten` make that task),
/// so the command runs wholly on the runtime.  Nothing is claimed.
#[verifier::external_body]
fn spawn_command<A, B, Cmd, Fut>(rt: &tokio::runtime::Handle, cmd: Cmd, sender: A, shutdown: B) where
    Cmd: FnOnce(A, B) -> Fut + Send + 'static,
    Fut: Future<Output = ()> + Send + 'static,
    A: Send + 'static,
    B: Send + 'static,
 {
    let task = futures::future::lazy(move |_| cmd(sender, shutdown));
    let _ = rt.spawn(futures::future::FutureExt::flatten(task));
}

/// Calls `tokio::runtime::Handle::spawn_blocking` with a closure that
/// applies `cmd` to `arg` on a thread of the blocking pool.  Nothing is
/// claimed.
#[verifier::external_body]
fn spawn_blocking_with<A, Cmd>(rt: &tokio::runtime::Handle, cmd: Cmd, arg: A) where
    Cmd: FnOnce(A) + Send + 'static,
    A: Send + 'static,
 {
    let _ = rt.spawn_blocking(move || cmd(arg));
}

/// The senders used by a component.
#[verifier::reject_recursive_types(Input)]
#[verifier::reject_recursive_types(Output)]
#[verifier::reject_recursive_types(Cmd)]
struct ComponentSenderInner<Input, Output, Cmd> {
    command: ChannelSender<Cmd>,
    input: ChannelSender<Input>,
    output: ChannelSender<Output>,
    shutdown: ShutdownReceiver,
    runtime: tokio::runtime::Handle,
}

impl<Input, Output, CommandOutput: Send + 'static> ComponentSenderInner<Input, Output, CommandOutput> {
    /// Runs an asynchronous command with the command sender and a shutdown receiver.
    fn command<Cmd, Fut>(&self, cmd: Cmd) where
        Cmd: FnOnce(ChannelSender<CommandOutput>, ShutdownReceiver) -> Fut + Send + 'static,
        Fut: Future<Output = ()> + Send + 'static,
     {
        let recipient = self.shutdown.clone();
        let sender = self.command.clone();
        spawn_command(&self.runtime, cmd, sender, recipient);
    }

    /// Runs a synchronous command with the command sender on the blocking pool.
    fn sync_command<Cmd>(&self, cmd: Cmd) where Cmd: FnOnce(ChannelSender<CommandOutput>) + Send + 'static {
        let sender = self.command.clone();
        spawn_blocking_with(&self.runtime, cmd, sender);
    }
}


/// Contains senders to send and receive messages from a [`Component`].
#[verifier::reject_recursive_types(C)]
pub struct ComponentSender<C: Component> {
    shared: Arc<ComponentSenderInner<C::Input, C::Output, C::CommandOutput>>,
}

impl<C: Component> ComponentSender<C> where C::CommandOutput: Send + 'static {
    /// The sender of input messages.
    pub closed spec fn input_channel(&self) -> ChannelSender<C::Input> {
        self.shared.input
    }

    /// The sender of output messages.
    pub closed spec fn output_channel(&self) -> ChannelSender<C::Output> {
        self.shared.output
    }

    /// Bundles the senders of a component; commands run on `runtime`.
    pub fn new(
        input_tx: ChannelSender<C::Input>,
        output_tx: ChannelSender<C::Output>,
        command_tx: ChannelSender<C::CommandOutput>,
        shutdown_tx: ShutdownReceiver,
        runtime: tokio::runtime::Handle,
    ) -> (r: Self)
        ensures
            r.input_channel() == input_tx,
            r.output_channel() == output_tx,
    {
        ComponentSender {
            shared: Arc::new(
                ComponentSenderInner {
                    input: input_tx,
                    output: output_tx,
                    command: command_tx,
                    shutdown: shutdown_tx,
                    runtime,
                },
            ),
        }
    }

    /// Spawns an asynchronous command.  The command receives the command
    /// sender and a receiver of the component's shutdown signal.
    pub fn command<Cmd, Fut>(&self, cmd: Cmd) where
        Cmd: FnOnce(ChannelSender<C::CommandOutput>, ShutdownReceiver) -> Fut + Send + 'static,
        Fut: Future<Output = ()> + Send + 'static,
     {
        self.shared.command(cmd);
    }

    /// Spawns a synchronous command on the blocking pool.
    pub fn sync_command<Cmd>(&self, cmd: Cmd) where
        Cmd: FnOnce(ChannelSender<C::CommandOutput>) + Send + 'static,
     {
        self.shared.sync_command(cmd);
    }

    /// Emits an input to the component.
    pub fn input(&self, message: C::Input) {
        self.shared.input.emit(message);
    }

    /// Retrieves the sender for input messages.
    pub fn input_sender(&self) -> (r: &ChannelSender<C::Input>)
        ensures
            *r == self.input_channel(),
    {
        &self.shared.input
    }

    /// Emits an output of the component.
    pub fn output(&self, message: C::Output) {
        self.shared.output.emit(message);
    }

    /// Retrieves the sender for output messages.
    pub fn output_sender(&self) -> (r: &ChannelSender<C::Output>)
        ensures
            *r == self.output_channel(),
    {
        &self.shared.output
    }

    /// The sender of command outputs and the shutdown receiver, for commands
    /// that are spawned outside this crate.
    pub fn command_parts(&self) -> (ChannelSender<C::CommandOutput>, ShutdownReceiver) {
        (self.shared.command.clone(), self.shared.shutdown.clone())
    }
}

impl<C: Component> Clone for ComponentSender<C> {
    fn clone(&self) -> (r: Self)
        ensures
            r == *self,
    {
        ComponentSender { shared: Arc::clone(&self.shared) }
    }
}

/// Contains senders to send and receive messages from a [`FactoryComponent`].
#[verifier::reject_recursive_types(C)]
pub struct FactoryComponentSender<C: FactoryComponent> {
    shared: Arc<ComponentSenderInner<C::Input, C::Output, C::CommandOutput>>,
}

impl<C: FactoryComponent> FactoryComponentSender<C> where C::CommandOutput: Send + 'static {
    /// The sender of input messages.
    pub closed spec fn input_channel(&self) -> ChannelSender<C::Input> {
        self.shared.input
    }

    /// The sender of output messages.
    pub closed spec fn output_channel(&self) -> ChannelSender<C::Output> {
        self.shared.output
    }

    /// Bundles the senders of a factory component; commands run on `runtime`.
    pub fn new(
        input_tx: ChannelSender<C::Input>,
        output_tx: ChannelSender<C::Output>,
        command_tx: ChannelSender<C::CommandOutput>,
        shutdown_tx: ShutdownReceiver,
        runtime: tokio::runtime::Handle,
    ) -> (r: Self)
        ensures
            r.input_channel() == input_tx,
            r.output_channel() == output_tx,
    {
        FactoryComponentSender {
            shared: Arc::new(
                ComponentSenderInner {
                    input: input_tx,
                    output: output_tx,
                    command: command_tx,
                    shutdown: shutdown_tx,
                    runtime,
                },
            ),
        }
    }

    /// Spawns an asynchronous command.  The command receives the command
    /// sender and a receiver of the component's shutdown signal.
    pub fn command<Cmd, Fut>(&self, cmd: Cmd) where
        Cmd: FnOnce(ChannelSender<C::CommandOutput>, ShutdownReceiver) -> Fut + Send + 'static,
        Fut: Future<Output = ()> + Send + 'static,
     {
        self.shared.command(cmd);
    }

    /// Spawns a synchronous command on the blocking pool.
    pub fn sync_command<Cmd>(&self, cmd: Cmd) where
        Cmd: FnOnce(ChannelSender<C::CommandOutput>) + Send + 'static,
     {
        self.shared.sync_command(cmd);
    }

    /// Emits an input to the factory component.
    pub fn input(&self, message: C::Input) {
        self.shared.input.emit(message);
    }

    /// Retrieves the sender for input messages.
    pub fn input_sender(&self) -> (r: &ChannelSender<C::Input>)
        ensures
            *r == self.input_channel(),
    {
        &self.shared.input
    }

    /// Emits an output of the factory component.
    pub fn output(&self, message: C::Output) {
        self.shared.output.emit(message);
    }

    /// Retrieves the sender for output messages.
    pub fn output_sender(&self) -> (r: &ChannelSender<C::Output>)
        ensures
            *r == self.output_channel(),
    {
        &self.shared.output
    }

    /// The sender of command outputs and the shutdown receiver, for commands
    /// that are spawned outside this crate.
    pub fn command_parts(&self) -> (ChannelSender<C::CommandOutput>, ShutdownReceiver) {
        (self.shared.command.clone(), self.shared.shutdown.clone())
    }
}

impl<C: FactoryComponent> Clone for FactoryComponentSender<C> {
    fn clone(&self) -> (r: Self)
        ensures
            r == *self,
    {
        FactoryComponentSender { shared: Arc::clone(&self.shared) }
    }
}

} // verus!
