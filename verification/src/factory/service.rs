//! The decisions of the service that runs a launched factory component.
//!
//! The service waits for the next event (an input, a command output, an
//! external update of the model, or the shutdown of the component) and hands
//! it to [`handle_event`]; [`forward_output`] gives the message that an
//! output of the component becomes for the parent.
use crate::channel::ChannelSender;
use crate::factory::sync::traits::FactoryComponent;
use crate::sender::FactoryComponentSender;
use vstd::prelude::*;

verus! {

/// Something that happened to a running factory component.
pub enum ServiceEvent<Input, Cmd> {
    /// An input message arrived.
    Input(Input),
    /// A background command produced an output.
    Command(Cmd),
    /// The model was changed from outside and the view must catch up.
    Notify,
    /// The root widget was destroyed and the component shuts down.
    Shutdown,
}

/// What the service does after an event.
#[derive(PartialEq, Eq, Structural, Clone, Copy, Debug)]
pub enum ServiceStep {
    /// Waits for the next event.
    Continue,
    /// Stops the service.
    Stop,
}

/// The step that follows an event: only the shutdown stops the service.
pub open spec fn step_after<Input, Cmd>(event: ServiceEvent<Input, Cmd>) -> ServiceStep {
    match event {
        ServiceEvent::Shutdown => ServiceStep::Stop,
        _ => ServiceStep::Continue,
    }
}

/// Updates the model with an input and then the view.
pub fn update_with_view<C: FactoryComponent>(
    model: &mut C,
    widgets: &mut C::Widgets,
    message: C::Input,
    sender: &FactoryComponentSender<C>,
)
    ensures
        exists|m: &mut C, w: &mut C::Widgets|
            *m == *old(model) && *final(m) == *final(model) && *w == *old(widgets) && *final(w)
                == *final(widgets) && call_ensures(C::update, (m, message, *sender), ())
                && call_ensures(C::update_view, (&*final(model), w, *sender), ()),
{
    model.update(message, sender.clone());
    model.update_view(widgets, sender.clone());
}

/// Updates the model with a command output and then the view.
pub fn update_cmd_with_view<C: FactoryComponent>(
    model: &mut C,
    widgets: &mut C::Widgets,
    message: C::CommandOutput,
    sender: &FactoryComponentSender<C>,
)
    ensures
        exists|m: &mut C, w: &mut C::Widgets|
            *m == *old(model) && *final(m) == *final(model) && *w == *old(widgets) && *final(w)
                == *final(widgets) && call_ensures(C::update_cmd, (m, message, *sender), ())
                && call_ensures(C::update_view, (&*final(model), w, *sender), ()),
{
    model.update_cmd(message, sender.clone());
    model.update_view(widgets, sender.clone());
}

/// Handles one event of a running factory component and says whether the
/// service goes on.
///
/// An input runs [`FactoryComponent::update`] and then
/// [`FactoryComponent::update_view`]; a command output runs
/// [`FactoryComponent::update_cmd`] and then the view update; an external
/// change of the model only updates the view; a shutdown runs
/// [`FactoryComponent::shutdown`] with `output` and stops.
pub fn handle_event<C: FactoryComponent>(
    model: &mut C,
    widgets: &mut C::Widgets,
    event: ServiceEvent<C::Input, C::CommandOutput>,
    sender: &FactoryComponentSender<C>,
    output: &ChannelSender<C::Output>,
) -> (step: ServiceStep)
    ensures
        step == step_after(event),
        match event {
            ServiceEvent::Input(message) => exists|m: &mut C, w: &mut C::Widgets|
                *m == *old(model) && *final(m) == *final(model) && *w == *old(widgets) && *final(w)
                    == *final(widgets) && call_ensures(C::update, (m, message, *sender), ())
                    && call_ensures(C::update_view, (&*final(model), w, *sender), ()),
            ServiceEvent::Command(message) => exists|m: &mut C, w: &mut C::Widgets|
                *m == *old(model) && *final(m) == *final(model) && *w == *old(widgets) && *final(w)
                    == *final(widgets) && call_ensures(C::update_cmd, (m, message, *sender), ())
                    && call_ensures(C::update_view, (&*final(model), w, *sender), ()),
            ServiceEvent::Notify => *final(model) == *old(model) && exists|w: &mut C::Widgets|
                *w == *old(widgets) && *final(w) == *final(widgets) && call_ensures(
                    C::update_view,
                    (&*old(model), w, *sender),
                    (),
                ),
            ServiceEvent::Shutdown => exists|m: &mut C, w: &mut C::Widgets|
                *m == *old(model) && *final(m) == *final(model) && *w == *old(widgets) && *final(w)
                    == *final(widgets) && call_ensures(C::shutdown, (m, w, *output), ()),
        },
{
    match event {
        ServiceEvent::Input(message) => {
            update_with_view(model, widgets, message, sender);
            ServiceStep::Continue
        },
        ServiceEvent::Command(message) => {
            update_cmd_with_view(model, widgets, message, sender);
            ServiceStep::Continue
        },
        ServiceEvent::Notify => {
            model.update_view(widgets, sender.clone());
            ServiceStep::Continue
        },
        ServiceEvent::Shutdown => {
            model.shutdown(widgets, output.clone());
            ServiceStep::Stop
        },
    }
}

/// The message that forwarding one output of a component hands to the
/// parent: the transformed output, when the transformation gives one.
/// Forwarding stops once sending such a message fails, because the parent's
/// receiver is gone.
pub fn forward_output<Out, P, F: Fn(Out) -> Option<P>>(transform: &F, message: Out) -> (r: Option<P>)
    requires
        call_requires(*transform, (message,)),
    ensures
        call_ensures(*transform, (message,), r),
{
    transform(message)
}

/// Forwards one output of a component to its parent: the output is
/// transformed and, when that gives a message, sent through `parent`.
///
/// The service goes on when there is nothing to send or the send
/// succeeded; it stops once a send fails because the parent's receiver is
/// gone.
pub fn forward_to_parent<Out, P, F: Fn(Out) -> Option<P>>(
    transform: &F,
    message: Out,
    parent: &ChannelSender<P>,
) -> (step: ServiceStep)
    requires
        call_requires(*transform, (message,)),
    ensures
        exists|m: Option<P>|
            call_ensures(*transform, (message,), m) && (m is None ==> step == ServiceStep::Continue),
{
    match forward_output(transform, message) {
        Some(m) => match parent.send(m) {
            Ok(()) => ServiceStep::Continue,
            Err(_) => ServiceStep::Stop,
        },
        None => ServiceStep::Continue,
    }
}

/// What the service of an asynchronous factory component awaits or runs
/// for an event.
pub enum AsyncServiceAction<Input, Cmd> {
    /// Await `update_with_view` with the input.
    UpdateWithView(Input),
    /// Await `update_cmd_with_view` with the command output.
    UpdateCmdWithView(Cmd),
    /// Run `update_view`, as the model was changed from outside.
    UpdateView,
    /// Run `shutdown` with the output sender.
    Shutdown,
}

/// The action an asynchronous component's service takes for an event.
pub open spec fn async_action_for<Input, Cmd>(event: ServiceEvent<Input, Cmd>) -> AsyncServiceAction<
    Input,
    Cmd,
> {
    match event {
        ServiceEvent::Input(m) => AsyncServiceAction::UpdateWithView(m),
        ServiceEvent::Command(m) => AsyncServiceAction::UpdateCmdWithView(m),
        ServiceEvent::Notify => AsyncServiceAction::UpdateView,
        ServiceEvent::Shutdown => AsyncServiceAction::Shutdown,
    }
}

/// Decides the next step of the service of an asynchronous factory
/// component: the action to perform for `event` (the caller awaits the
/// updates it names) and whether the service goes on afterwards.
pub fn async_service_step<Input, Cmd>(event: ServiceEvent<Input, Cmd>) -> (r: (
    AsyncServiceAction<Input, Cmd>,
    ServiceStep,
))
    ensures
        r.0 == async_action_for(event),
        r.1 == step_after(event),
{
    match event {
        ServiceEvent::Input(m) => (AsyncServiceAction::UpdateWithView(m), ServiceStep::Continue),
        ServiceEvent::Command(m) => (AsyncServiceAction::UpdateCmdWithView(m), ServiceStep::Continue),
        ServiceEvent::Notify => (AsyncServiceAction::UpdateView, ServiceStep::Continue),
        ServiceEvent::Shutdown => (AsyncServiceAction::Shutdown, ServiceStep::Stop),
    }
}

} // verus!
