//! Traits for managing and updating factories.
use crate::factory::widgets::traits::FactoryView;
use crate::factory::widgets::traits::Position;
use crate::sender::FactoryComponentSender;
use crate::channel::ChannelSender;
use vstd::prelude::*;

verus! {

/// A component that's stored inside a factory.
pub trait FactoryComponent: Position<<Self::ParentWidget as FactoryView>::Position, Self::Index> + Sized {
    /// Container widget to which all widgets of the factory will be added.
    type ParentWidget: FactoryView;

    /// Messages which are received from commands executing in the background.
    type CommandOutput;

    /// The message type that the factory component accepts as inputs.
    type Input;

    /// The message type that the factory component provides as outputs.
    type Output;

    /// The parameter used to initialize the factory component.
    type Init;

    /// The top-level widget of the factory component.
    type Root;

    /// The type that's used for storing widgets created for this factory component.
    type Widgets;

    /// The type that's used by a factory collection as index.
    type Index;

    /// Initializes the model.
    fn init_model(init: Self::Init, index: &Self::Index, sender: FactoryComponentSender<Self>) -> Self;

    /// Initializes the root widget.
    fn init_root(&self) -> Self::Root;

    /// Initializes the widgets.
    fn init_widgets(
        &mut self,
        index: &Self::Index,
        root: Self::Root,
        returned_widget: &<Self::ParentWidget as FactoryView>::ReturnedWidget,
        sender: FactoryComponentSender<Self>,
    ) -> Self::Widgets;

    /// Processes inputs received by the component.
    fn update(&mut self, message: Self::Input, sender: FactoryComponentSender<Self>) {
    }

    /// Defines how the component should respond to command updates.
    fn update_cmd(&mut self, message: Self::CommandOutput, sender: FactoryComponentSender<Self>) {
    }

    /// Updates the view after the model has been updated.
    fn update_view(&self, widgets: &mut Self::Widgets, sender: FactoryComponentSender<Self>) {
    }

    /// Last method called before a component is shut down.
    fn shutdown(&mut self, widgets: &mut Self::Widgets, output: ChannelSender<Self::Output>) {
    }
}

/// Extension for [`FactoryComponent`] that makes elements cloneable.
pub trait CloneableFactoryComponent: FactoryComponent {
    /// Retrieve the initialization data from an initialized factory component.
    fn get_init(&self) -> Self::Init;
}

} // verus!
