//! Traits shared by the factory containers.
use crate::factory::dynamic_index::DynamicIndex;
use vstd::prelude::*;

verus! {

/// A container widget that a factory can add widgets to and remove them from.
pub trait FactoryView {
    /// The widget returned when inserting a widget.
    type ReturnedWidget;

    /// Widget type that is attached to the container.
    type Children;

    /// Position type used by this widget.
    type Position;

    /// Removes a widget.
    fn factory_remove(&self, widget: &Self::ReturnedWidget);

    /// Adds a new widget at the end.
    fn factory_append(&self, widget: &Self::Children, position: &Self::Position) -> Self::ReturnedWidget;

    /// Adds a widget at the front.
    fn factory_prepend(&self, widget: &Self::Children, position: &Self::Position) -> Self::ReturnedWidget;

    /// Inserts a widget after another widget.
    fn factory_insert_after(
        &self,
        widget: &Self::Children,
        position: &Self::Position,
        other: &Self::ReturnedWidget,
    ) -> Self::ReturnedWidget;

    /// Converts a returned widget to the children type.
    fn returned_widget_to_child(root_child: &Self::ReturnedWidget) -> Self::Children;

    /// Moves an item after another item.
    fn factory_move_after(&self, widget: &Self::ReturnedWidget, other: &Self::ReturnedWidget);

    /// Moves an item to the start.
    fn factory_move_start(&self, widget: &Self::ReturnedWidget);

    /// Updates the position inside positioned containers like grids.
    fn factory_update_position(&self, widget: &Self::ReturnedWidget, position: &Self::Position) {
    }
}

/// Returns the position of an element from its index.
pub trait Position<Pos> {
    /// Returns the position.
    fn position(index: usize) -> Pos;
}

/// A component stored inside a factory that hands its outputs to the parent as messages.
pub trait FactoryComponent<ParentWidget: FactoryView, ParentMsg>: Sized {
    /// Internal commands to perform.
    type Command;

    /// Messages which are received from commands executing in the background.
    type CommandOutput;

    /// The message type that the component accepts as inputs.
    type Input;

    /// The message type that the component provides as outputs.
    type Output;

    /// The initial parameter(s) for launch.
    type InitParams;

    /// The widget that was constructed by the component.
    type Root;

    /// The type that's used for storing widgets created for this component.
    type Widgets;

    /// Initializes the model.
    fn init_model(params: Self::InitParams, index: &DynamicIndex) -> Self;

    /// Initializes the root widget.
    fn init_root(&self) -> Self::Root;

    /// Convert an output into a message for the parent; [`None`] forwards nothing.
    fn output_to_parent_msg(output: Self::Output) -> (r: Option<ParentMsg>)
        default_ensures
            r is None,
    {
        None
    }

    /// Processes inputs received by the component.
    fn update(&mut self, message: Self::Input) -> (r: Option<Self::Command>)
        default_ensures
            r is None,
            *final(self) == *old(self),
    {
        None
    }

    /// Updates the view after the model has been updated.
    fn update_view(&self, widgets: &mut Self::Widgets) {
    }

    /// Updates the model and view. Optionally returns a command to run.
    fn update_with_view(&mut self, widgets: &mut Self::Widgets, message: Self::Input) -> (r:
        Option<Self::Command>)
        default_ensures
            exists|m: &mut Self, w: &mut Self::Widgets|
                *m == *old(self) && *final(m) == *final(self) && *w == *old(widgets) && *final(w)
                    == *final(widgets) && call_ensures(Self::update, (m, message), r)
                    && call_ensures(Self::update_view, (&*final(self), w), ()),
    {
        let cmd = self.update(message);
        self.update_view(widgets);
        cmd
    }
}

} // verus!
