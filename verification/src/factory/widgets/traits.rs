//! How a factory places widgets in a container.
use vstd::prelude::*;

verus! {

/// A container widget that a factory can add widgets to and remove them from.
///
/// The containers of the toolkit implement this trait outside this crate;
/// the order in which they are asked to place widgets is computed by
/// [`plan_render`](crate::factory::render::plan_render).
pub trait FactoryView {
    /// The widget returned when inserting a widget.
    type ReturnedWidget;

    /// Widget type that is attached to the container.
    type Children;

    /// Position type used by this widget.
    type Position;

    /// Removes a widget.
    fn factory_remove(&self, widget: &Self::ReturnedWidget);

    /// Adds a new widget at the end.
    fn factory_append(&self, widget: &Self::Children, position: &Self::Position) -> Self::ReturnedWidget;

    /// Adds a widget at the front.
    fn factory_prepend(&self, widget: &Self::Children, position: &Self::Position) -> Self::ReturnedWidget;

    /// Inserts a widget after another widget.
    fn factory_insert_after(
        &self,
        widget: &Self::Children,
        position: &Self::Position,
        other: &Self::ReturnedWidget,
    ) -> Self::ReturnedWidget;

    /// Converts a returned widget to the children type.
    fn returned_widget_to_child(root_child: &Self::ReturnedWidget) -> Self::Children;

    /// Moves an item after another item.
    fn factory_move_after(&self, widget: &Self::ReturnedWidget, other: &Self::ReturnedWidget);

    /// Moves an item to the start.
    fn factory_move_start(&self, widget: &Self::ReturnedWidget);

    /// Updates the position inside positioned containers like grids.
    fn factory_update_position(&self, widget: &Self::ReturnedWidget, position: &Self::Position) {
    }
}

/// Returns the position of an element inside a container where the position
/// isn't clearly defined by the index.
pub trait Position<Pos, Index> {
    /// Returns the position.
    fn position(&self, index: &Index) -> Pos;
}

/// Returns the position of an element from its index alone, for factories
/// whose models might not be initialized yet.
pub trait AsyncPosition<Pos> {
    /// Returns the position.
    fn position(index: usize) -> Pos;
}

} // verus!
