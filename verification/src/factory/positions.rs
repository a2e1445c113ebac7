//! Position types for widgets that place their children by coordinates.
use vstd::prelude::*;

verus! {

/// Where a new widget is placed inside a grid.
#[derive(Debug, Clone, Copy, PartialEq, Eq, Structural)]
pub struct GridPosition {
    /// The number of the column.
    pub column: i32,
    /// The number of the row.
    pub row: i32,
    /// The amount of columns the widget takes.
    pub width: i32,
    /// The amount of rows the widget takes.
    pub height: i32,
}

} // verus!
