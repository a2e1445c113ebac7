//! Typed list models behind list, column and grid views.
//!
//! A typed view stores its items in order and stacks filters on top of
//! them.  The visible items are the stored ones that pass every active
//! filter, in store order.

pub mod column;
pub mod grid;
pub mod iterator;
pub mod store;
pub mod selection_ext;

pub use selection_ext::RelmSelectionExt;
