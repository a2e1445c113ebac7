//! Shared state that can be accessed by many components.

pub mod subscriber;
pub mod state;
pub mod reducer;
pub mod async_reducer;
