//! Traits used for factories to interact with widgets.

pub mod traits;
