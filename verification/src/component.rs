//! The message types of a component.
use vstd::prelude::*;

verus! {

/// The messages a component exchanges.
pub trait Component {
    /// The message type that the component accepts as inputs.
    type Input;

    /// The message type that the component provides as outputs.
    type Output;

    /// Messages which are received from commands executing in the background.
    type CommandOutput;
}

} // verus!
