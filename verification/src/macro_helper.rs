//! Items that the view macro of the toolkit refers to.
use vstd::prelude::*;

verus! {

/// Marks the `#[transition]` attribute of the view macro, which is
/// deprecated: call `set_transition_type` on the returned widget instead.
pub fn transition() {
}

} // verus!
