use vstd::prelude::*;

verus! {

/// The selection model of a typed view.
///
/// Selection models are widgets of the toolkit; they are implemented outside
/// this crate and only name the kind of selection a view uses.
pub trait RelmSelectionExt {}

} // verus!
