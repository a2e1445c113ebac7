//! A verified core of an Elm-inspired GUI library: the change tracking of
//! factory collections, typed list models, shared state and the small
//! state machines that drive components.

pub mod action_names;
pub mod channel;
pub mod component;
pub mod factory;
pub mod late_initialization;
pub mod loading_widgets;
pub mod macro_helper;
pub mod retention;
pub mod runtime_util;
pub mod sender;
pub mod shared_state;
pub mod shutdown;
pub mod temp_widgets;
pub mod typed_view;
