//! Data types and traits used to generate widgets from collections efficiently.

pub mod dynamic_index;
pub mod render;
pub mod positions;
pub mod vec_deque;
pub mod async_vec_deque;

pub mod sync;
pub mod traits;
pub mod service;
pub mod widgets;
