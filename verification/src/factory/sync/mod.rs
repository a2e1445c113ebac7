//! Factories whose components are initialized synchronously.

pub mod traits;
pub mod hashmap;
