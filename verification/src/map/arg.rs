//! Transforming the inputs of a coroutine (see `crate::comb::map`).
pub use crate::comb::map::{ArgMap, CoArgMap};
