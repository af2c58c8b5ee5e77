//! Transforming the inputs, the items and the return value of a coroutine.
pub mod arg;
pub mod ret;
pub mod yld;

pub use crate::comb::map::CoMap;
