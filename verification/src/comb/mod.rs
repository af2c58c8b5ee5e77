//! Combinators that run two generators side by side.
pub mod all;
pub mod apply;
pub mod chain;
pub mod compose;
pub mod done;
pub mod map;
pub mod race;
