//! Generators made of iterators, and iterators made of generators.
pub mod iterate;
pub mod wrap;

pub use iterate::{GenIterate, Iterate};
pub use wrap::{GenWrap, IterSpec, Wrap};
