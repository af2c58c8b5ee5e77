//! Iterators made of coroutines that take no input, and coroutines made of iterators.
pub mod iterate;
pub mod iterator;
pub mod iterwrapper;
pub mod wrap;

pub use iterate::{CoIterate, Iterate};
pub use wrap::{GenWrap, Wrap};
