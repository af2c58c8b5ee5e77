//! Combinators that transform what a generator yields or returns.
pub mod ret;
pub mod yld;
