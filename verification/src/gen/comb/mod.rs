//! Generators built from other generators and values.
pub mod apply;
pub mod chain;
pub mod done;
pub mod join;
