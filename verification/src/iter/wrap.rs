//! The generator of the items of an iterator (see `crate::gen::iter::wrap`).
pub use crate::gen::iter::wrap::{GenWrap, IterSpec, Wrap};
