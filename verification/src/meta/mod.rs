//! Sums, products and lists of types with a canonical form.
pub mod list;
pub mod prod;
pub mod sum;
