//! A variable-length sponge hash over the bn256 scalar field, with single-element output.

pub mod field;
pub mod sponge;
pub mod laws;
