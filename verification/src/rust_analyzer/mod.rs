//! Offsets and ranges into source text, in the representation that
//! rust-analyzer uses.

pub mod range;
pub mod size;
