//! Extraction through rust-analyzer's "Extract into function" assist: the
//! selection is a pair of byte offsets, and the library decides which
//! selections are valid, which assist applies, how the extracted function
//! is renamed and which method encloses the selection.

pub mod edit;
pub mod error;
pub mod extraction;
pub mod utils;
