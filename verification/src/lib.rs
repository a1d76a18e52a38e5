//! Extraction of a selected piece of Rust code into a new function: the
//! checks on the selection, the byte offsets it names in the source text,
//! the trimming of the selected range, the choice of rust-analyzer's
//! extract-function assist, the application of its edit, the renaming of
//! the new function, and the textual edit that puts a call in place of the
//! extracted lines.

pub mod args;
pub mod assist;
pub mod error;
pub mod extract_tests;
pub mod extraction;
pub mod range_extraction;
pub mod rust_analyzer;
pub mod splice;
pub mod syntax;
pub mod text;
