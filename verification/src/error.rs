//! The errors of the extraction.

use vstd::prelude::*;

use crate::text::push_str;

verus! {

/// An I/O error of the standard library.
#[verifier::external_type_specification]
#[verifier::external_body]
pub struct ExIoError(std::io::Error);

/// What can go wrong while extracting a method.
#[derive(Debug)]
pub enum ExtractionError {
    /// The file could not be read or written.
    Io(std::io::Error),
    /// The source is not a Rust file that `syn` accepts.
    Parse(syn::Error),
    /// The output could not be formatted.
    FormatError,
    /// The selected lines are out of order or past the end of the file.
    InvalidLineRange,
    /// The selection ends before it starts on a single line.
    InvalidColumnRange,
    /// A cursor names line 0, but lines count from 1.
    ZeroLineIndex,
    /// The selection starts and ends at the same place.
    InvalidCursor,
}

impl ExtractionError {
    /// The message that describes the error.
    pub fn describe(&self) -> (r: String)
        ensures
            self is Io ==> "I/O error: "@.is_prefix_of(r@),
            self is Parse ==> "Parse error: "@.is_prefix_of(r@),
            self is FormatError ==> r@ == "Formatting error"@,
            self is InvalidLineRange ==> r@ == "Invalid line range"@,
            self is InvalidColumnRange ==> r@ == "Invalid column range"@,
            self is ZeroLineIndex ==> r@ == "Line index is zero"@,
            self is InvalidCursor ==> r@ == "Invalid cursor"@,
    {
        match self {
            ExtractionError::Io(e) => {
                let mut r = String::from_str("I/O error: ");
                let detail = e.to_string();
                push_str(&mut r, detail.as_str());
                r
            },
            ExtractionError::Parse(e) => {
                let mut r = String::from_str("Parse error: ");
                let detail = e.to_string();
                push_str(&mut r, detail.as_str());
                r
            },
            ExtractionError::FormatError => String::from_str("Formatting error"),
            ExtractionError::InvalidLineRange => String::from_str("Invalid line range"),
            ExtractionError::InvalidColumnRange => String::from_str("Invalid column range"),
            ExtractionError::ZeroLineIndex => String::from_str("Line index is zero"),
            ExtractionError::InvalidCursor => String::from_str("Invalid cursor"),
        }
    }
}

impl From<std::io::Error> for ExtractionError {
    fn from(error: std::io::Error) -> (r: ExtractionError) {
        ExtractionError::Io(error)
    }
}

impl vstd::std_specs::convert::FromSpecImpl<std::io::Error> for ExtractionError {
    open spec fn obeys_from_spec() -> bool {
        true
    }

    open spec fn from_spec(error: std::io::Error) -> ExtractionError {
        ExtractionError::Io(error)
    }
}

impl From<syn::Error> for ExtractionError {
    fn from(error: syn::Error) -> (r: ExtractionError) {
        ExtractionError::Parse(error)
    }
}

impl vstd::std_specs::convert::FromSpecImpl<syn::Error> for ExtractionError {
    open spec fn obeys_from_spec() -> bool {
        true
    }

    open spec fn from_spec(error: syn::Error) -> ExtractionError {
        ExtractionError::Parse(error)
    }
}

} // verus!
