//! The errors of the extraction through rust-analyzer.

use vstd::prelude::*;

use crate::text::push_str;

verus! {

/// What can go wrong while extracting a method through rust-analyzer.
#[derive(Debug)]
pub enum ExtractionError {
    /// The file could not be read or written.
    Io(std::io::Error),
    /// The source is not a Rust file that `syn` accepts.
    Parse(syn::Error),
    /// No manifest was found for the file.
    InvalidManifest,
    /// The start offset is 0.
    InvalidStartIdx,
    /// The end offset is 0.
    InvalidEndIdx,
    /// The start and end offsets are the same.
    SameIdx,
    /// The start offset lies after the end offset.
    InvalidIdxPair,
    /// rust-analyzer offered no assist for the selection.
    NoAvailableAssist,
    /// None of the assists, whose labels are listed, extracts a function.
    NoExtractFunction(Vec<String>),
    /// No function encloses the selection.
    ParentMethodNotFound,
}

impl ExtractionError {
    /// The message that describes the error.
    pub fn describe(&self) -> (r: String)
        ensures
            self is Io ==> "I/O error: "@.is_prefix_of(r@),
            self is Parse ==> "Parse error: "@.is_prefix_of(r@),
            self is InvalidManifest ==> r@ == "Could not find a manifest file for the given path"@,
            self is InvalidStartIdx ==> r@ == "Invalid start index"@,
            self is InvalidEndIdx ==> r@ == "Invalid end index"@,
            self is SameIdx ==> r@ == "Start and end indices are the same"@,
            self is InvalidIdxPair ==> r@ == "Invalid pair of start and end indices"@,
            self is NoAvailableAssist ==> r@ == "No Available Assists found for the given selection"@,
            self is NoExtractFunction ==> "No Extract Function Assist found for the given selection of assists "@.is_prefix_of(r@),
            self is ParentMethodNotFound ==> r@ == "No parent method found for the given selection"@,
    {
        match self {
            ExtractionError::Io(e) => {
                let mut r = String::from_str("I/O error: ");
                let detail = e.to_string();
                push_str(&mut r, detail.as_str());
                r
            },
            ExtractionError::Parse(e) => {
                let mut r = String::from_str("Parse error: ");
                let detail = e.to_string();
                push_str(&mut r, detail.as_str());
                r
            },
            ExtractionError::InvalidManifest => String::from_str(
                "Could not find a manifest file for the given path",
            ),
            ExtractionError::InvalidStartIdx => String::from_str("Invalid start index"),
            ExtractionError::InvalidEndIdx => String::from_str("Invalid end index"),
            ExtractionError::SameIdx => String::from_str("Start and end indices are the same"),
            ExtractionError::InvalidIdxPair => String::from_str(
                "Invalid pair of start and end indices",
            ),
            ExtractionError::NoAvailableAssist => String::from_str(
                "No Available Assists found for the given selection",
            ),
            ExtractionError::NoExtractFunction(labels) => {
                let mut r = String::from_str(
                    "No Extract Function Assist found for the given selection of assists ",
                );
                push_str(&mut r, "[");
                let mut i: usize = 0;
                while i < labels.len()
                    invariant
                        i <= labels.len(),
                        "No Extract Function Assist found for the given selection of assists "@.is_prefix_of(r@),
                    decreases labels.len() - i,
                {
                    if i > 0 {
                        push_str(&mut r, ", ");
                    }
                    push_str(&mut r, "\"");
                    push_str(&mut r, labels[i].as_str());
                    push_str(&mut r, "\"");
                    i += 1;
                }
                push_str(&mut r, "]");
                r
            },
            ExtractionError::ParentMethodNotFound => String::from_str(
                "No parent method found for the given selection",
            ),
        }
    }
}

impl From<std::io::Error> for ExtractionError {
    fn from(error: std::io::Error) -> (r: ExtractionError) {
        ExtractionError::Io(error)
    }
}

impl vstd::std_specs::convert::FromSpecImpl<std::io::Error> for ExtractionError {
    open spec fn obeys_from_spec() -> bool {
        true
    }

    open spec fn from_spec(error: std::io::Error) -> ExtractionError {
        ExtractionError::Io(error)
    }
}

impl From<syn::Error> for ExtractionError {
    fn from(error: syn::Error) -> (r: ExtractionError) {
        ExtractionError::Parse(error)
    }
}

impl vstd::std_specs::convert::FromSpecImpl<syn::Error> for ExtractionError {
    open spec fn obeys_from_spec() -> bool {
        true
    }

    open spec fn from_spec(error: syn::Error) -> ExtractionError {
        ExtractionError::Parse(error)
    }
}

} // verus!
