//! The input of the extraction through rust-analyzer, its checks, and the
//! method that encloses a selection.

use vstd::prelude::*;

use ra_ap_syntax::ast::HasName;
use ra_ap_syntax::AstNode;

use crate::assist::error::ExtractionError;
use crate::text::{byte_len, trim, trim_ws};

verus! {

/// What to extract: the file, the name of the new function and the byte
/// offsets where the selection starts and ends.
#[derive(Debug, PartialEq, Clone)]
pub struct ExtractionInput {
    pub file_path: String,
    pub new_fn_name: String,
    pub start_idx: u32,
    pub end_idx: u32,
}

impl ExtractionInput {
    /// The input with the given path, name and offsets.
    pub fn new(file_path: &str, new_fn_name: &str, start_idx: u32, end_idx: u32) -> (r: Self)
        ensures
            r.file_path@ == file_path@,
            r.new_fn_name@ == new_fn_name@,
            r.start_idx == start_idx,
            r.end_idx == end_idx,
    {
        ExtractionInput {
            file_path: String::from_str(file_path),
            new_fn_name: String::from_str(new_fn_name),
            start_idx,
            end_idx,
        }
    }
}

// ========================================
// Checks on the selection
// ========================================

/// The first thing wrong with a pair of offsets: equal, out of order, or
/// one of them 0.
pub open spec fn idx_failure(start_idx: u32, end_idx: u32) -> Option<ExtractionError> {
    if start_idx == end_idx {
        Some(ExtractionError::SameIdx)
    } else if start_idx > end_idx {
        Some(ExtractionError::InvalidIdxPair)
    } else if start_idx == 0 {
        Some(ExtractionError::InvalidStartIdx)
    } else if end_idx == 0 {
        Some(ExtractionError::InvalidEndIdx)
    } else {
        None
    }
}

/// Checks that the offsets of the selection form a valid pair.
pub fn check_idx(input: &ExtractionInput) -> (r: Result<(), ExtractionError>)
    ensures
        match idx_failure(input.start_idx, input.end_idx) {
            Some(e) => r == Err::<(), ExtractionError>(e),
            None => r is Ok,
        },
{
    if input.start_idx == input.end_idx {
        return Err(ExtractionError::SameIdx);
    } else if input.start_idx > input.end_idx {
        return Err(ExtractionError::InvalidIdxPair);
    }
    if input.start_idx == 0 {
        return Err(ExtractionError::InvalidStartIdx);
    }
    if input.end_idx == 0 {
        return Err(ExtractionError::InvalidEndIdx);
    }
    Ok(())
}

/// Runs the checks on the selection that need no file system (that the
/// file exists is checked where the file is read).
pub fn verify_input(input: &ExtractionInput) -> (r: Result<(), ExtractionError>)
    ensures
        match idx_failure(input.start_idx, input.end_idx) {
            Some(e) => r == Err::<(), ExtractionError>(e),
            None => r is Ok,
        },
{
    check_idx(input)?;
    Ok(())
}

// ========================================
// The enclosing method
// ========================================

/// A source file that rust-analyzer parsed, together with its text.
pub struct ParsedSource {
    tree: ra_ap_syntax::SourceFile,
    text: Ghost<Seq<char>>,
}

impl View for ParsedSource {
    /// The text the file was parsed from.
    type V = Seq<char>;

    closed spec fn view(&self) -> Seq<char> {
        self.text@
    }
}

/// A Rust source file as rust-analyzer parses it.
#[verifier::external_type_specification]
#[verifier::external_body]
pub struct ExSourceFile(ra_ap_syntax::SourceFile);

/// `SourceFile::parse` in the current edition: the syntax tree of `text`.
/// The contract claims only that the tree is kept with the text it came
/// from; parsing never fails, it keeps what it cannot read as error nodes.
/// Offsets in the tree are 32-bit `TextSize` values, which the parser gets
/// from byte positions by a conversion that panics past `u32::MAX`, hence
/// the bound on the length of the text.
#[verifier::external_body]
fn parse_source(text: &str) -> (r: ParsedSource)
    requires
        byte_len(text@) <= u32::MAX,
    ensures
        r@ == text@,
{
    ParsedSource {
        tree: ra_ap_syntax::SourceFile::parse(text, ra_ap_syntax::Edition::CURRENT).tree(),
        text: Ghost(text@),
    }
}

/// The name of the innermost `fn` item whose syntax node covers byte
/// `offset` in the tree that rust-analyzer parses from `text` (current
/// edition); `None` where no function covers the offset or the function
/// has no name.
pub uninterp spec fn ra_fn_name_at(text: Seq<char>, offset: u32) -> Option<Seq<char>>;

/// `algo::find_node_at_offset::<ast::Fn>` on a parsed file, and the text
/// of the name of the function found. The contract claims only that the
/// result is the name `ra_fn_name_at` gives for the file's text and the
/// offset; which function rust-analyzer finds is not stated. The search
/// asserts that the offset lies within the tree, which spans the whole
/// text, so the offset may be at most the byte length of the text.
#[verifier::external_body]
fn enclosing_fn_name(file: &ParsedSource, offset: u32) -> (r: Option<String>)
    requires
        offset <= byte_len(file@),
    ensures
        match r {
            Some(s) => ra_fn_name_at(file@, offset) == Some(s@),
            None => ra_fn_name_at(file@, offset) is None,
        },
{
    let node = ra_ap_syntax::algo::find_node_at_offset::<ra_ap_syntax::ast::Fn>(
        file.tree.syntax(),
        ra_ap_syntax::TextSize::new(offset),
    );
    match node {
        Some(n) => match n.name() {
            Some(name) => Some(name.text().to_string()),
            None => None,
        },
        None => None,
    }
}

/// The enclosing method for the name that was found: an absent or empty
/// name is an error, any other is returned trimmed.
pub open spec fn parent_method_outcome(found: Option<Seq<char>>) -> Option<Seq<char>> {
    match found {
        Some(name) => if name.len() == 0 {
            None
        } else {
            Some(trim_ws(name))
        },
        None => None,
    }
}

/// Decides the enclosing method from the name found at the selection.
pub fn parent_method_from_name(found: Option<String>) -> (r: Result<String, ExtractionError>)
    ensures
        match parent_method_outcome(
            match found {
                Some(s) => Some(s@),
                None => None,
            },
        ) {
            Some(name) => (r matches Ok(s) && s@ == name),
            None => r == Err::<String, ExtractionError>(ExtractionError::ParentMethodNotFound),
        },
{
    let fn_name: String = match found {
        Some(n) => n,
        None => String::new(),
    };
    if fn_name.as_str().is_empty() {
        return Err(ExtractionError::ParentMethodNotFound);
    }
    Ok(trim(fn_name.as_str()))
}

/// The enclosing method of the selection `range` in a text: what the name
/// that rust-analyzer finds at the start of the range decides.
pub open spec fn parent_method_result(text: Seq<char>, range: (u32, u32)) -> Option<Seq<char>> {
    parent_method_outcome(ra_fn_name_at(text, range.0))
}

/// Only the start of the selection decides its enclosing method: two
/// selections that start at the same offset have the same one.
pub proof fn lemma_parent_method_ignores_range_end(text: Seq<char>, start: u32, end1: u32, end2: u32)
    ensures
        parent_method_result(text, (start, end1)) == parent_method_result(text, (start, end2)),
{
}

/// The method that encloses the start of the selection `range` in the
/// source text: the name of the function rust-analyzer finds at the start
/// offset, trimmed. The start must lie within the text.
pub fn parent_method(source_text: &str, range: (u32, u32)) -> (r: Result<String, ExtractionError>)
    requires
        byte_len(source_text@) <= u32::MAX,
        range.0 <= byte_len(source_text@),
    ensures
        match parent_method_result(source_text@, range) {
            Some(name) => (r matches Ok(s) && s@ == name),
            None => r == Err::<String, ExtractionError>(ExtractionError::ParentMethodNotFound),
        },
{
    let source_file = parse_source(source_text);
    // We want the function that encloses the start of the range.
    let found = enclosing_fn_name(&source_file, range.0);
    parent_method_from_name(found)
}

} // verus!
