//! Extraction of the lines between two cursors, after checking the
//! selection and that the source is a Rust file `syn` can parse.

use vstd::prelude::*;

use crate::error::ExtractionError;
use crate::syntax::{parse_file, syn_accepts};
use crate::text::{lines_of, read_lines, string_views};

pub use crate::range_extraction::{check_columns, column_failure, Cursor, ExtractionInput};

verus! {

/// The first thing wrong with the line numbers of the selection in a text:
/// lines out of order, or an end line that is not below the number of lines
/// of the text.
pub open spec fn line_failure(input: ExtractionInput, source: Seq<char>) -> Option<
    ExtractionError,
> {
    if input.start_cursor.line > input.end_cursor.line {
        Some(ExtractionError::InvalidLineRange)
    } else if input.end_cursor.line >= lines_of(source).len() {
        Some(ExtractionError::InvalidLineRange)
    } else {
        None
    }
}

/// The first thing wrong with the selection in a text, if anything is.
pub open spec fn verify_failure(input: ExtractionInput, source: Seq<char>) -> Option<
    ExtractionError,
> {
    match line_failure(input, source) {
        Some(e) => Some(e),
        None => column_failure(input),
    }
}

/// The check on the line numbers that needs no source text: the start line
/// is not after the end line.
pub fn check_line_order(input: &ExtractionInput) -> (r: Result<(), ExtractionError>)
    ensures
        input.start_cursor.line > input.end_cursor.line ==> r == Err::<(), ExtractionError>(
            ExtractionError::InvalidLineRange,
        ),
        input.start_cursor.line <= input.end_cursor.line ==> r is Ok,
{
    if input.start_cursor.line > input.end_cursor.line {
        return Err(ExtractionError::InvalidLineRange);
    }
    Ok(())
}

/// Checks the line numbers of the selection against the source text.
pub fn check_line_numbers(input: &ExtractionInput, source_code: &str) -> (r: Result<
    (),
    ExtractionError,
>)
    ensures
        match line_failure(*input, source_code@) {
            Some(e) => r == Err::<(), ExtractionError>(e),
            None => r is Ok,
        },
{
    check_line_order(input)?;
    let lines = read_lines(source_code);
    let num_lines = lines.len();
    proof {
        assert(string_views(lines@).len() == lines@.len());
    }
    if input.end_cursor.line >= num_lines {
        return Err(ExtractionError::InvalidLineRange);
    }
    Ok(())
}

/// Runs the checks on the selection one after the other.
pub fn verify_input(input: &ExtractionInput, source_code: &str) -> (r: Result<
    (),
    ExtractionError,
>)
    ensures
        match verify_failure(*input, source_code@) {
            Some(e) => r == Err::<(), ExtractionError>(e),
            None => r is Ok,
        },
{
    check_line_numbers(input, source_code)?;
    check_columns(input)?;
    Ok(())
}

/// Checks the selection and that `syn` parses the source; hands back the
/// source text, which is what the extraction writes out.
pub fn extract_method(input: ExtractionInput, source_code: &str) -> (r: Result<
    String,
    ExtractionError,
>)
    ensures
        match verify_failure(input, source_code@) {
            Some(e) => r == Err::<String, ExtractionError>(e),
            None => if syn_accepts(source_code@) {
                (r matches Ok(out) && out@ == source_code@)
            } else {
                (r matches Err(e) && e is Parse)
            },
        },
{
    verify_input(&input, source_code)?;
    // Parse the source code into a syntax tree.
    let _syntax_tree = match parse_file(source_code) {
        Ok(tree) => tree,
        Err(e) => {
            return Err(ExtractionError::Parse(e));
        },
    };
    Ok(String::from_str(source_code))
}

} // verus!
