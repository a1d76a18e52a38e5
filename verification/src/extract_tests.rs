//! The pieces of the test run over the example files that decide
//! something: the comparison of an output with the expected file, and the
//! tally of the outcomes.

use vstd::prelude::*;

use crate::error::ExtractionError;
use crate::syntax::{parse_file, syn_accepts, syn_token_text, token_text};
use crate::text::push_str;

verus! {

/// A position in a test file.
pub struct Cursor {
    pub line: usize,
    pub col: usize,
}

impl Cursor {
    /// The cursor at `line` and `col`.
    pub fn new(line: usize, col: usize) -> (c: Cursor)
        ensures
            c.line == line,
            c.col == col,
    {
        Cursor { line, col }
    }
}

/// A test: the name of a file in the input folder (with a file of the same
/// name in the folder of expected outputs) and the selection to extract.
pub struct TestFile<'a> {
    pub input_file: &'a str,
    pub start_cursor: Cursor,
    pub end_cursor: Cursor,
}

impl<'a> TestFile<'a> {
    /// The test of `input_file` with the given selection.
    pub fn new(input_file: &'a str, start_cursor: Cursor, end_cursor: Cursor) -> (t: TestFile<'a>)
        ensures
            t.input_file@ == input_file@,
            t.start_cursor == start_cursor,
            t.end_cursor == end_cursor,
    {
        TestFile { input_file, start_cursor, end_cursor }
    }
}

// ========================================
// Comparing syntax trees
// ========================================

/// The outcome of comparing two source texts by their syntax trees: `None`
/// when `syn` rejects either, else whether the token texts agree.
pub open spec fn ast_comparison(output: Seq<char>, expected: Seq<char>) -> Option<bool> {
    if syn_accepts(output) && syn_accepts(expected) {
        Some(syn_token_text(output) == syn_token_text(expected))
    } else {
        None
    }
}

/// Whether the token texts of two parsed files agree.
pub fn tokens_match(output_tokens: &String, expected_tokens: &String) -> (r: bool)
    ensures
        r == (output_tokens@ == expected_tokens@),
{
    *output_tokens == *expected_tokens
}

/// Parses both texts and compares them by their token streams, so that
/// formatting does not count.
pub fn parse_and_compare_ast(output_content: &str, expected_content: &str) -> (r: Result<
    bool,
    ExtractionError,
>)
    ensures
        match ast_comparison(output_content@, expected_content@) {
            Some(same) => r == Ok::<bool, ExtractionError>(same),
            None => (r matches Err(e) && e is Parse),
        },
{
    let output_ast = match parse_file(output_content) {
        Ok(f) => f,
        Err(e) => {
            return Err(ExtractionError::Parse(e));
        },
    };
    let expected_ast = match parse_file(expected_content) {
        Ok(f) => f,
        Err(e) => {
            return Err(ExtractionError::Parse(e));
        },
    };
    // Convert both syntax trees back into token streams for the comparison.
    let output_tokens: String = token_text(&output_ast);
    let expected_tokens: String = token_text(&expected_ast);
    Ok(tokens_match(&output_tokens, &expected_tokens))
}

/// Two parsed texts agree exactly when their token texts are the same,
/// character for character: a single character that differs, in case too,
/// makes them differ.
pub proof fn lemma_ast_comparison_is_exact(output: Seq<char>, expected: Seq<char>)
    ensures
        ast_comparison(output, expected) is Some <==> syn_accepts(output) && syn_accepts(
            expected,
        ),
        ast_comparison(output, expected) == Some(true) ==> syn_token_text(output).len()
            == syn_token_text(expected).len() && forall|k: int|
            0 <= k < syn_token_text(output).len() ==> #[trigger] syn_token_text(output)[k]
                == syn_token_text(expected)[k],
        ast_comparison(output, expected) == Some(false) ==> syn_token_text(output)
            != syn_token_text(expected),
{
}

/// A text that `syn` parses agrees with itself.
pub proof fn lemma_ast_comparison_reflexive(content: Seq<char>)
    requires
        syn_accepts(content),
    ensures
        ast_comparison(content, content) == Some(true),
{
}

/// Comparing two texts does not depend on which one is the output.
pub proof fn lemma_ast_comparison_symmetric(output: Seq<char>, expected: Seq<char>)
    ensures
        ast_comparison(output, expected) == ast_comparison(expected, output),
{
}

// ========================================
// Tallying the tests
// ========================================

/// How one test went.
#[derive(Debug, PartialEq, Eq, Structural, Clone, Copy)]
pub enum TestOutcome {
    /// The extraction reported an error.
    ExtractionFailed,
    /// The output has the same syntax tree as the expected file.
    Identical,
    /// The output has another syntax tree than the expected file.
    Different,
    /// The output or the expected file could not be read or parsed.
    ComparisonFailed,
}

/// What a test run prints for the extraction of a test: `PASSED`, or
/// `FAILED: ` and the message of the error.
pub open spec fn extraction_status(outcome: TestOutcome, detail: Seq<char>) -> Seq<char> {
    match outcome {
        TestOutcome::ExtractionFailed => "FAILED: "@ + detail,
        _ => "PASSED"@,
    }
}

/// What a test run prints for the comparison of a test: `N/A` when the
/// extraction failed, `PASSED` or `FAILED` by the syntax trees, or `Error: `
/// and the message of the error.
pub open spec fn comparison_status(outcome: TestOutcome, detail: Seq<char>) -> Seq<char> {
    match outcome {
        TestOutcome::ExtractionFailed => "N/A"@,
        TestOutcome::Identical => "PASSED"@,
        TestOutcome::Different => "FAILED"@,
        TestOutcome::ComparisonFailed => "Error: "@ + detail,
    }
}

/// The status of the extraction and that of the comparison that a test run
/// prints for an outcome; `detail` is the message of the error, where the
/// outcome is one.
pub fn outcome_statuses(outcome: TestOutcome, detail: &str) -> (r: (String, String))
    ensures
        r.0@ == extraction_status(outcome, detail@),
        r.1@ == comparison_status(outcome, detail@),
{
    match outcome {
        TestOutcome::ExtractionFailed => {
            let mut extraction = String::from_str("FAILED: ");
            push_str(&mut extraction, detail);
            (extraction, String::from_str("N/A"))
        },
        TestOutcome::Identical => (String::from_str("PASSED"), String::from_str("PASSED")),
        TestOutcome::Different => (String::from_str("PASSED"), String::from_str("FAILED")),
        TestOutcome::ComparisonFailed => {
            let mut comparison = String::from_str("Error: ");
            push_str(&mut comparison, detail);
            (String::from_str("PASSED"), comparison)
        },
    }
}

/// The counts and times of the tests run so far; times are in nanoseconds.
pub struct TestTally {
    pub total_tests: i32,
    pub passed_stage_1: i32,
    pub passed_tests: i32,
    pub failed_tests: i32,
    pub total_test_time: u128,
    pub min_test_time: Option<u128>,
    pub max_test_time: Option<u128>,
}

impl TestTally {
    /// Every test run has passed or failed; the tests that passed got past
    /// the extraction; the shortest and longest times are known exactly
    /// when a test has run, and the shortest is not longer than the longest.
    pub open spec fn wf(self) -> bool {
        &&& 0 <= self.passed_tests <= self.passed_stage_1 <= self.total_tests
        &&& 0 <= self.failed_tests
        &&& self.passed_tests + self.failed_tests == self.total_tests
        &&& (self.total_tests == 0 <==> self.min_test_time is None)
        &&& (self.total_tests == 0 <==> self.max_test_time is None)
        &&& (self.min_test_time matches Some(lo) ==> (self.max_test_time matches Some(hi)
            && lo <= hi && hi <= self.total_test_time))
    }

    /// No test run yet.
    pub fn new() -> (t: TestTally)
        ensures
            t.wf(),
            t.total_tests == 0,
            t.passed_stage_1 == 0,
            t.passed_tests == 0,
            t.failed_tests == 0,
            t.total_test_time == 0,
    {
        TestTally {
            total_tests: 0,
            passed_stage_1: 0,
            passed_tests: 0,
            failed_tests: 0,
            total_test_time: 0,
            min_test_time: None,
            max_test_time: None,
        }
    }

    /// Counts one more test, which took `elapsed` nanoseconds and went as
    /// `outcome` says.
    pub fn record(&mut self, outcome: TestOutcome, elapsed: u128)
        requires
            old(self).wf(),
            old(self).total_tests < i32::MAX,
            old(self).total_test_time + elapsed <= u128::MAX,
        ensures
            final(self).wf(),
            final(self).total_tests == old(self).total_tests + 1,
            final(self).passed_stage_1 == old(self).passed_stage_1 + if outcome
                == TestOutcome::ExtractionFailed {
                0int
            } else {
                1int
            },
            final(self).passed_tests == old(self).passed_tests + if outcome
                == TestOutcome::Identical {
                1int
            } else {
                0int
            },
            final(self).failed_tests == old(self).failed_tests + if outcome
                == TestOutcome::Identical {
                0int
            } else {
                1int
            },
            final(self).total_test_time == old(self).total_test_time + elapsed,
            final(self).min_test_time == Some(
                match old(self).min_test_time {
                    Some(lo) => if elapsed < lo {
                        elapsed
                    } else {
                        lo
                    },
                    None => elapsed,
                },
            ),
            final(self).max_test_time == Some(
                match old(self).max_test_time {
                    Some(hi) => if elapsed > hi {
                        elapsed
                    } else {
                        hi
                    },
                    None => elapsed,
                },
            ),
    {
        self.total_tests = self.total_tests + 1;
        self.total_test_time = self.total_test_time + elapsed;
        // Keep the shortest and the longest time.
        match self.min_test_time {
            Some(min_time) => {
                if elapsed < min_time {
                    self.min_test_time = Some(elapsed);
                }
            },
            None => {
                self.min_test_time = Some(elapsed);
            },
        }
        match self.max_test_time {
            Some(max_time) => {
                if elapsed > max_time {
                    self.max_test_time = Some(elapsed);
                }
            },
            None => {
                self.max_test_time = Some(elapsed);
            },
        }
        match outcome {
            TestOutcome::ExtractionFailed => {
                self.failed_tests = self.failed_tests + 1;
            },
            TestOutcome::Identical => {
                self.passed_stage_1 = self.passed_stage_1 + 1;
                self.passed_tests = self.passed_tests + 1;
            },
            TestOutcome::Different | TestOutcome::ComparisonFailed => {
                self.passed_stage_1 = self.passed_stage_1 + 1;
                self.failed_tests = self.failed_tests + 1;
            },
        }
    }
}

} // verus!
