use rem_extract::error::ExtractionError;
use rem_extract::extract_tests::{
    outcome_statuses, parse_and_compare_ast, tokens_match, Cursor, TestFile, TestOutcome,
    TestTally,
};

#[test]
fn test_parse_and_compare_ast_identical() -> Result<(), ExtractionError> {
    let content = "fn example() -> i32 { 42 }";
    let result = parse_and_compare_ast(content, content)?;
    assert!(result, "The ASTs should be identical");
    Ok(())
}

#[test]
fn test_parse_and_compare_ast_different() -> Result<(), ExtractionError> {
    let expected_content = "fn example() -> i32 { 42 }";
    let output_content = "fn example() -> i32 { 43 }";
    let result = parse_and_compare_ast(expected_content, output_content)?;
    assert!(!result, "The ASTs should be different");
    Ok(())
}

#[test]
fn test_parse_and_compare_ast_empty_files() -> Result<(), ExtractionError> {
    let result = parse_and_compare_ast("", "")?;
    assert!(result, "The ASTs for empty files should be identical");
    Ok(())
}

#[test]
fn test_parse_and_compare_ast_invalid_content() -> Result<(), ExtractionError> {
    let invalid_content = "fn example { 42 ";
    let result = parse_and_compare_ast(invalid_content, invalid_content);
    assert!(result.is_err(), "The function should return an error for invalid content");
    Ok(())
}

#[test]
fn test_parse_and_compare_ast_different_formatting() -> Result<(), ExtractionError> {
    let expected_content = "fn example() -> i32 {\n    42\n}";
    let output_content = "fn example() -> i32 { 42 }";
    let result = parse_and_compare_ast(expected_content, output_content)?;
    assert!(result, "The ASTs should be identical despite different formatting");
    Ok(())
}

#[test]
fn comparison_fails_when_only_the_expected_file_is_invalid() {
    let result = parse_and_compare_ast("fn a() {}", "fn b( {");
    assert!(matches!(result, Err(ExtractionError::Parse(_))));
}

#[test]
fn comparison_is_symmetric_on_an_example() {
    let a = "fn a() { 1 }";
    let b = "fn a() { 2 }";
    assert_eq!(
        parse_and_compare_ast(a, b).unwrap(),
        parse_and_compare_ast(b, a).unwrap()
    );
}

#[test]
fn tokens_match_compares_text() {
    assert!(tokens_match(&"fn a ()".to_string(), &"fn a ()".to_string()));
    assert!(!tokens_match(&"fn a ()".to_string(), &"fn b ()".to_string()));
}

#[test]
fn test_file_keeps_its_parts() {
    let t = TestFile::new("no_args_if.rs", Cursor::new(2, 5), Cursor::new(2, 18));
    assert_eq!(t.input_file, "no_args_if.rs");
    assert_eq!((t.start_cursor.line, t.start_cursor.col), (2, 5));
    assert_eq!((t.end_cursor.line, t.end_cursor.col), (2, 18));
}

#[test]
fn tally_counts_every_outcome_once() {
    let mut tally = TestTally::new();
    tally.record(TestOutcome::Identical, 30);
    tally.record(TestOutcome::ExtractionFailed, 10);
    tally.record(TestOutcome::Different, 50);
    tally.record(TestOutcome::ComparisonFailed, 20);
    assert_eq!(tally.total_tests, 4);
    assert_eq!(tally.passed_stage_1, 3);
    assert_eq!(tally.passed_tests, 1);
    assert_eq!(tally.failed_tests, 3);
    assert_eq!(tally.passed_tests + tally.failed_tests, tally.total_tests);
    assert_eq!(tally.total_test_time, 110);
    assert_eq!(tally.min_test_time, Some(10));
    assert_eq!(tally.max_test_time, Some(50));
}

#[test]
fn empty_tally_has_no_times() {
    let tally = TestTally::new();
    assert_eq!(tally.total_tests, 0);
    assert_eq!(tally.min_test_time, None);
    assert_eq!(tally.max_test_time, None);
}

#[test]
fn outcome_statuses_name_each_outcome() {
    assert_eq!(
        outcome_statuses(TestOutcome::ExtractionFailed, "Invalid line range"),
        ("FAILED: Invalid line range".to_string(), "N/A".to_string())
    );
    assert_eq!(
        outcome_statuses(TestOutcome::Identical, ""),
        ("PASSED".to_string(), "PASSED".to_string())
    );
    assert_eq!(
        outcome_statuses(TestOutcome::Different, ""),
        ("PASSED".to_string(), "FAILED".to_string())
    );
    assert_eq!(
        outcome_statuses(TestOutcome::ComparisonFailed, "I/O error: gone"),
        ("PASSED".to_string(), "Error: I/O error: gone".to_string())
    );
}
