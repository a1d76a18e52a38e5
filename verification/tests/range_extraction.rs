use rem_extract::error::ExtractionError;
use rem_extract::range_extraction::{
    check_columns, check_cursors_differ, check_line_numbers, check_line_order, selection_fits_in, cursor_to_range, cursor_to_size,
    extract_method, trim_whitespace, Cursor, ExtractionInput,
};
use rem_extract::rust_analyzer::range::TextRange;
use rem_extract::rust_analyzer::size::TextSize;

// What `writeln!` leaves in a file written with the given content.
fn file_content(content: &str) -> String {
    format!("{}\n", content)
}

#[test]
fn test_cursor_to_size_valid() {
    let temp_file = file_content("Hello\nWorld\nRust\n");
    let cursor = Cursor { line: 2, column: 1 }; // Cursor at 'W'
    let size = cursor_to_size(&temp_file, cursor).unwrap();
    assert_eq!(size.raw, 7); // "Hello\n".len() + "W"
}

#[test]
fn test_cursor_to_size_zero_line() {
    let temp_file = file_content("Hello\nWorld\nRust\n");
    let cursor = Cursor { line: 0, column: 1 };
    let result = cursor_to_size(&temp_file, cursor);
    assert!(result.is_err());
}

#[test]
fn test_cursor_to_range_valid() {
    let temp_file = file_content("Hello\nWorld\nRust\n");
    let start_cursor = Cursor { line: 1, column: 1 }; // 'H'
    let end_cursor = Cursor { line: 2, column: 5 }; // 'd'
    let range = cursor_to_range(&temp_file, start_cursor, end_cursor).unwrap();
    assert_eq!(range.start().raw, 0);
    assert_eq!(range.end().raw, 11);
}

#[test]
fn test_trim_whitespace() {
    let source_code = "   Hello, World!   \n   Rust is fun!   ";
    let range = TextRange::new(TextSize::from(3), TextSize::from(15));
    let trimmed_range = trim_whitespace(source_code, range);
    assert_eq!(trimmed_range.start().raw, 0);
    assert_eq!(trimmed_range.end().raw, 15);
}

#[test]
fn test_trim_whitespace_empty() {
    let source_code = "   \n   ";
    let range = TextRange::new(TextSize::from(0), TextSize::from(3));
    let trimmed_range = trim_whitespace(source_code, range);
    assert_eq!(trimmed_range.start().raw, 0);
    assert_eq!(trimmed_range.end().raw, 0);
}

#[test]
fn test_trim_whitespace_no_trim_needed() {
    let source_code = "Hello, World!";
    let range = TextRange::new(TextSize::from(0), TextSize::from(13));
    let trimmed_range = trim_whitespace(source_code, range);
    assert_eq!(trimmed_range.start().raw, 0);
    assert_eq!(trimmed_range.end().raw, 13);
}

#[test]
fn cursor_offsets_count_utf8_bytes() {
    // "é" takes two bytes, so the second line starts at byte 4.
    let source = "éa\nxyz\n";
    let size = cursor_to_size(source, Cursor::new(2, 2)).unwrap();
    assert_eq!(size.raw, 6);
}

#[test]
fn cursor_past_the_last_line_counts_every_line() {
    let source = "ab\ncd";
    let size = cursor_to_size(source, Cursor::new(9, 1)).unwrap();
    assert_eq!(size.raw, 7);
}

#[test]
fn range_at_the_very_start_begins_at_zero() {
    let range = cursor_to_range("abc\n", Cursor::new(1, 0), Cursor::new(1, 2)).unwrap();
    assert_eq!(range.start().raw, 0);
    assert_eq!(range.end().raw, 2);
}

#[test]
fn range_with_zero_end_line_fails() {
    let result = cursor_to_range("abc\n", Cursor::new(1, 1), Cursor::new(0, 2));
    assert!(matches!(result, Err(ExtractionError::ZeroLineIndex)));
}

#[test]
fn trim_moves_the_end_back_over_whitespace_only_inside_the_range() {
    // Range 2..6 of "ab  cd  ": the end is at byte 6 after "cd"; nothing to trim.
    let source = "ab  cd  ";
    let r = trim_whitespace(source, TextRange::new(TextSize::from(2), TextSize::from(8)));
    assert_eq!(r.end().raw, 6);
    assert_eq!(r.start().raw, 0);
    // From 5 the trailing spaces are trimmed back to 6.
    let r = trim_whitespace(source, TextRange::new(TextSize::from(5), TextSize::from(7)));
    assert_eq!(r.end().raw, 6);
}

#[test]
fn trim_does_not_pass_the_range_start() {
    let source = "a   b";
    let r = trim_whitespace(source, TextRange::new(TextSize::from(2), TextSize::from(4)));
    // Bytes 2 and 3 are spaces at or after the start and are trimmed; byte 1 is not.
    assert_eq!(r.end().raw, 2);
    assert_eq!(r.start().raw, 0);
}

#[test]
fn trim_skips_a_leading_space_at_offset_zero() {
    let source = " x y";
    let r = trim_whitespace(source, TextRange::new(TextSize::from(0), TextSize::from(4)));
    assert_eq!(r.start().raw, 1);
    assert_eq!(r.end().raw, 4);
}

#[test]
fn trim_skips_all_leading_whitespace_at_offset_zero() {
    let source = "  a";
    let r = trim_whitespace(source, TextRange::new(TextSize::from(0), TextSize::from(3)));
    assert_eq!(r.start().raw, 2);
    assert_eq!(r.end().raw, 3);
    // Spaces and line breaks alike, but never past the trimmed end.
    let r = trim_whitespace(" \n\t x", TextRange::new(TextSize::from(0), TextSize::from(5)));
    assert_eq!((r.start().raw, r.end().raw), (4, 5));
    let r = trim_whitespace("   x", TextRange::new(TextSize::from(0), TextSize::from(2)));
    assert_eq!((r.start().raw, r.end().raw), (0, 0));
}

#[test]
fn trim_keeps_start_zero_for_a_range_that_starts_elsewhere() {
    let r = trim_whitespace("  a b", TextRange::new(TextSize::from(1), TextSize::from(5)));
    assert_eq!((r.start().raw, r.end().raw), (0, 5));
}

#[test]
fn trim_end_stops_before_a_character_cut_by_the_range() {
    // "é" spans bytes 1..3; a range ending at byte 2 ends before it.
    let source = "aé";
    let r = trim_whitespace(source, TextRange::new(TextSize::from(0), TextSize::from(2)));
    assert_eq!(r.end().raw, 1);
}

fn input(start: (usize, usize), end: (usize, usize)) -> ExtractionInput {
    ExtractionInput::new_raw("in.rs", "out.rs", "fun_name", start.0, start.1, end.0, end.1)
}

#[test]
fn input_constructors_keep_their_arguments() {
    let a = ExtractionInput::new("in.rs", "out.rs", "f", Cursor::new(1, 2), Cursor::new(3, 4));
    assert_eq!(a.file_path, "in.rs");
    assert_eq!(a.output_path, "out.rs");
    assert_eq!(a.new_fn_name, "f");
    assert_eq!(a.start_cursor, Cursor::new(1, 2));
    assert_eq!(a.end_cursor, Cursor::new(3, 4));
    let b = input((1, 2), (3, 4));
    assert_eq!(b.start_cursor, Cursor { line: 1, column: 2 });
    assert_eq!(b.end_cursor, Cursor { line: 3, column: 4 });
}

#[test]
fn line_checks() {
    let source = "a\nb\nc\nd\n";
    assert!(matches!(
        check_line_numbers(&input((0, 1), (2, 1)), source),
        Err(ExtractionError::ZeroLineIndex)
    ));
    assert!(matches!(
        check_line_numbers(&input((1, 1), (0, 1)), source),
        Err(ExtractionError::ZeroLineIndex)
    ));
    assert!(matches!(
        check_line_numbers(&input((3, 1), (2, 1)), source),
        Err(ExtractionError::InvalidLineRange)
    ));
    // Four lines, counted from 1: line 4 is the last one, line 5 is past it.
    assert!(matches!(
        check_line_numbers(&input((1, 1), (5, 1)), source),
        Err(ExtractionError::InvalidLineRange)
    ));
    assert!(check_line_numbers(&input((1, 1), (4, 1)), source).is_ok());
    assert!(check_line_numbers(&input((1, 1), (3, 1)), source).is_ok());
    // The last line of a two-line text can end a selection.
    assert!(check_line_numbers(&input((1, 1), (2, 1)), "a\nb\n").is_ok());
}

#[test]
fn column_checks() {
    assert!(matches!(
        check_columns(&input((2, 5), (2, 4))),
        Err(ExtractionError::InvalidColumnRange)
    ));
    assert!(check_columns(&input((2, 5), (3, 4))).is_ok());
    assert!(check_columns(&input((2, 4), (2, 5))).is_ok());
    assert!(matches!(
        check_cursors_differ(&input((2, 4), (2, 4))),
        Err(ExtractionError::InvalidCursor)
    ));
}

#[test]
fn extract_method_hands_back_the_source() {
    let source = "fn main() {\n    let x = 1;\n    let y = 2;\n}\n";
    let out = extract_method(input((2, 5), (3, 15)), source).unwrap();
    assert_eq!(out, source);
}

#[test]
fn extract_method_reports_the_first_failure() {
    let source = "fn main() {\n    let x = 1;\n}\n";
    assert!(matches!(
        extract_method(input((2, 5), (2, 5)), source),
        Err(ExtractionError::InvalidCursor)
    ));
    assert!(matches!(
        extract_method(input((0, 5), (2, 5)), source),
        Err(ExtractionError::ZeroLineIndex)
    ));
    assert!(matches!(
        extract_method(input((2, 5), (4, 1)), source),
        Err(ExtractionError::InvalidLineRange)
    ));
    assert!(matches!(
        extract_method(input((2, 5), (2, 1)), source),
        Err(ExtractionError::InvalidColumnRange)
    ));
}

#[test]
fn error_messages() {
    assert_eq!(ExtractionError::InvalidLineRange.describe(), "Invalid line range");
    assert_eq!(ExtractionError::InvalidColumnRange.describe(), "Invalid column range");
    assert_eq!(ExtractionError::FormatError.describe(), "Formatting error");
    let io = ExtractionError::from(std::io::Error::new(std::io::ErrorKind::NotFound, "gone"));
    assert_eq!(io.describe(), "I/O error: gone");
}

#[test]
fn selection_fits_checks_offsets() {
    let source = "abc\ndef\n";
    assert!(selection_fits_in(&input((1, 1), (2, 2)), source));
    // Starts after it ends: (1, 9) names byte 9, the end (2, 1) names byte 5.
    assert!(!selection_fits_in(&input((1, 9), (2, 1)), source));
    assert!(!selection_fits_in(&input((1, 1), (2, usize::MAX)), source));
    assert!(check_line_order(&input((1, 1), (2, 2))).is_ok());
    assert!(matches!(
        check_line_order(&input((2, 1), (1, 2))),
        Err(ExtractionError::InvalidLineRange)
    ));
}

#[test]
fn checked_selection_with_start_on_its_line_is_ordered() {
    let source = "abc\ndef\nghi\n";
    let selection = input((1, 4), (2, 1));
    assert!(rem_extract::range_extraction::verify_input(&selection, source).is_ok());
    assert!(selection_fits_in(&selection, source));
    let range = cursor_to_range(source, selection.start_cursor, selection.end_cursor).unwrap();
    assert_eq!((range.start().raw, range.end().raw), (3, 5));
}
