use rem_extract::extraction::{extract_method, verify_input, ExtractionInput};
use rem_extract::error::ExtractionError;
use rem_extract::splice::{append_function, replace_lines_with_call};
use rem_extract::text::{is_whitespace, read_lines, trim};

#[test]
fn lines_follow_str_lines() {
    for text in ["", "\n", "a", "a\n", "a\r\nb", "a\rb\n", "a\n\nb\n\n", "x\r"] {
        let expected: Vec<String> = text.lines().map(String::from).collect();
        assert_eq!(read_lines(text), expected, "{:?}", text);
    }
}

#[test]
fn whitespace_follows_char_is_whitespace() {
    for c in ['\t', '\n', ' ', 'a', '\u{85}', '\u{a0}', '\u{2003}', '\u{3000}', '\u{200b}', 'é'] {
        assert_eq!(is_whitespace(c), c.is_whitespace(), "{:?}", c);
    }
}

#[test]
fn trim_follows_str_trim() {
    for text in ["", "  ", " a b ", "\u{3000}x\n", "x"] {
        assert_eq!(trim(text), text.trim());
    }
}

#[test]
fn splice_replaces_the_extracted_lines() {
    let source = "fn main() {\n    let x = 10;\n    let y = 20;\n    let sum = x + y;\n}";
    let modified = replace_lines_with_call(source, 1, 3, "calculate_sum");
    assert_eq!(modified, "fn main() {\ncalculate_sum();\n\n\n}");
    assert_eq!(
        append_function(&modified, "fn calculate_sum () { }"),
        "fn main() {\ncalculate_sum();\n\n\n}\n\nfn calculate_sum () { }"
    );
}

#[test]
fn splice_outside_the_text_leaves_it() {
    assert_eq!(replace_lines_with_call("a\nb\n", 5, 6, "f"), "a\nb");
}

fn input(start: (usize, usize), end: (usize, usize)) -> ExtractionInput {
    ExtractionInput::new_raw("in.rs", "out.rs", "fun_name", start.0, start.1, end.0, end.1)
}

#[test]
fn syn_extraction_checks_then_parses() {
    let good = "fn main() {\n    let x = 1;\n}\n";
    assert_eq!(extract_method(input((1, 1), (2, 3)), good).unwrap(), good);
    let bad = "fn main( {\n    let x = 1;\n}\n";
    assert!(matches!(extract_method(input((1, 1), (2, 3)), bad), Err(ExtractionError::Parse(_))));
    assert!(matches!(
        extract_method(input((3, 1), (2, 3)), good),
        Err(ExtractionError::InvalidLineRange)
    ));
    // Line 0 is not refused by this version of the checks.
    assert!(verify_input(&input((0, 1), (2, 3)), good).is_ok());
}

#[test]
fn syn_extraction_end_line_must_be_below_the_line_count() {
    let two_lines = "a\nb\n";
    assert!(verify_input(&input((1, 1), (1, 1)), two_lines).is_ok());
    assert!(matches!(
        verify_input(&input((1, 1), (2, 1)), two_lines),
        Err(ExtractionError::InvalidLineRange)
    ));
    assert!(matches!(
        verify_input(&input((0, 1), (1, 1)), "a\n"),
        Err(ExtractionError::InvalidLineRange)
    ));
}
