//! Extraction of the code between two cursors: the selection is checked
//! against the source text, turned into a byte range and trimmed of
//! surrounding whitespace.

use vstd::prelude::*;

use crate::error::ExtractionError;
use crate::rust_analyzer::range::TextRange;
use crate::rust_analyzer::size::TextSize;
use crate::text::{
    byte_len, byte_length, chars_of, is_whitespace, is_whitespace_char, lemma_ascii_byte_len,
    lemma_ascii_whitespace, lemma_byte_len_take_mono, lemma_byte_len_take_step, lines_of,
    read_lines, string_views, utf8_width,
};

verus! {

/// A position in a source file: a line and a column, both counted from 1.
#[derive(Debug, PartialEq, Eq, Structural, Clone, Copy)]
pub struct Cursor {
    pub line: usize,
    pub column: usize,
}

impl Cursor {
    /// The cursor at `line` and `column`.
    pub fn new(line: usize, column: usize) -> (c: Cursor)
        ensures
            c.line == line,
            c.column == column,
    {
        Cursor { line, column }
    }
}

/// What to extract: the file, where the result goes, the name of the new
/// function and the selection between two cursors.
#[derive(Debug, PartialEq, Clone)]
pub struct ExtractionInput {
    pub file_path: String,
    pub output_path: String,
    pub new_fn_name: String,
    pub start_cursor: Cursor,
    pub end_cursor: Cursor,
}

impl ExtractionInput {
    /// The input with the given paths, name and cursors.
    pub fn new(
        file_path: &str,
        output_path: &str,
        new_fn_name: &str,
        start_cursor: Cursor,
        end_cursor: Cursor,
    ) -> (r: ExtractionInput)
        ensures
            r.file_path@ == file_path@,
            r.output_path@ == output_path@,
            r.new_fn_name@ == new_fn_name@,
            r.start_cursor == start_cursor,
            r.end_cursor == end_cursor,
    {
        ExtractionInput {
            file_path: String::from_str(file_path),
            output_path: String::from_str(output_path),
            new_fn_name: String::from_str(new_fn_name),
            start_cursor,
            end_cursor,
        }
    }

    /// The input with the given paths and name, and cursors built from the
    /// four line and column numbers.
    pub fn new_raw(
        file_path: &str,
        output_path: &str,
        new_fn_name: &str,
        start_cursor: usize,
        start_column: usize,
        end_cursor: usize,
        end_column: usize,
    ) -> (r: ExtractionInput)
        ensures
            r.file_path@ == file_path@,
            r.output_path@ == output_path@,
            r.new_fn_name@ == new_fn_name@,
            r.start_cursor == (Cursor { line: start_cursor, column: start_column }),
            r.end_cursor == (Cursor { line: end_cursor, column: end_column }),
    {
        ExtractionInput {
            file_path: String::from_str(file_path),
            output_path: String::from_str(output_path),
            new_fn_name: String::from_str(new_fn_name),
            start_cursor: Cursor::new(start_cursor, start_column),
            end_cursor: Cursor::new(end_cursor, end_column),
        }
    }
}

// ========================================
// Checks on the selection
// ========================================

/// The first thing wrong with the line numbers of the selection in a text:
/// a zero line, lines out of order, or an end line past the last line of
/// the text.
pub open spec fn line_failure(input: ExtractionInput, source: Seq<char>) -> Option<
    ExtractionError,
> {
    if input.start_cursor.line == 0 || input.end_cursor.line == 0 {
        Some(ExtractionError::ZeroLineIndex)
    } else if input.start_cursor.line > input.end_cursor.line {
        Some(ExtractionError::InvalidLineRange)
    } else if input.end_cursor.line > lines_of(source).len() {
        Some(ExtractionError::InvalidLineRange)
    } else {
        None
    }
}

/// What is wrong with the columns of the selection: on a single line, the
/// end may not lie before the start.
pub open spec fn column_failure(input: ExtractionInput) -> Option<ExtractionError> {
    if input.start_cursor.line == input.end_cursor.line && input.start_cursor.column
        > input.end_cursor.column {
        Some(ExtractionError::InvalidColumnRange)
    } else {
        None
    }
}

/// The first thing wrong with the selection in a text, if anything is.
pub open spec fn verify_failure(input: ExtractionInput, source: Seq<char>) -> Option<
    ExtractionError,
> {
    match line_failure(input, source) {
        Some(e) => Some(e),
        None => column_failure(input),
    }
}

/// The checks on the line numbers that need no source text: both lines
/// are at least 1 and the start line is not after the end line.
pub fn check_line_order(input: &ExtractionInput) -> (r: Result<(), ExtractionError>)
    ensures
        input.start_cursor.line == 0 || input.end_cursor.line == 0 ==> r == Err::<
            (),
            ExtractionError,
        >(ExtractionError::ZeroLineIndex),
        input.start_cursor.line != 0 && input.end_cursor.line != 0 && input.start_cursor.line
            > input.end_cursor.line ==> r == Err::<(), ExtractionError>(
            ExtractionError::InvalidLineRange,
        ),
        r is Ok <==> (input.start_cursor.line != 0 && input.end_cursor.line != 0
            && input.start_cursor.line <= input.end_cursor.line),
{
    // Lines count from 1, so line 0 names nothing.
    if input.start_cursor.line == 0 {
        return Err(ExtractionError::ZeroLineIndex);
    }
    if input.end_cursor.line == 0 {
        return Err(ExtractionError::ZeroLineIndex);
    }
    if input.start_cursor.line > input.end_cursor.line {
        return Err(ExtractionError::InvalidLineRange);
    }
    Ok(())
}

/// Checks the line numbers of the selection against the source text.
pub fn check_line_numbers(input: &ExtractionInput, source_code: &str) -> (r: Result<
    (),
    ExtractionError,
>)
    ensures
        match line_failure(*input, source_code@) {
            Some(e) => r == Err::<(), ExtractionError>(e),
            None => r is Ok,
        },
{
    check_line_order(input)?;
    let lines = read_lines(source_code);
    let num_lines = lines.len();
    proof {
        assert(string_views(lines@).len() == lines@.len());
    }
    if input.end_cursor.line > num_lines {
        return Err(ExtractionError::InvalidLineRange);
    }
    Ok(())
}

/// Checks that a single-line selection does not end before it starts.
pub fn check_columns(input: &ExtractionInput) -> (r: Result<(), ExtractionError>)
    ensures
        match column_failure(*input) {
            Some(e) => r == Err::<(), ExtractionError>(e),
            None => r is Ok,
        },
{
    if input.start_cursor.line == input.end_cursor.line && input.start_cursor.column
        > input.end_cursor.column {
        return Err(ExtractionError::InvalidColumnRange);
    }
    Ok(())
}

/// Runs the checks on the selection one after the other.
pub fn verify_input(input: &ExtractionInput, source_code: &str) -> (r: Result<
    (),
    ExtractionError,
>)
    ensures
        match verify_failure(*input, source_code@) {
            Some(e) => r == Err::<(), ExtractionError>(e),
            None => r is Ok,
        },
{
    check_line_numbers(input, source_code)?;
    check_columns(input)?;
    Ok(())
}

/// Checks that the selection does not start and end at the same place.
pub fn check_cursors_differ(input: &ExtractionInput) -> (r: Result<(), ExtractionError>)
    ensures
        r is Ok <==> input.start_cursor != input.end_cursor,
        r is Err ==> r == Err::<(), ExtractionError>(ExtractionError::InvalidCursor),
{
    if input.start_cursor.line == input.end_cursor.line && input.start_cursor.column
        == input.end_cursor.column {
        return Err(ExtractionError::InvalidCursor);
    }
    Ok(())
}

// ========================================
// Offsets
// ========================================

/// The number of bytes of the first `k` lines, each with its line break.
pub open spec fn lines_prefix_len(lines: Seq<Seq<char>>, k: nat) -> nat
    decreases k,
{
    if k == 0 || k > lines.len() {
        0
    } else {
        lines_prefix_len(lines, (k - 1) as nat) + byte_len(lines[k - 1]) + 1
    }
}

/// The byte offset that a cursor names in a text: the bytes of the lines
/// before the cursor's line, each with its line break, and then `column`
/// bytes, so that with columns counted from 1 it is the offset just after
/// the character under the cursor. A line past the end of the text counts
/// all of its lines.
pub open spec fn cursor_offset(lines: Seq<Seq<char>>, cursor: Cursor) -> nat {
    let before = if cursor.line - 1 < lines.len() {
        (cursor.line - 1) as nat
    } else {
        lines.len()
    };
    lines_prefix_len(lines, before) + cursor.column as nat
}

/// The offset where a selection that starts at `cursor` begins: just
/// before the character under the cursor (0 at the very start).
pub open spec fn range_start_offset(lines: Seq<Seq<char>>, cursor: Cursor) -> nat {
    if cursor_offset(lines, cursor) > 0 {
        (cursor_offset(lines, cursor) - 1) as nat
    } else {
        0
    }
}

/// Prefix sums of line lengths grow with the number of lines.
proof fn lemma_lines_prefix_len_mono(lines: Seq<Seq<char>>, j: nat, k: nat)
    requires
        j <= k <= lines.len(),
    ensures
        lines_prefix_len(lines, j) <= lines_prefix_len(lines, k),
    decreases k - j,
{
    if j < k {
        lemma_lines_prefix_len_mono(lines, j, (k - 1) as nat);
    }
}

/// A selection that passes the checks spans a range that does not start
/// after it ends, as long as the start column lies on its line (at most
/// one past its last byte).
pub proof fn lemma_checked_selection_is_ordered(input: ExtractionInput, source: Seq<char>)
    requires
        verify_failure(input, source) is None,
        input.start_cursor.column <= byte_len(lines_of(source)[input.start_cursor.line - 1])
            + 1,
    ensures
        range_start_offset(lines_of(source), input.start_cursor) <= cursor_offset(
            lines_of(source),
            input.end_cursor,
        ),
{
    let lines = lines_of(source);
    let a = input.start_cursor.line;
    let b = input.end_cursor.line;
    if a < b {
        assert(lines_prefix_len(lines, a as nat) == lines_prefix_len(lines, (a - 1) as nat)
            + byte_len(lines[a - 1]) + 1);
        lemma_lines_prefix_len_mono(lines, a as nat, (b - 1) as nat);
    }
}

/// Converts a cursor into the byte offset it names in `source_code`.
pub fn cursor_to_size(source_code: &str, cursor: Cursor) -> (r: Result<TextSize, ExtractionError>)
    requires
        cursor.line > 0 ==> cursor_offset(lines_of(source_code@), cursor) <= u32::MAX,
    ensures
        cursor.line == 0 ==> r == Err::<TextSize, ExtractionError>(
            ExtractionError::ZeroLineIndex,
        ),
        cursor.line > 0 ==> r == Ok::<TextSize, ExtractionError>(
            TextSize { raw: cursor_offset(lines_of(source_code@), cursor) as u32 },
        ),
{
    // Lines count from 1, so line 0 names nothing.
    if cursor.line == 0 {
        return Err(ExtractionError::ZeroLineIndex);
    }
    let lines: Vec<String> = read_lines(source_code);
    let ghost views = string_views(lines@);
    let n = lines.len();
    let before: usize = if cursor.line - 1 < n {
        cursor.line - 1
    } else {
        n
    };
    let mut count: u32 = 0;
    let mut i: usize = 0;
    // Add the length of every line before the cursor's, with its line break.
    while i < before
        invariant
            views == string_views(lines@),
            views == lines_of(source_code@),
            n == lines.len() == views.len(),
            i <= before <= n,
            count == lines_prefix_len(views, i as nat),
            lines_prefix_len(views, before as nat) + cursor.column <= u32::MAX,
        decreases before - i,
    {
        proof {
            lemma_lines_prefix_len_mono(views, (i + 1) as nat, before as nat);
            assert(views[i as int] == lines@[i as int]@);
        }
        let width = byte_length(lines[i].as_str());
        count = count + width as u32 + 1;
        i += 1;
    }
    // Then the column.
    count = count + cursor.column as u32;
    Ok(TextSize::from(count))
}

/// The offset that a cursor names among `lines`, when it fits 32 bits.
fn checked_cursor_offset(lines: &Vec<String>, cursor: Cursor) -> (r: Option<u32>)
    requires
        cursor.line > 0,
    ensures
        match r {
            Some(x) => x == cursor_offset(string_views(lines@), cursor),
            None => cursor_offset(string_views(lines@), cursor) > u32::MAX,
        },
{
    let ghost views = string_views(lines@);
    let n = lines.len();
    let before: usize = if cursor.line - 1 < n {
        cursor.line - 1
    } else {
        n
    };
    let mut count: u64 = 0;
    let mut i: usize = 0;
    while i < before
        invariant
            views == string_views(lines@),
            n == lines.len() == views.len(),
            i <= before <= n,
            count == lines_prefix_len(views, i as nat),
            count <= u32::MAX,
            cursor_offset(views, cursor) == lines_prefix_len(views, before as nat)
                + cursor.column,
        decreases before - i,
    {
        proof {
            assert(views[i as int] == lines@[i as int]@);
        }
        let width: usize = byte_length(lines[i].as_str());
        if width > u32::MAX as usize {
            proof {
                lemma_lines_prefix_len_mono(views, (i + 1) as nat, before as nat);
            }
            return None;
        }
        count = count + width as u64 + 1;
        i += 1;
        if count > u32::MAX as u64 {
            proof {
                lemma_lines_prefix_len_mono(views, i as nat, before as nat);
            }
            return None;
        }
    }
    if cursor.column as u64 > u32::MAX as u64 - count {
        return None;
    }
    Some((count + cursor.column as u64) as u32)
}

/// Whether the selection spans byte offsets that fit 32 bits and do not
/// start after they end, which `extract_method` asks of a valid selection.
pub fn selection_fits_in(input: &ExtractionInput, source_code: &str) -> (b: bool)
    requires
        input.start_cursor.line > 0,
        input.end_cursor.line > 0,
    ensures
        b == selection_fits(*input, source_code@),
{
    let lines = read_lines(source_code);
    let start = checked_cursor_offset(&lines, input.start_cursor);
    let end = checked_cursor_offset(&lines, input.end_cursor);
    match (start, end) {
        (Some(s), Some(e)) => {
            let range_start = if s > 0 {
                s - 1
            } else {
                0
            };
            range_start <= e
        },
        _ => false,
    }
}

/// Converts a selection between two cursors into the byte range from just
/// before the character under the start cursor to just after the
/// character under the end cursor.
pub fn cursor_to_range(source_code: &str, start_cursor: Cursor, end_cursor: Cursor) -> (r: Result<
    TextRange,
    ExtractionError,
>)
    requires
        start_cursor.line > 0 ==> cursor_offset(lines_of(source_code@), start_cursor) <= u32::MAX,
        start_cursor.line > 0 && end_cursor.line > 0 ==> cursor_offset(
            lines_of(source_code@),
            end_cursor,
        ) <= u32::MAX && range_start_offset(lines_of(source_code@), start_cursor)
            <= cursor_offset(lines_of(source_code@), end_cursor),
    ensures
        start_cursor.line == 0 || end_cursor.line == 0 ==> r matches Err(
            ExtractionError::ZeroLineIndex,
        ),
        start_cursor.line > 0 && end_cursor.line > 0 ==> (r matches Ok(range) && range@ == (
            range_start_offset(lines_of(source_code@), start_cursor),
            cursor_offset(lines_of(source_code@), end_cursor),
        )),
{
    let start_offset: TextSize = cursor_to_size(source_code, start_cursor)?;
    let end_offset: TextSize = cursor_to_size(source_code, end_cursor)?;
    let start = if start_offset.raw > 0 {
        TextSize::new(start_offset.raw - 1)
    } else {
        start_offset
    };
    Ok(TextRange::new(start, end_offset))
}

// ========================================
// Trimming
// ========================================

/// The index of the first character of `source` at or after `i` that is
/// not whitespace (the length of `source` when there is none).
pub open spec fn first_non_whitespace_from(source: Seq<char>, i: nat) -> nat
    decreases source.len() - i,
{
    if i < source.len() && is_whitespace_char(source[i as int]) {
        first_non_whitespace_from(source, i + 1)
    } else {
        i
    }
}

/// Where the trimmed range starts before it is bounded by its end: a range
/// that starts at 0 skips all the whitespace at the start of the text, and
/// any other range starts at 0.
pub open spec fn leading_skip(source: Seq<char>, start: nat) -> nat {
    if start == 0 {
        byte_len(source.take(first_non_whitespace_from(source, 0) as int))
    } else {
        0
    }
}

/// The scan for the first character that is not whitespace moves forward
/// and stops within the text, past any whitespace character it reaches.
proof fn lemma_first_non_whitespace_from_bounds(source: Seq<char>, i: nat)
    requires
        i <= source.len(),
    ensures
        i <= first_non_whitespace_from(source, i) <= source.len(),
        i < source.len() && is_whitespace_char(source[i as int]) ==> i + 1
            <= first_non_whitespace_from(source, i),
    decreases source.len() - i,
{
    if i < source.len() && is_whitespace_char(source[i as int]) {
        lemma_first_non_whitespace_from_bounds(source, i + 1);
    }
}

/// The number of characters, counted from `i`, whose encoding ends within
/// the first `limit` bytes of `source`.
pub open spec fn chars_within_from(source: Seq<char>, i: nat, limit: nat) -> nat
    decreases source.len() - i,
{
    if i < source.len() && byte_len(source.take(i + 1 as int)) <= limit {
        chars_within_from(source, i + 1, limit)
    } else {
        i
    }
}

/// The number of leading characters of `source` that lie within its first
/// `limit` bytes.
pub open spec fn chars_within(source: Seq<char>, limit: nat) -> nat {
    chars_within_from(source, 0, limit)
}

/// The first `k` characters of `source` without the whitespace at their end
/// that starts at byte `low` or later.
pub open spec fn trim_back(source: Seq<char>, k: nat, low: nat) -> nat
    decreases k,
{
    if k > 0 && byte_len(source.take(k - 1)) >= low && is_whitespace_char(source[k - 1]) {
        trim_back(source, (k - 1) as nat, low)
    } else {
        k
    }
}

/// The end of a range after trimming: the range end, moved back to a
/// character boundary and then back over whitespace, but not past the
/// range start.
pub open spec fn trimmed_end(source: Seq<char>, range: (nat, nat)) -> nat {
    byte_len(source.take(trim_back(source, chars_within(source, range.1), range.0) as int))
}

/// The start of a range after trimming, which never lies after its end.
pub open spec fn trimmed_start(source: Seq<char>, range: (nat, nat)) -> nat {
    let skip = leading_skip(source, range.0);
    let end = trimmed_end(source, range);
    if skip <= end {
        skip
    } else {
        end
    }
}

/// Trimming the end of a range removes only whitespace that starts at or
/// after the range start, and stops at the start of the text, at the range
/// start, or at a character that is not whitespace.
pub proof fn lemma_trim_back_removes_only_whitespace(source: Seq<char>, k: nat, low: nat)
    requires
        k <= source.len(),
    ensures
        trim_back(source, k, low) <= k,
        forall|i: int|
            trim_back(source, k, low) <= i < k ==> is_whitespace_char(#[trigger] source[i])
                && byte_len(source.take(i)) >= low,
        ({
            let j = trim_back(source, k, low);
            j == 0 || byte_len(source.take(j - 1)) < low || !is_whitespace_char(source[j - 1])
        }),
    decreases k,
{
    if k > 0 && byte_len(source.take(k - 1)) >= low && is_whitespace_char(source[k - 1]) {
        lemma_trim_back_removes_only_whitespace(source, (k - 1) as nat, low);
    }
}

/// In an ASCII text every offset is a character: the characters within the
/// first `limit` bytes are the first `limit` characters, or all of them.
proof fn lemma_ascii_chars_within_from(s: Seq<char>, i: nat, limit: nat)
    requires
        i <= s.len(),
        i <= limit,
        forall|j: int| 0 <= j < s.len() ==> (#[trigger] s[j] as u32) < 0x80,
    ensures
        chars_within_from(s, i, limit) == if limit < s.len() {
            limit
        } else {
            s.len()
        },
    decreases s.len() - i,
{
    if i < s.len() {
        lemma_ascii_byte_len(s, i + 1 as int);
        if i + 1 <= limit {
            lemma_ascii_chars_within_from(s, i + 1, limit);
        }
    }
}

/// In an ASCII text, trimming a range `start..end` moves its end back to
/// just after the last character in the range that is not tab, line feed,
/// vertical tab, form feed, carriage return or space, and to the range
/// start where there is none.
pub proof fn lemma_trimmed_end_of_ascii_text(s: Seq<char>, range: (nat, nat))
    requires
        forall|i: int| 0 <= i < s.len() ==> (#[trigger] s[i] as u32) < 0x80,
        range.0 <= range.1 <= s.len(),
    ensures
        ({
            let e = trimmed_end(s, range);
            &&& range.0 <= e <= range.1
            &&& forall|i: int|
                e <= i < range.1 ==> (0x09 <= (#[trigger] s[i] as u32) <= 0x0D || s[i] == ' ')
            &&& e == range.0 || !(0x09 <= (s[e - 1] as u32) <= 0x0D || s[e - 1] == ' ')
        }),
{
    let (a, b) = range;
    lemma_ascii_chars_within_from(s, 0, b);
    let j = trim_back(s, b, a);
    lemma_trim_back_removes_only_whitespace(s, b, a);
    lemma_ascii_byte_len(s, j as int);
    assert(trimmed_end(s, range) == j);
    if j < a {
        lemma_ascii_byte_len(s, j as int);
        assert(is_whitespace_char(s[j as int]) && byte_len(s.take(j as int)) >= a);
    }
    assert forall|i: int| j <= i < b implies (0x09 <= (#[trigger] s[i] as u32) <= 0x0D || s[i]
        == ' ') by {
        lemma_ascii_whitespace(s[i]);
    }
    if j > a {
        lemma_ascii_byte_len(s, j - 1);
        lemma_ascii_whitespace(s[j - 1]);
    }
}

/// Trims the whitespace at the end of a range; a range that starts at 0
/// also loses the whitespace at the start of the text.
pub fn trim_whitespace(source_code: &str, range: TextRange) -> (r: TextRange)
    ensures
        r@ == (trimmed_start(source_code@, range@), trimmed_end(source_code@, range@)),
        r@.0 <= r@.1 <= range@.1,
{
    let trimmed_start: TextSize = range.start();
    let trimmed_end: TextSize = range.end();
    let chars = chars_of(source_code);
    let n = chars.len();
    let ghost s = source_code@;

    // Walk forward over the characters that end within the range end.
    let mut k: usize = 0;
    let mut offset: u32 = 0;
    assert(s.take(0) =~= Seq::<char>::empty());
    while k < n && (offset as u64) + (utf8_width(chars[k]) as u64) <= (trimmed_end.raw as u64)
        invariant
            chars@ == s,
            n == chars.len(),
            k <= n,
            offset == byte_len(s.take(k as int)),
            offset <= trimmed_end.raw,
            chars_within(s, trimmed_end.raw as nat) == chars_within_from(
                s,
                k as nat,
                trimmed_end.raw as nat,
            ),
        decreases n - k,
    {
        proof {
            lemma_byte_len_take_step(s, k as int);
        }
        offset = offset + utf8_width(chars[k]) as u32;
        k += 1;
    }
    proof {
        if k < n {
            lemma_byte_len_take_step(s, k as int);
        }
    }
    let ghost within = k as nat;
    assert(chars_within(s, range@.1) == within);

    // Walk back over whitespace that starts at or after the range start.
    while k > 0 && offset - (utf8_width(chars[k - 1]) as u32) >= trimmed_start.raw && is_whitespace(
        chars[k - 1],
    )
        invariant
            chars@ == s,
            n == chars.len(),
            k <= n,
            offset == byte_len(s.take(k as int)),
            offset <= trimmed_end.raw,
            trimmed_start.raw == range@.0,
            trim_back(s, within, range@.0) == trim_back(s, k as nat, range@.0),
        decreases k,
    {
        proof {
            lemma_byte_len_take_step(s, k - 1);
            assert(byte_len(s.take(k - 1)) >= range@.0);
            assert(is_whitespace_char(s[k - 1]));
            assert(trim_back(s, k as nat, range@.0) == trim_back(s, (k - 1) as nat, range@.0));
        }
        offset = offset - utf8_width(chars[k - 1]) as u32;
        k -= 1;
    }
    proof {
        if k > 0 {
            lemma_byte_len_take_step(s, k - 1);
        }
    }
    let end: u32 = offset;

    // A range that starts at 0 starts after the whitespace at the start of
    // the text, but not after its own end.
    let start: u32 = if trimmed_start.raw == 0 {
        let mut j: usize = 0;
        let mut skip: u32 = 0;
        let mut capped: bool = false;
        assert(s.take(0) =~= Seq::<char>::empty());
        while j < n && is_whitespace(chars[j])
            invariant_except_break
                chars@ == s,
                n == chars.len(),
                j <= n,
                skip == byte_len(s.take(j as int)),
                skip <= end,
                first_non_whitespace_from(s, 0) == first_non_whitespace_from(s, j as nat),
                !capped,
            ensures
                chars@ == s,
                j <= n,
                skip <= end,
                capped ==> leading_skip(s, 0) >= end,
                !capped ==> skip == leading_skip(s, 0),
            decreases n - j,
        {
            proof {
                lemma_byte_len_take_step(s, j as int);
            }
            let w: u32 = utf8_width(chars[j]) as u32;
            if (skip as u64) + (w as u64) > (end as u64) {
                proof {
                    lemma_first_non_whitespace_from_bounds(s, j as nat);
                    lemma_byte_len_take_mono(
                        s,
                        j + 1,
                        first_non_whitespace_from(s, j as nat) as int,
                    );
                }
                capped = true;
                break;
            }
            skip = skip + w;
            j += 1;
        }
        if capped {
            end
        } else {
            skip
        }
    } else {
        0
    };
    TextRange::new(TextSize::from(start), TextSize::from(end))
}

// ========================================
// Extraction
// ========================================

/// Whether the offsets of a selection fit a `TextSize` and the range they
/// span does not start after it ends.
pub open spec fn selection_fits(input: ExtractionInput, source: Seq<char>) -> bool {
    let lines = lines_of(source);
    &&& cursor_offset(lines, input.start_cursor) <= u32::MAX
    &&& cursor_offset(lines, input.end_cursor) <= u32::MAX
    &&& range_start_offset(lines, input.start_cursor) <= cursor_offset(lines, input.end_cursor)
}

/// The first thing wrong with a selection, the cursors that coincide
/// included.
pub open spec fn extraction_failure(input: ExtractionInput, source: Seq<char>) -> Option<
    ExtractionError,
> {
    if input.start_cursor == input.end_cursor {
        Some(ExtractionError::InvalidCursor)
    } else {
        verify_failure(input, source)
    }
}

/// Checks the selection against the source text, turns it into a byte range
/// and trims it; hands back the source text, which the extraction leaves
/// as it is.
pub fn extract_method(input: ExtractionInput, source_code: &str) -> (r: Result<
    String,
    ExtractionError,
>)
    requires
        extraction_failure(input, source_code@) is None ==> selection_fits(input, source_code@),
    ensures
        match extraction_failure(input, source_code@) {
            Some(e) => r == Err::<String, ExtractionError>(e),
            None => (r matches Ok(out) && out@ == source_code@),
        },
{
    check_cursors_differ(&input)?;
    verify_input(&input, source_code)?;
    let initial_range: TextRange = cursor_to_range(
        source_code,
        input.start_cursor,
        input.end_cursor,
    )?;
    let _range: TextRange = trim_whitespace(source_code, initial_range);
    Ok(String::from_str(source_code))
}

} // verus!
