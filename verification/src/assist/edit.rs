//! The edit that an assist makes to a file: replacements of byte ranges of
//! the original text, sorted and disjoint, the snippet stops marked in the
//! edited text, and the renaming of the new function that follows them.

use vstd::prelude::*;

use crate::assist::utils::{rename_function, replace_all};
use crate::range_extraction::{chars_within, chars_within_from};
use crate::text::{
    byte_len, byte_length, chars_of, lemma_byte_len_take_mono, lemma_byte_len_take_step,
    push_char, push_str, string_from_chars, utf8_width,
};

verus! {

/// One replacement of an edit: the bytes `start..end` of the original text
/// give way to `insert`.
#[derive(Debug, PartialEq, Clone)]
pub struct Indel {
    pub insert: String,
    pub start: u32,
    pub end: u32,
}

/// Whether byte offset `off` falls between two characters of `text` (or at
/// its end).
pub open spec fn is_char_boundary(text: Seq<char>, off: nat) -> bool {
    byte_len(text.take(chars_within(text, off) as int)) == off
}

/// Whether the replacements can be applied to `text`: each range is in
/// order and bounded by characters of the text, and each ends before the
/// next one starts.
pub open spec fn indels_fit(text: Seq<char>, indels: Seq<Indel>) -> bool {
    &&& forall|i: int|
        0 <= i < indels.len() ==> (#[trigger] indels[i]).start <= indels[i].end
            && is_char_boundary(text, indels[i].start as nat) && is_char_boundary(
            text,
            indels[i].end as nat,
        )
    &&& forall|i: int, j: int|
        0 <= i < j < indels.len() ==> (#[trigger] indels[i]).end <= (#[trigger] indels[j]).start
}

/// The text from character `pos` on, with the replacements from the `i`-th
/// on applied.
pub open spec fn apply_indels_from(text: Seq<char>, indels: Seq<Indel>, i: nat, pos: nat) -> Seq<
    char,
>
    decreases indels.len() - i,
{
    if i < indels.len() {
        let start = chars_within(text, indels[i as int].start as nat);
        let end = chars_within(text, indels[i as int].end as nat);
        text.subrange(pos as int, start as int) + indels[i as int].insert@ + apply_indels_from(
            text,
            indels,
            i + 1,
            end,
        )
    } else {
        text.subrange(pos as int, text.len() as int)
    }
}

/// `text` with each replaced range given way to its insert.
pub open spec fn apply_indels(text: Seq<char>, indels: Seq<Indel>) -> Seq<char> {
    apply_indels_from(text, indels, 0, 0)
}

/// An edit without replacements leaves the text as it was.
pub proof fn lemma_empty_edit_keeps_text(text: Seq<char>)
    ensures
        apply_indels(text, Seq::<Indel>::empty()) == text,
{
    assert(text.subrange(0, text.len() as int) =~= text);
}

/// `text` with its bytes `start..end` replaced by `insert`, as
/// `String::replace_range` does on character boundaries.
pub open spec fn replace_bytes(text: Seq<char>, start: nat, end: nat, insert: Seq<char>) -> Seq<
    char,
> {
    text.take(chars_within(text, start) as int) + insert + text.skip(
        chars_within(text, end) as int,
    )
}

/// Two texts that share their first `m` characters agree on the characters
/// within any byte limit that those `m` characters reach.
proof fn lemma_chars_within_shared_prefix(s: Seq<char>, t: Seq<char>, m: nat, off: nat, i: nat)
    requires
        m <= s.len(),
        m <= t.len(),
        s.take(m as int) == t.take(m as int),
        off <= byte_len(s.take(m as int)),
        i <= m,
    ensures
        chars_within_from(s, i, off) == chars_within_from(t, i, off),
        chars_within_from(s, i, off) <= m,
    decreases m - i,
{
    assert(byte_len(s.take(m as int)) == byte_len(t.take(m as int)));
    if i < m {
        assert(s.take(i + 1 as int) =~= s.take(m as int).take(i + 1 as int));
        assert(t.take(i + 1 as int) =~= t.take(m as int).take(i + 1 as int));
        lemma_chars_within_shared_prefix(s, t, m, off, i + 1);
    } else {
        if m < s.len() {
            lemma_byte_len_take_step(s, m as int);
        }
        if m < t.len() {
            lemma_byte_len_take_step(t, m as int);
        }
    }
}

/// Applying the replacements from the `i`-th on, from character `pos` on,
/// gives the same text before and after the last replacement is made on
/// its own, since that one lies after all the others.
proof fn lemma_apply_from_after_last(text: Seq<char>, indels: Seq<Indel>, i: nat, pos: nat)
    requires
        indels_fit(text, indels),
        indels.len() >= 1,
        i < indels.len(),
        pos <= chars_within(text, indels[i as int].start as nat),
    ensures
        ({
            let last = indels.last();
            let replaced = replace_bytes(text, last.start as nat, last.end as nat, last.insert@);
            apply_indels_from(text, indels, i, pos) == apply_indels_from(
                replaced,
                indels.drop_last(),
                i,
                pos,
            )
        }),
    decreases indels.len() - i,
{
    let n = indels.len();
    let last = indels[n - 1];
    assert(indels.last() == last);
    let cs_last = chars_within(text, last.start as nat);
    let ce_last = chars_within(text, last.end as nat);
    let replaced = replace_bytes(text, last.start as nat, last.end as nat, last.insert@);
    let rest = indels.drop_last();
    lemma_chars_within_from_bounds(text, 0, last.start as nat);
    lemma_chars_within_from_bounds(text, 0, last.end as nat);
    lemma_boundary_index_mono(text, last.start as nat, last.end as nat);
    let cur = indels[i as int];
    if i == n - 1 {
        assert(rest.len() == i);
        assert(cur == last);
        assert(apply_indels_from(text, indels, n as nat, ce_last) == text.subrange(
            ce_last as int,
            text.len() as int,
        ));
        assert(apply_indels_from(text, indels, i, pos) == text.subrange(pos as int, cs_last as int)
            + last.insert@ + apply_indels_from(text, indels, n as nat, ce_last));
        assert(apply_indels_from(replaced, rest, i, pos) == replaced.subrange(
            pos as int,
            replaced.len() as int,
        ));
        assert(replaced.subrange(pos as int, replaced.len() as int) =~= text.subrange(
            pos as int,
            cs_last as int,
        ) + last.insert@ + text.subrange(ce_last as int, text.len() as int));
    } else {
        assert(rest[i as int] == cur);
        assert(cur.start <= cur.end <= last.start);
        assert(replaced.take(cs_last as int) =~= text.take(cs_last as int));
        lemma_chars_within_shared_prefix(text, replaced, cs_last, cur.start as nat, 0);
        lemma_chars_within_shared_prefix(text, replaced, cs_last, cur.end as nat, 0);
        let cs = chars_within(text, cur.start as nat);
        let ce = chars_within(text, cur.end as nat);
        lemma_boundary_index_mono(text, cur.start as nat, cur.end as nat);
        let next = indels[i + 1 as int];
        assert(cur.end <= next.start);
        lemma_boundary_index_mono(text, cur.end as nat, next.start as nat);
        assert(replaced.subrange(pos as int, cs as int) =~= text.subrange(pos as int, cs as int));
        lemma_apply_from_after_last(text, indels, i + 1, ce);
        assert(chars_within(replaced, cur.start as nat) == cs);
        assert(chars_within(replaced, cur.end as nat) == ce);
        assert(apply_indels_from(text, indels, i, pos) == text.subrange(pos as int, cs as int)
            + cur.insert@ + apply_indels_from(text, indels, i + 1, ce));
        assert(apply_indels_from(replaced, rest, i, pos) == replaced.subrange(pos as int, cs as int)
            + cur.insert@ + apply_indels_from(replaced, rest, i + 1, ce));
    }
}

/// Making all the replacements of an edit is making the last one on its
/// own and then the others, which is the order in which rust-analyzer's
/// `TextEdit::apply` makes them; so every replacement is made, however
/// many there are.
pub proof fn lemma_edit_applies_from_the_last(text: Seq<char>, indels: Seq<Indel>)
    requires
        indels_fit(text, indels),
        indels.len() > 0,
    ensures
        apply_indels(text, indels) == apply_indels(
            replace_bytes(
                text,
                indels.last().start as nat,
                indels.last().end as nat,
                indels.last().insert@,
            ),
            indels.drop_last(),
        ),
{
    lemma_apply_from_after_last(text, indels, 0, 0);
}

/// An edit of one replacement replaces those bytes of the text.
pub proof fn lemma_single_replacement(text: Seq<char>, indel: Indel)
    requires
        indels_fit(text, seq![indel]),
    ensures
        apply_indels(text, seq![indel]) == replace_bytes(
            text,
            indel.start as nat,
            indel.end as nat,
            indel.insert@,
        ),
{
    lemma_edit_applies_from_the_last(text, seq![indel]);
    assert(seq![indel].drop_last() =~= Seq::<Indel>::empty());
    lemma_empty_edit_keeps_text(
        replace_bytes(text, indel.start as nat, indel.end as nat, indel.insert@),
    );
}

/// The name under which the assist creates the new function.
pub open spec fn generated_fn_name() -> Seq<char> {
    "fun_name"@
}

/// The scan for the characters within a byte limit moves forward and stops
/// within the text.
proof fn lemma_chars_within_from_bounds(s: Seq<char>, i: nat, limit: nat)
    requires
        i <= s.len(),
    ensures
        i <= chars_within_from(s, i, limit) <= s.len(),
    decreases s.len() - i,
{
    if i < s.len() && byte_len(s.take(i + 1 as int)) <= limit {
        lemma_chars_within_from_bounds(s, i + 1, limit);
    }
}

/// Character boundaries are in the same order as their byte offsets.
proof fn lemma_boundary_index_mono(s: Seq<char>, a: nat, b: nat)
    requires
        a <= b,
        is_char_boundary(s, a),
        is_char_boundary(s, b),
    ensures
        chars_within(s, a) <= chars_within(s, b),
{
    lemma_chars_within_from_bounds(s, 0, a);
    lemma_chars_within_from_bounds(s, 0, b);
    let ca = chars_within(s, a);
    let cb = chars_within(s, b);
    if ca > cb {
        lemma_byte_len_take_step(s, cb as int);
        lemma_byte_len_take_mono(s, cb + 1 as int, ca as int);
    }
}

/// The number of characters of `chars` that lie within its first `off`
/// bytes.
fn char_index(chars: &Vec<char>, off: u32) -> (r: usize)
    ensures
        r == chars_within(chars@, off as nat),
        r <= chars.len(),
{
    let ghost s = chars@;
    let n = chars.len();
    let mut k: usize = 0;
    let mut offset: u32 = 0;
    assert(s.take(0) =~= Seq::<char>::empty());
    while k < n && (offset as u64) + (utf8_width(chars[k]) as u64) <= (off as u64)
        invariant
            chars@ == s,
            n == chars.len(),
            k <= n,
            offset == byte_len(s.take(k as int)),
            offset <= off,
            chars_within(s, off as nat) == chars_within_from(s, k as nat, off as nat),
        decreases n - k,
    {
        proof {
            lemma_byte_len_take_step(s, k as int);
        }
        offset = offset + utf8_width(chars[k]) as u32;
        k += 1;
    }
    proof {
        if k < n {
            lemma_byte_len_take_step(s, k as int);
        }
    }
    k
}

/// Applies the replacements to `text`, as rust-analyzer's `TextEdit::apply`
/// does: each range of the original text gives way to its insert.
pub fn apply_text_edit(text: &str, indels: &Vec<Indel>) -> (r: String)
    requires
        indels_fit(text@, indels@),
    ensures
        r@ == apply_indels(text@, indels@),
{
    let chars = chars_of(text);
    let ghost s = text@;
    let mut out = String::new();
    let mut pos: usize = 0;
    let mut i: usize = 0;
    while i < indels.len()
        invariant
            chars@ == s,
            indels_fit(s, indels@),
            i <= indels.len(),
            pos <= chars.len(),
            i == 0 ==> pos == 0,
            i > 0 ==> pos == chars_within(s, indels@[i - 1].end as nat),
            out@ + apply_indels_from(s, indels@, i as nat, pos as nat) == apply_indels(s, indels@),
        decreases indels.len() - i,
    {
        let indel = &indels[i];
        let start = char_index(&chars, indel.start);
        let end = char_index(&chars, indel.end);
        proof {
            assert(indels@[i as int] == *indel);
            lemma_boundary_index_mono(s, indel.start as nat, indel.end as nat);
            if i > 0 {
                let prev = indels@[i - 1];
                assert(prev.end <= indel.start);
                lemma_boundary_index_mono(s, prev.end as nat, indel.start as nat);
            }
        }
        let ghost before = out@;
        let piece = string_from_chars(&chars, pos, start);
        push_str(&mut out, piece.as_str());
        push_str(&mut out, indel.insert.as_str());
        proof {
            let rest = apply_indels_from(s, indels@, (i + 1) as nat, end as nat);
            assert(out@ + rest =~= before + apply_indels_from(s, indels@, i as nat, pos as nat));
        }
        pos = end;
        i += 1;
    }
    let ghost before = out@;
    let tail = string_from_chars(&chars, pos, chars.len());
    push_str(&mut out, tail.as_str());
    assert(out@ =~= before + apply_indels_from(s, indels@, i as nat, pos as nat));
    out
}

/// Applies the edit of the extract function assist to `text` and renames
/// the function it created to `callee_name`.
pub fn apply_extract_function(text: &str, indels: &Vec<Indel>, callee_name: &str) -> (r: String)
    requires
        indels_fit(text@, indels@),
    ensures
        r@ == replace_all(apply_indels(text@, indels@), generated_fn_name(), callee_name@),
{
    let edited = apply_text_edit(text, indels);
    rename_function(edited.as_str(), "fun_name", callee_name)
}

// ========================================
// Snippets
// ========================================

/// A snippet stop of an edit: a tab stop where `start == end`, else a
/// placeholder around the bytes `start..end`; `index` is its number.
#[derive(Debug, PartialEq, Clone, Copy)]
pub struct SnippetStop {
    pub index: u32,
    pub start: u32,
    pub end: u32,
}

/// The decimal digit `d`.
pub open spec fn digit_char(d: nat) -> char {
    if d == 0 {
        '0'
    } else if d == 1 {
        '1'
    } else if d == 2 {
        '2'
    } else if d == 3 {
        '3'
    } else if d == 4 {
        '4'
    } else if d == 5 {
        '5'
    } else if d == 6 {
        '6'
    } else if d == 7 {
        '7'
    } else if d == 8 {
        '8'
    } else {
        '9'
    }
}

/// The decimal digits of `n`, without leading zeros.
pub open spec fn decimal(n: nat) -> Seq<char>
    decreases n,
{
    if n < 10 {
        seq![digit_char(n)]
    } else {
        decimal(n / 10).push(digit_char(n % 10))
    }
}

/// The value of a decimal digit character.
pub open spec fn digit_value(c: char) -> int {
    (c as u32) - 48
}

/// The number that a string of decimal digits spells, most significant
/// digit first.
pub open spec fn decimal_value(digits: Seq<char>) -> int
    decreases digits.len(),
{
    if digits.len() == 0 {
        0
    } else {
        decimal_value(digits.drop_last()) * 10 + digit_value(digits.last())
    }
}

/// The digits written for a number spell it in base 10: each is one of
/// `0` to `9`, there is no leading zero, and read back they give the number.
pub proof fn lemma_decimal_reads_back(n: nat)
    ensures
        decimal(n).len() > 0,
        forall|i: int| 0 <= i < decimal(n).len() ==> 48 <= (#[trigger] decimal(n)[i] as u32) <= 57,
        decimal(n)[0] != '0' || n == 0,
        decimal_value(decimal(n)) == n,
    decreases n,
{
    if n >= 10 {
        lemma_decimal_reads_back(n / 10);
        let d = decimal(n);
        assert(d.drop_last() =~= decimal(n / 10));
        assert(d[0] == decimal(n / 10)[0]);
        assert(n / 10 * 10 + n % 10 == n);
        assert forall|i: int| 0 <= i < d.len() implies 48 <= (#[trigger] d[i] as u32) <= 57 by {
            if i < d.len() - 1 {
                assert(d[i] == decimal(n / 10)[i]);
            }
        }
        assert(d.last() == digit_char(n % 10));
        lemma_digit_value(n % 10);
        assert(decimal_value(d) == decimal_value(d.drop_last()) * 10 + digit_value(d.last()));
    } else {
        let d = decimal(n);
        assert(d.drop_last() =~= Seq::<char>::empty());
        lemma_digit_value(n);
        assert(decimal_value(d) == decimal_value(d.drop_last()) * 10 + digit_value(d.last()));
    }
}

/// Each digit character has its own value.
proof fn lemma_digit_value(d: nat)
    requires
        d < 10,
    ensures
        digit_value(digit_char(d)) == d,
        48 <= (digit_char(d) as u32) <= 57,
        d != 0 ==> digit_char(d) != '0',
{
}

/// A single tab stop writes `$` and the digits of its number where it
/// stands; a single placeholder writes `${`, the digits and `:` at its start
/// and `}` at its end.
pub proof fn lemma_single_stop_marks(text: Seq<char>, stop: SnippetStop)
    ensures
        stop.start == stop.end ==> apply_snippets(text, seq![stop]) == insert_at(
            text,
            stop.start as nat,
            seq!['$'] + decimal(stop.index as nat),
        ),
        stop.start != stop.end ==> apply_snippets(text, seq![stop]) == insert_at(
            insert_at(text, stop.end as nat, seq!['}']),
            stop.start as nat,
            seq!['$', '{'] + decimal(stop.index as nat) + seq![':'],
        ),
{
    let stops = seq![stop];
    assert(stops.drop_last() =~= Seq::<SnippetStop>::empty());
    assert(stops.last() == stop);
    let marked = apply_stop(text, stop);
    assert(apply_snippets(marked, Seq::<SnippetStop>::empty()) == marked);
    assert(apply_snippets(text, stops) == marked);
}

/// `text` with `s` inserted at byte offset `off`.
pub open spec fn insert_at(text: Seq<char>, off: nat, s: Seq<char>) -> Seq<char> {
    let k = chars_within(text, off) as int;
    text.take(k) + s + text.skip(k)
}

/// What marks a tab stop: `$` and its number.
pub open spec fn tab_stop_text(index: u32) -> Seq<char> {
    seq!['$'] + decimal(index as nat)
}

/// What opens a placeholder: `${`, its number and `:`.
pub open spec fn placeholder_open(index: u32) -> Seq<char> {
    seq!['$', '{'] + decimal(index as nat) + seq![':']
}

/// Whether the offsets where one stop inserts its marks fall between
/// characters: the end of a placeholder first, then its start in the text
/// with `}` inserted.
pub open spec fn stop_fits(text: Seq<char>, stop: SnippetStop) -> bool {
    if stop.start == stop.end {
        is_char_boundary(text, stop.start as nat)
    } else {
        is_char_boundary(text, stop.end as nat) && is_char_boundary(
            insert_at(text, stop.end as nat, seq!['}']),
            stop.start as nat,
        )
    }
}

/// `text` with the marks of one stop inserted: `$n` at a tab stop, or `}`
/// at the end of a placeholder and then `${n:` at its start.
pub open spec fn apply_stop(text: Seq<char>, stop: SnippetStop) -> Seq<char> {
    if stop.start == stop.end {
        insert_at(text, stop.start as nat, tab_stop_text(stop.index))
    } else {
        insert_at(
            insert_at(text, stop.end as nat, seq!['}']),
            stop.start as nat,
            placeholder_open(stop.index),
        )
    }
}

/// Whether every stop, from the last to the first, inserts its marks
/// between characters of the text as it stands then.
pub open spec fn snippets_fit(text: Seq<char>, stops: Seq<SnippetStop>) -> bool
    decreases stops.len(),
{
    if stops.len() == 0 {
        true
    } else {
        stop_fits(text, stops.last()) && snippets_fit(
            apply_stop(text, stops.last()),
            stops.drop_last(),
        )
    }
}

/// `text` with the marks of every stop inserted, from the last stop to the
/// first.
pub open spec fn apply_snippets(text: Seq<char>, stops: Seq<SnippetStop>) -> Seq<char>
    decreases stops.len(),
{
    if stops.len() == 0 {
        text
    } else {
        apply_snippets(apply_stop(text, stops.last()), stops.drop_last())
    }
}

/// The decimal digit `d`, for `d < 10`.
fn digit(d: u32) -> (c: char)
    requires
        d < 10,
    ensures
        c == digit_char(d as nat),
{
    if d == 0 {
        '0'
    } else if d == 1 {
        '1'
    } else if d == 2 {
        '2'
    } else if d == 3 {
        '3'
    } else if d == 4 {
        '4'
    } else if d == 5 {
        '5'
    } else if d == 6 {
        '6'
    } else if d == 7 {
        '7'
    } else if d == 8 {
        '8'
    } else {
        '9'
    }
}

/// Appends the decimal digits of `n` to `s`.
fn push_decimal(s: &mut String, n: u32)
    ensures
        final(s)@ == old(s)@ + decimal(n as nat),
    decreases n,
{
    if n < 10 {
        push_char(s, digit(n));
        assert(seq![digit_char(n as nat)] =~= decimal(n as nat));
    } else {
        let ghost before = s@;
        push_decimal(s, n / 10);
        push_char(s, digit(n % 10));
        assert(s@ =~= before + decimal(n as nat));
    }
}

/// `text` with `s` inserted at byte offset `off`, or `None` where `off`
/// does not fall between two characters of `text`.
fn insert_str_at(text: &str, off: u32, s: &str) -> (r: Option<String>)
    ensures
        match r {
            Some(t) => is_char_boundary(text@, off as nat) && t@ == insert_at(text@, off as nat, s@),
            None => !is_char_boundary(text@, off as nat),
        },
{
    let chars = chars_of(text);
    let k = char_index(&chars, off);
    let prefix = string_from_chars(&chars, 0, k);
    assert(prefix@ =~= text@.take(k as int));
    if byte_length(prefix.as_str()) != off as usize {
        return None;
    }
    let rest = string_from_chars(&chars, k, chars.len());
    assert(rest@ =~= text@.skip(k as int));
    let mut out = prefix;
    push_str(&mut out, s);
    push_str(&mut out, rest.as_str());
    Some(out)
}

/// `text` with the marks of one stop inserted, or `None` where they do not
/// fall between characters.
fn insert_stop(text: &str, stop: SnippetStop) -> (r: Option<String>)
    ensures
        match r {
            Some(t) => stop_fits(text@, stop) && t@ == apply_stop(text@, stop),
            None => !stop_fits(text@, stop),
        },
{
    if stop.start == stop.end {
        let mut mark = String::from_str("$");
        push_decimal(&mut mark, stop.index);
        proof {
            reveal_strlit("$");
            assert(mark@ =~= tab_stop_text(stop.index));
        }
        insert_str_at(text, stop.start, mark.as_str())
    } else {
        let closed = match insert_str_at(text, stop.end, "}") {
            Some(t) => t,
            None => {
                return None;
            },
        };
        proof {
            reveal_strlit("}");
            assert("}"@ =~= seq!['}']);
        }
        let mut mark = String::from_str("${");
        push_decimal(&mut mark, stop.index);
        push_str(&mut mark, ":");
        proof {
            reveal_strlit("${");
            reveal_strlit(":");
            assert(mark@ =~= placeholder_open(stop.index));
        }
        insert_str_at(closed.as_str(), stop.start, mark.as_str())
    }
}

/// Inserts the marks of the snippet stops into `text`, as rust-analyzer's
/// `SnippetEdit::apply` does, from the last stop to the first; `None` where
/// a mark would not fall between characters, where `SnippetEdit::apply`
/// panics.
pub fn apply_snippet_edit(text: &str, stops: &Vec<SnippetStop>) -> (r: Option<String>)
    ensures
        match r {
            Some(t) => snippets_fit(text@, stops@) && t@ == apply_snippets(text@, stops@),
            None => !snippets_fit(text@, stops@),
        },
{
    let mut current = String::from_str(text);
    let mut i: usize = stops.len();
    assert(stops@.take(stops.len() as int) =~= stops@);
    while i > 0
        invariant
            i <= stops.len(),
            snippets_fit(text@, stops@) == snippets_fit(current@, stops@.take(i as int)),
            apply_snippets(text@, stops@) == apply_snippets(current@, stops@.take(i as int)),
        decreases i,
    {
        let stop = stops[i - 1];
        proof {
            let taken = stops@.take(i as int);
            assert(taken.last() == stop);
            assert(taken.drop_last() =~= stops@.take(i - 1));
        }
        match insert_stop(current.as_str(), stop) {
            Some(next) => {
                current = next;
            },
            None => {
                return None;
            },
        }
        i -= 1;
    }
    assert(stops@.take(0) =~= Seq::<SnippetStop>::empty());
    Some(current)
}

/// Applies the edit of the extract function assist to `text`, then inserts
/// its snippet stops, and renames the function it created to
/// `callee_name`; `None` where a snippet mark would not fall between
/// characters.
pub fn apply_extract_function_with_snippets(
    text: &str,
    indels: &Vec<Indel>,
    stops: &Vec<SnippetStop>,
    callee_name: &str,
) -> (r: Option<String>)
    requires
        indels_fit(text@, indels@),
    ensures
        ({
            let edited = apply_indels(text@, indels@);
            match r {
                Some(t) => snippets_fit(edited, stops@) && t@ == replace_all(
                    apply_snippets(edited, stops@),
                    generated_fn_name(),
                    callee_name@,
                ),
                None => !snippets_fit(edited, stops@),
            }
        }),
{
    let edited = apply_text_edit(text, indels);
    match apply_snippet_edit(edited.as_str(), stops) {
        Some(marked) => Some(rename_function(marked.as_str(), "fun_name", callee_name)),
        None => None,
    }
}

} // verus!
