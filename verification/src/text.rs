//! A model of source text: characters, UTF-8 widths, line splitting and
//! Unicode whitespace.

use vstd::prelude::*;

verus! {

// ---------------------------------------------------------------------
// Whitespace
// ---------------------------------------------------------------------

/// Whether `c` has the Unicode `White_Space` property, which is the
/// property that `char::is_whitespace` tests.
pub open spec fn is_whitespace_char(c: char) -> bool {
    let u = c as u32;
    ||| 0x09 <= u <= 0x0D
    ||| u == 0x20
    ||| u == 0x85
    ||| u == 0xA0
    ||| u == 0x1680
    ||| 0x2000 <= u <= 0x200A
    ||| u == 0x2028
    ||| u == 0x2029
    ||| u == 0x202F
    ||| u == 0x205F
    ||| u == 0x3000
}

/// Among ASCII characters, the whitespace ones are exactly tab, line feed,
/// vertical tab, form feed, carriage return and space.
pub proof fn lemma_ascii_whitespace(c: char)
    requires
        (c as u32) < 0x80,
    ensures
        is_whitespace_char(c) <==> (c == '\t' || c == '\n' || c as u32 == 0x0B || c as u32
            == 0x0C || c == '\r' || c == ' '),
{
}

/// The non-ASCII whitespace characters, from U+0085 up to U+3000.
pub proof fn lemma_unicode_whitespace()
    ensures
        is_whitespace_char('\u{85}'),
        is_whitespace_char('\u{A0}'),
        is_whitespace_char('\u{1680}'),
        forall|u: u32| 0x2000 <= u <= 0x200A ==> is_whitespace_char(#[trigger] char_of(u)),
        is_whitespace_char('\u{2028}'),
        is_whitespace_char('\u{2029}'),
        is_whitespace_char('\u{202F}'),
        is_whitespace_char('\u{205F}'),
        is_whitespace_char('\u{3000}'),
        !is_whitespace_char('\u{200B}'),
        !is_whitespace_char('\u{FEFF}'),
{
}

/// The character with code `u`, for `u` outside the surrogates.
pub open spec fn char_of(u: u32) -> char {
    u as char
}

/// The text of an ASCII string is as long in bytes as in characters.
pub proof fn lemma_ascii_byte_len(s: Seq<char>, k: int)
    requires
        0 <= k <= s.len(),
        forall|i: int| 0 <= i < s.len() ==> (#[trigger] s[i] as u32) < 0x80,
    ensures
        byte_len(s.take(k)) == k,
    decreases k,
{
    if k > 0 {
        lemma_byte_len_take_step(s, k - 1);
        lemma_ascii_byte_len(s, k - 1);
    } else {
        assert(s.take(0) =~= Seq::<char>::empty());
    }
}

/// Tests the Unicode `White_Space` property of one character.
pub fn is_whitespace(c: char) -> (r: bool)
    ensures
        r == is_whitespace_char(c),
{
    let u: u32 = c as u32;
    (0x09 <= u && u <= 0x0D) || u == 0x20 || u == 0x85 || u == 0xA0 || u == 0x1680 || (0x2000
        <= u && u <= 0x200A) || u == 0x2028 || u == 0x2029 || u == 0x202F || u == 0x205F || u
        == 0x3000
}

// ---------------------------------------------------------------------
// UTF-8 widths and byte offsets
// ---------------------------------------------------------------------

/// The number of bytes of the UTF-8 encoding of `c`.
pub open spec fn char_width(c: char) -> nat {
    let u = c as u32;
    if u < 0x80 {
        1
    } else if u < 0x800 {
        2
    } else if u < 0x10000 {
        3
    } else {
        4
    }
}

/// The number of bytes of the UTF-8 encoding of `s`.
pub open spec fn byte_len(s: Seq<char>) -> nat
    decreases s.len(),
{
    if s.len() == 0 {
        0
    } else {
        byte_len(s.drop_last()) + char_width(s.last())
    }
}

/// The number of UTF-8 bytes of one character.
pub fn utf8_width(c: char) -> (w: usize)
    ensures
        w == char_width(c),
        1 <= w <= 4,
{
    let u: u32 = c as u32;
    if u < 0x80 {
        1
    } else if u < 0x800 {
        2
    } else if u < 0x10000 {
        3
    } else {
        4
    }
}

/// The byte length of a prefix grows by the width of the next character.
pub proof fn lemma_byte_len_take_step(s: Seq<char>, k: int)
    requires
        0 <= k < s.len(),
    ensures
        byte_len(s.take(k + 1)) == byte_len(s.take(k)) + char_width(s[k]),
{
    assert(s.take(k + 1).drop_last() =~= s.take(k));
}

/// Longer prefixes are never shorter in bytes.
pub proof fn lemma_byte_len_take_mono(s: Seq<char>, j: int, k: int)
    requires
        0 <= j <= k <= s.len(),
    ensures
        byte_len(s.take(j)) <= byte_len(s.take(k)),
    decreases k - j,
{
    if j < k {
        lemma_byte_len_take_step(s, k - 1);
        lemma_byte_len_take_mono(s, j, k - 1);
    }
}

/// The UTF-8 encoding of one character is `char_width` bytes long.
proof fn lemma_encode_scalar_len(c: char)
    ensures
        vstd::utf8::encode_scalar(c as u32).len() == char_width(c),
{
    vstd::utf8::char_is_scalar(c);
}

/// The byte length can also be counted from the front.
pub proof fn lemma_byte_len_drop_first(s: Seq<char>)
    requires
        s.len() > 0,
    ensures
        byte_len(s) == char_width(s[0]) + byte_len(s.drop_first()),
    decreases s.len(),
{
    if s.len() > 1 {
        lemma_byte_len_drop_first(s.drop_last());
        assert(s.drop_last().drop_first() =~= s.drop_first().drop_last());
        assert(s.drop_last()[0] == s[0]);
        assert(s.drop_first().last() == s.last());
        assert(byte_len(s.drop_first()) == byte_len(s.drop_first().drop_last()) + char_width(
            s.drop_first().last(),
        ));
    } else {
        assert(s.drop_first().len() == 0);
        assert(s.drop_last().len() == 0);
        assert(byte_len(s.drop_first()) == 0);
        assert(byte_len(s.drop_last()) == 0);
        assert(s.last() == s[0]);
    }
    assert(byte_len(s) == byte_len(s.drop_last()) + char_width(s.last()));
}

/// `byte_len` is the length of the UTF-8 encoding that `str::len` counts.
pub proof fn lemma_byte_len_is_utf8_len(s: Seq<char>)
    ensures
        byte_len(s) == vstd::utf8::encode_utf8(s).len(),
    decreases s.len(),
{
    if s.len() > 0 {
        lemma_byte_len_drop_first(s);
        lemma_encode_scalar_len(s[0]);
        lemma_byte_len_is_utf8_len(s.drop_first());
    }
}

/// The number of bytes of `s` (`str::len`).
pub fn byte_length(s: &str) -> (n: usize)
    ensures
        n == byte_len(s@),
{
    proof {
        lemma_byte_len_is_utf8_len(s@);
    }
    let bytes: &[u8] = s.as_bytes();
    bytes.len()
}

// ---------------------------------------------------------------------
// Strings from characters
// ---------------------------------------------------------------------

/// Appends one character to a string (`String::push`).
#[verifier::external_body]
pub(crate) fn push_char(s: &mut String, c: char)
    ensures
        final(s)@ == old(s)@.push(c),
{
    s.push(c);
}

/// Copies the characters of `s` into a vector.
pub fn chars_of(s: &str) -> (v: Vec<char>)
    ensures
        v@ == s@,
{
    let mut v: Vec<char> = Vec::new();
    for c in it: s.chars()
        invariant
            it.seq() == s@,
            v@ == it.seq().take(it.index() as int),
    {
        v.push(c);
    }
    v
}

/// Builds the string of the characters `chars[lo..hi]`.
pub fn string_from_chars(chars: &Vec<char>, lo: usize, hi: usize) -> (s: String)
    requires
        lo <= hi <= chars.len(),
    ensures
        s@ == chars@.subrange(lo as int, hi as int),
{
    let mut s = String::new();
    let mut i: usize = lo;
    while i < hi
        invariant
            lo <= i <= hi <= chars.len(),
            s@ == chars@.subrange(lo as int, i as int),
        decreases hi - i,
    {
        push_char(&mut s, chars[i]);
        assert(chars@.subrange(lo as int, i + 1) =~= chars@.subrange(lo as int, i as int).push(
            chars@[i as int],
        ));
        i += 1;
    }
    s
}

/// Appends the characters of `t` to `s`.
pub fn push_str(s: &mut String, t: &str)
    ensures
        final(s)@ == old(s)@ + t@,
{
    let chars = chars_of(t);
    let mut i: usize = 0;
    let ghost start = s@;
    while i < chars.len()
        invariant
            i <= chars.len(),
            chars@ == t@,
            s@ == start + chars@.take(i as int),
        decreases chars.len() - i,
    {
        push_char(s, chars[i]);
        assert(chars@.take(i + 1) =~= chars@.take(i as int).push(chars@[i as int]));
        i += 1;
    }
    assert(chars@.take(chars.len() as int) =~= chars@);
}

// ---------------------------------------------------------------------
// Lines
// ---------------------------------------------------------------------

/// Drops one carriage return that ends a line.
pub open spec fn strip_cr(line: Seq<char>) -> Seq<char> {
    if line.len() > 0 && line.last() == '\r' {
        line.drop_last()
    } else {
        line
    }
}

/// The lines of `rest`, where `cur` holds the characters already read on the
/// line that is still open: a line ends at `\n`, which is dropped together
/// with one `\r` just before it; an unterminated last line is kept as it
/// is, and nothing follows a final `\n`.
pub open spec fn split_lines(rest: Seq<char>, cur: Seq<char>) -> Seq<Seq<char>>
    decreases rest.len(),
{
    if rest.len() == 0 {
        if cur.len() == 0 {
            seq![]
        } else {
            seq![cur]
        }
    } else if rest[0] == '\n' {
        seq![strip_cr(cur)] + split_lines(rest.drop_first(), seq![])
    } else {
        split_lines(rest.drop_first(), cur.push(rest[0]))
    }
}

/// The lines of a text, as `str::lines` yields them.
pub open spec fn lines_of(s: Seq<char>) -> Seq<Seq<char>> {
    split_lines(s, seq![])
}

/// The contents of a sequence of strings.
pub open spec fn string_views(v: Seq<String>) -> Seq<Seq<char>> {
    v.map_values(|s: String| s@)
}

/// Splits a text into its lines (what `str::lines` yields, collected).
pub fn read_lines(source: &str) -> (lines: Vec<String>)
    ensures
        string_views(lines@) == lines_of(source@),
{
    let chars = chars_of(source);
    let n = chars.len();
    let mut lines: Vec<String> = Vec::new();
    let mut start: usize = 0;
    let mut i: usize = 0;
    assert(chars@.skip(0) =~= chars@);
    assert(chars@.subrange(0, 0) =~= Seq::<char>::empty());
    assert(string_views(lines@) =~= Seq::<Seq<char>>::empty());
    while i < n
        invariant
            n == chars.len(),
            chars@ == source@,
            start <= i <= n,
            string_views(lines@) + split_lines(
                chars@.skip(i as int),
                chars@.subrange(start as int, i as int),
            ) == lines_of(source@),
        decreases n - i,
    {
        let ghost rest = chars@.skip(i as int);
        let ghost cur = chars@.subrange(start as int, i as int);
        assert(rest.drop_first() =~= chars@.skip(i + 1));
        assert(rest[0] == chars@[i as int]);
        if chars[i] == '\n' {
            let end: usize = if i > start && chars[i - 1] == '\r' {
                i - 1
            } else {
                i
            };
            assert(chars@.subrange(start as int, end as int) =~= strip_cr(cur));
            let line = string_from_chars(&chars, start, end);
            let ghost before = string_views(lines@);
            lines.push(line);
            assert(string_views(lines@) =~= before.push(strip_cr(cur)));
            assert(before + (seq![strip_cr(cur)] + split_lines(chars@.skip(i + 1), seq![]))
                =~= before.push(strip_cr(cur)) + split_lines(chars@.skip(i + 1), seq![]));
            start = i + 1;
            assert(chars@.subrange(start as int, (i + 1) as int) =~= Seq::<char>::empty());
        } else {
            assert(cur.push(chars@[i as int]) =~= chars@.subrange(start as int, i + 1));
        }
        i += 1;
    }
    assert(chars@.skip(n as int) =~= Seq::<char>::empty());
    if start < n {
        let line = string_from_chars(&chars, start, n);
        let ghost before = string_views(lines@);
        lines.push(line);
        assert(string_views(lines@) =~= before + seq![chars@.subrange(start as int, n as int)]);
    } else {
        assert(chars@.subrange(start as int, n as int) =~= Seq::<char>::empty());
        assert(string_views(lines@) + Seq::<Seq<char>>::empty() =~= string_views(lines@));
    }
    lines
}

// ---------------------------------------------------------------------
// Trimming
// ---------------------------------------------------------------------

/// `s` without its leading whitespace.
pub open spec fn trim_start_ws(s: Seq<char>) -> Seq<char>
    decreases s.len(),
{
    if s.len() > 0 && is_whitespace_char(s[0]) {
        trim_start_ws(s.drop_first())
    } else {
        s
    }
}

/// `s` without its trailing whitespace.
pub open spec fn trim_end_ws(s: Seq<char>) -> Seq<char>
    decreases s.len(),
{
    if s.len() > 0 && is_whitespace_char(s.last()) {
        trim_end_ws(s.drop_last())
    } else {
        s
    }
}

/// `s` without leading and trailing whitespace, as `str::trim` gives it.
pub open spec fn trim_ws(s: Seq<char>) -> Seq<char> {
    trim_end_ws(trim_start_ws(s))
}

/// Removes leading and trailing whitespace (`str::trim`).
pub fn trim(s: &str) -> (r: String)
    ensures
        r@ == trim_ws(s@),
{
    let chars = chars_of(s);
    let n = chars.len();
    let mut lo: usize = 0;
    assert(chars@.skip(0) =~= chars@);
    while lo < n && is_whitespace(chars[lo])
        invariant
            lo <= n == chars.len(),
            chars@ == s@,
            trim_start_ws(s@) == trim_start_ws(chars@.skip(lo as int)),
        decreases n - lo,
    {
        assert(chars@.skip(lo as int).drop_first() =~= chars@.skip(lo + 1));
        lo += 1;
    }
    assert(trim_start_ws(s@) == chars@.skip(lo as int));
    let mut hi: usize = n;
    assert(chars@.subrange(lo as int, n as int) =~= chars@.skip(lo as int));
    while hi > lo && is_whitespace(chars[hi - 1])
        invariant
            lo <= hi <= n == chars.len(),
            chars@ == s@,
            trim_ws(s@) == trim_end_ws(chars@.subrange(lo as int, hi as int)),
        decreases hi,
    {
        assert(chars@.subrange(lo as int, hi as int).drop_last() =~= chars@.subrange(
            lo as int,
            hi - 1,
        ));
        hi -= 1;
    }
    string_from_chars(&chars, lo, hi)
}

} // verus!
