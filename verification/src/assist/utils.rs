//! Helpers of the extraction through rust-analyzer: paths of a project,
//! the choice of the assist, and the renaming of the extracted function.

use vstd::prelude::*;

use crate::assist::error::ExtractionError;
use crate::range_extraction::Cursor;
use crate::text::{chars_of, push_str, string_from_chars, string_views};

verus! {

/// The offset of a cursor; not worked out yet, so always 0.
pub fn cursor_to_offset(cursor: &Cursor) -> (r: u32)
    ensures
        r == 0,
{
    0
}

/// The index of the first `true` in `marks` at or after `i` (the length of
/// `marks` when there is none).
pub open spec fn first_marked_from(marks: Seq<bool>, i: nat) -> nat
    decreases marks.len() - i,
{
    if i < marks.len() && !marks[i as int] {
        first_marked_from(marks, i + 1)
    } else {
        i
    }
}

/// The nearest directory that holds a `Cargo.toml`, among the ancestors of a
/// file listed nearest first, where `has_manifest[i]` tells whether
/// `ancestors[i]` holds one; `None` when none does.
pub fn nearest_manifest_dir(ancestors: &Vec<String>, has_manifest: &Vec<bool>) -> (r: Option<
    String,
>)
    requires
        ancestors.len() == has_manifest.len(),
    ensures
        ({
            let k = first_marked_from(has_manifest@, 0);
            if k < ancestors.len() {
                r matches Some(d) && d@ == ancestors@[k as int]@
            } else {
                r is None
            }
        }),
{
    let mut i: usize = 0;
    while i < has_manifest.len()
        invariant
            ancestors.len() == has_manifest.len(),
            i <= has_manifest.len(),
            first_marked_from(has_manifest@, 0) == first_marked_from(has_manifest@, i as nat),
        decreases has_manifest.len() - i,
    {
        if has_manifest[i] {
            return Some(String::from_str(ancestors[i].as_str()));
        }
        i += 1;
    }
    None
}

/// The manifest directory of a file, the nearest of its ancestors (listed
/// nearest first, each with whether it holds a `Cargo.toml`) that holds a
/// `Cargo.toml`; the empty path when none does.
pub fn get_manifest_dir(ancestors: &Vec<String>, has_manifest: &Vec<bool>) -> (r: String)
    requires
        ancestors.len() == has_manifest.len(),
    ensures
        ({
            let k = first_marked_from(has_manifest@, 0);
            if k < ancestors.len() {
                r@ == ancestors@[k as int]@
            } else {
                r@ == Seq::<char>::empty()
            }
        }),
{
    match nearest_manifest_dir(ancestors, has_manifest) {
        Some(dir) => dir,
        None => String::new(),
    }
}

/// `dir` joined with the relative path `name`, with `/` between them unless
/// `dir` is empty or already ends with one.
pub open spec fn join_path(dir: Seq<char>, name: Seq<char>) -> Seq<char> {
    if dir.len() == 0 || dir.last() == '/' {
        dir + name
    } else {
        dir + seq!['/'] + name
    }
}

/// The path of the `Cargo.toml` file in the directory `manifest_dir`.
pub fn get_cargo_toml(manifest_dir: &str) -> (r: String)
    ensures
        r@ == join_path(manifest_dir@, "Cargo.toml"@),
{
    let chars = chars_of(manifest_dir);
    let mut path = String::from_str(manifest_dir);
    if chars.len() > 0 && chars[chars.len() - 1] != '/' {
        push_str(&mut path, "/");
        proof {
            reveal_strlit("/");
            assert("/"@ =~= seq!['/']);
        }
    }
    push_str(&mut path, "Cargo.toml");
    path
}

/// Receives the progress messages of loading a workspace, and drops them.
pub fn progress(_message: String) {
}

// ========================================
// The extract function assist
// ========================================

/// The label of rust-analyzer's assist that extracts a function.
pub open spec fn extract_function_label() -> Seq<char> {
    "Extract into function"@
}

/// Finds, among the labels of the assists rust-analyzer offered, the first
/// that extracts a function, and hands back its position; when none does,
/// the error lists the labels.
pub fn filter_extract_function_assist(labels: Vec<String>) -> (r: Result<usize, ExtractionError>)
    ensures
        match r {
            Ok(i) => i < labels.len() && labels@[i as int]@ == extract_function_label() && forall|
                j: int,
            |
                0 <= j < i ==> #[trigger] labels@[j]@ != extract_function_label(),
            Err(e) => (e matches ExtractionError::NoExtractFunction(ls) && string_views(ls@)
                == string_views(labels@)) && forall|j: int|
                0 <= j < labels.len() ==> #[trigger] labels@[j]@ != extract_function_label(),
        },
{
    let target = String::from_str("Extract into function");
    let mut i: usize = 0;
    while i < labels.len()
        invariant
            i <= labels.len(),
            target@ == extract_function_label(),
            forall|j: int| 0 <= j < i ==> #[trigger] labels@[j]@ != extract_function_label(),
        decreases labels.len() - i,
    {
        if labels[i] == target {
            return Ok(i);
        }
        i += 1;
    }
    Err(ExtractionError::NoExtractFunction(labels))
}

// ========================================
// Renaming
// ========================================

/// `s` with every occurrence of the non-empty `from` replaced by `to`,
/// scanning from the left and never replacing inside a replacement.
pub open spec fn replace_nonempty(s: Seq<char>, from: Seq<char>, to: Seq<char>) -> Seq<char>
    decreases s.len(),
{
    if from.len() == 0 || s.len() < from.len() {
        s
    } else if s.take(from.len() as int) == from {
        to + replace_nonempty(s.skip(from.len() as int), from, to)
    } else {
        seq![s[0]] + replace_nonempty(s.drop_first(), from, to)
    }
}

/// `s` with `to` put before every character and at its end, which is what
/// replacing the empty pattern does.
pub open spec fn replace_empty(s: Seq<char>, to: Seq<char>) -> Seq<char>
    decreases s.len(),
{
    if s.len() == 0 {
        to
    } else {
        to + seq![s[0]] + replace_empty(s.drop_first(), to)
    }
}

/// `s` with every occurrence of `from` replaced by `to`, as `str::replace`
/// does it.
pub open spec fn replace_all(s: Seq<char>, from: Seq<char>, to: Seq<char>) -> Seq<char> {
    if from.len() == 0 {
        replace_empty(s, to)
    } else {
        replace_nonempty(s, from, to)
    }
}

/// Whether `pattern` occurs in `chars` at position `at`.
fn occurs_at(chars: &Vec<char>, at: usize, pattern: &Vec<char>) -> (b: bool)
    requires
        at + pattern.len() <= chars.len(),
    ensures
        b == (chars@.subrange(at as int, at + pattern.len()) == pattern@),
{
    let mut j: usize = 0;
    while j < pattern.len()
        invariant
            at + pattern.len() <= chars.len(),
            j <= pattern.len(),
            chars@.subrange(at as int, at + j) == pattern@.take(j as int),
        decreases pattern.len() - j,
    {
        if chars[at + j] != pattern[j] {
            assert(chars@.subrange(at as int, at + pattern.len())[j as int] != pattern@[j as int]);
            return false;
        }
        assert(chars@.subrange(at as int, at + j + 1) =~= pattern@.take(j + 1));
        j += 1;
    }
    assert(pattern@.take(pattern.len() as int) =~= pattern@);
    true
}

/// Renames a function in a source text by replacing every occurrence of
/// `old_name` with `new_name`.
pub fn rename_function(text: &str, old_name: &str, new_name: &str) -> (r: String)
    ensures
        r@ == replace_all(text@, old_name@, new_name@),
{
    let chars = chars_of(text);
    let pattern = chars_of(old_name);
    let n = chars.len();
    let m = pattern.len();
    let mut out = String::new();
    let mut i: usize = 0;
    let ghost s = text@;
    let ghost from = old_name@;
    let ghost to = new_name@;
    if m == 0 {
        assert(s.skip(0) =~= s);
        while i < n
            invariant
                i <= n == chars.len(),
                chars@ == s,
                to == new_name@,
                replace_empty(s, to) == out@ + replace_empty(s.skip(i as int), to),
            decreases n - i,
        {
            let ghost rest = s.skip(i as int);
            let ghost before = out@;
            assert(rest.drop_first() =~= s.skip(i + 1));
            push_str(&mut out, new_name);
            let piece = string_from_chars(&chars, i, i + 1);
            assert(piece@ =~= seq![rest[0]]);
            push_str(&mut out, piece.as_str());
            assert(out@ =~= before + (to + seq![rest[0]]));
            assert(replace_empty(rest, to) == to + seq![rest[0]] + replace_empty(
                rest.drop_first(),
                to,
            ));
            assert(out@ + replace_empty(s.skip(i + 1), to) =~= before + replace_empty(rest, to));
            i += 1;
        }
        assert(s.skip(n as int) =~= Seq::<char>::empty());
        push_str(&mut out, new_name);
        return out;
    }
    assert(s.skip(0) =~= s);
    while i < n
        invariant
            i <= n == chars.len(),
            m == pattern.len() > 0,
            chars@ == s,
            pattern@ == from,
            to == new_name@,
            from == old_name@,
            replace_nonempty(s, from, to) == out@ + replace_nonempty(s.skip(i as int), from, to),
        decreases n - i,
    {
        let ghost rest = s.skip(i as int);
        let ghost before = out@;
        if m <= n - i && occurs_at(&chars, i, &pattern) {
            assert(rest.take(m as int) =~= chars@.subrange(i as int, i + m));
            assert(rest.skip(m as int) =~= s.skip(i + m));
            assert(replace_nonempty(rest, from, to) == to + replace_nonempty(
                rest.skip(m as int),
                from,
                to,
            ));
            push_str(&mut out, new_name);
            assert(out@ =~= before + to);
            assert(before + (to + replace_nonempty(rest.skip(m as int), from, to)) =~= out@
                + replace_nonempty(s.skip(i + m), from, to));
            i += m;
        } else {
            assert(rest.drop_first() =~= s.skip(i + 1));
            if m <= n - i {
                assert(rest.take(m as int) =~= chars@.subrange(i as int, i + m));
            } else {
                assert(rest.drop_first().len() < m);
                assert(seq![rest[0]] + rest.drop_first() =~= rest);
            }
            let piece = string_from_chars(&chars, i, i + 1);
            assert(piece@ =~= seq![rest[0]]);
            push_str(&mut out, piece.as_str());
            assert(before + (seq![rest[0]] + replace_nonempty(rest.drop_first(), from, to))
                =~= out@ + replace_nonempty(s.skip(i + 1), from, to));
            i += 1;
        }
    }
    assert(s.skip(n as int) =~= Seq::<char>::empty());
    assert(out@ + Seq::<char>::empty() =~= out@);
    out
}

/// Replacing a name by itself leaves every text as it was.
pub proof fn lemma_rename_to_same_name_is_identity(text: Seq<char>, name: Seq<char>)
    requires
        name.len() > 0,
    ensures
        replace_all(text, name, name) == text,
    decreases text.len(),
{
    if text.len() < name.len() {
    } else if text.take(name.len() as int) == name {
        lemma_rename_to_same_name_is_identity(text.skip(name.len() as int), name);
        assert(name + text.skip(name.len() as int) =~= text);
    } else {
        lemma_rename_to_same_name_is_identity(text.drop_first(), name);
        assert(seq![text[0]] + text.drop_first() =~= text);
    }
}

/// Whether `pattern` occurs somewhere in `text`.
pub open spec fn occurs_in(text: Seq<char>, pattern: Seq<char>) -> bool {
    exists|k: int|
        0 <= k && k + pattern.len() <= text.len() && #[trigger] text.subrange(
            k,
            k + pattern.len(),
        ) == pattern
}

/// A text in which the old name does not occur is left as it was.
pub proof fn lemma_rename_absent_name_is_identity(
    text: Seq<char>,
    name: Seq<char>,
    new_name: Seq<char>,
)
    requires
        name.len() > 0,
        !occurs_in(text, name),
    ensures
        replace_all(text, name, new_name) == text,
    decreases text.len(),
{
    if text.len() < name.len() {
    } else {
        let m = name.len() as int;
        assert(text.take(m) =~= text.subrange(0, 0 + m));
        assert(!(text.subrange(0, 0 + m) == name));
        let rest = text.drop_first();
        assert(!occurs_in(rest, name)) by {
            if occurs_in(rest, name) {
                let k = choose|k: int|
                    0 <= k && k + name.len() <= rest.len() && #[trigger] rest.subrange(
                        k,
                        k + name.len(),
                    ) == name;
                assert(text.subrange(k + 1, k + 1 + name.len()) =~= rest.subrange(
                    k,
                    k + name.len(),
                ));
            }
        }
        lemma_rename_absent_name_is_identity(rest, name, new_name);
        assert(seq![text[0]] + rest =~= text);
    }
}

} // verus!
