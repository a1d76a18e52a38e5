//! The textual edit around an extracted method: the extracted lines give
//! way to a call of the new function, and the new function goes at the end
//! of the file. Lines are counted from 0 here.

use vstd::prelude::*;

use crate::text::{lines_of, push_str, read_lines, string_views};

verus! {

/// Line `i` of the edited text: the call replaces line `start`, the other
/// extracted lines become empty, and the rest stay.
pub open spec fn splice_line(
    i: int,
    line: Seq<char>,
    start: int,
    end: int,
    call: Seq<char>,
) -> Seq<char> {
    if i == start {
        call
    } else if start < i <= end {
        Seq::<char>::empty()
    } else {
        line
    }
}

/// The call statement of a function without arguments.
pub open spec fn call_statement(name: Seq<char>) -> Seq<char> {
    name + "();"@
}

/// The lines of `source` after the edit.
pub open spec fn spliced_lines(source: Seq<char>, start: int, end: int, name: Seq<char>) -> Seq<
    Seq<char>,
> {
    let lines = lines_of(source);
    Seq::new(lines.len(), |i: int| splice_line(i, lines[i], start, end, call_statement(name)))
}

/// What the edit does to each line: the number of lines stays, the first
/// extracted line becomes the call `name();` (also when it is the only one),
/// the other extracted lines become empty, and every other line stays.
pub proof fn lemma_spliced_lines(source: Seq<char>, start: int, end: int, name: Seq<char>)
    ensures
        spliced_lines(source, start, end, name).len() == lines_of(source).len(),
        0 <= start < lines_of(source).len() ==> spliced_lines(source, start, end, name)[start]
            == name + "();"@,
        forall|i: int|
            0 <= i < lines_of(source).len() && start < i <= end ==> (#[trigger] spliced_lines(
                source,
                start,
                end,
                name,
            )[i]).len() == 0,
        forall|i: int|
            0 <= i < lines_of(source).len() && i != start && !(start < i <= end)
                ==> #[trigger] spliced_lines(
                source,
                start,
                end,
                name,
            )[i] == lines_of(source)[i],
{
}

/// Lines joined by `\n`, with none after the last.
pub open spec fn join_lines(lines: Seq<Seq<char>>) -> Seq<char>
    decreases lines.len(),
{
    if lines.len() == 0 {
        Seq::<char>::empty()
    } else if lines.len() == 1 {
        lines[0]
    } else {
        join_lines(lines.drop_last()) + seq!['\n'] + lines.last()
    }
}

/// Replaces the lines `start_line..=end_line` (counted from 0) with a call
/// of `new_fn_name`: the call takes the first of them and the others are
/// left empty.
pub fn replace_lines_with_call(
    source_code: &str,
    start_line: usize,
    end_line: usize,
    new_fn_name: &str,
) -> (r: String)
    ensures
        r@ == join_lines(
            spliced_lines(source_code@, start_line as int, end_line as int, new_fn_name@),
        ),
{
    let lines = read_lines(source_code);
    let ghost spliced = spliced_lines(
        source_code@,
        start_line as int,
        end_line as int,
        new_fn_name@,
    );
    let mut call = String::from_str(new_fn_name);
    push_str(&mut call, "();");
    let mut out = String::new();
    let n = lines.len();
    let mut i: usize = 0;
    proof {
        reveal_strlit("\n");
        assert(spliced.take(0) =~= Seq::<Seq<char>>::empty());
    }
    while i < n
        invariant
            n == lines.len(),
            string_views(lines@) == lines_of(source_code@),
            spliced == spliced_lines(source_code@, start_line as int, end_line as int, new_fn_name@),
            call@ == call_statement(new_fn_name@),
            i <= n,
            out@ == join_lines(spliced.take(i as int)),
        decreases n - i,
    {
        let ghost before = out@;
        if i > 0 {
            push_str(&mut out, "\n");
        }
        if i == start_line {
            push_str(&mut out, call.as_str());
        } else if i > start_line && i <= end_line {
        } else {
            push_str(&mut out, lines[i].as_str());
        }
        proof {
            reveal_strlit("\n");
            assert(lines@[i as int]@ == lines_of(source_code@)[i as int]);
            assert(spliced.take(i + 1).drop_last() =~= spliced.take(i as int));
            assert(spliced.take(i + 1).last() == spliced[i as int]);
            if i == 0 {
                assert(spliced.take(1) =~= seq![spliced[0]]);
            }
            assert(out@ =~= join_lines(spliced.take(i + 1)));
        }
        i += 1;
    }
    proof {
        assert(spliced.take(n as int) =~= spliced);
    }
    out
}

/// The edited text followed by a blank line and the new function.
pub fn append_function(modified_code: &str, new_function: &str) -> (r: String)
    ensures
        r@ == modified_code@ + "\n\n"@ + new_function@,
{
    let mut out = String::from_str(modified_code);
    push_str(&mut out, "\n\n");
    push_str(&mut out, new_function);
    out
}

} // verus!
