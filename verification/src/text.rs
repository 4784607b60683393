//! The mathematical model: a text is a sequence of characters, it is cut
//! into lines at its line feeds, and a line matches a query when the query
//! occurs in it as a contiguous run.

use vstd::prelude::*;
use crate::lowercase::lowercase;

verus! {

/// `needle` occurs in `hay` as a contiguous run that starts at index `at`.
pub open spec fn occurs_at<T>(hay: Seq<T>, needle: Seq<T>, at: int) -> bool {
    &&& 0 <= at
    &&& at + needle.len() <= hay.len()
    &&& hay.subrange(at, at + needle.len()) == needle
}

/// `needle` occurs somewhere in `hay`. The empty sequence occurs in every
/// sequence.
pub open spec fn occurs_in<T>(needle: Seq<T>, hay: Seq<T>) -> bool {
    exists|at: int| occurs_at(hay, needle, at)
}

/// Index of the first line feed of `s`, or `s.len()` when it has none.
pub open spec fn first_newline(s: Seq<char>) -> nat
    decreases s.len(),
{
    if s.len() == 0 || s[0] == '\n' {
        0
    } else {
        1 + first_newline(s.drop_first())
    }
}

/// `line` without the carriage return that ends it, if one does.
pub open spec fn without_cr(line: Seq<char>) -> Seq<char> {
    if line.len() > 0 && line.last() == '\r' {
        line.drop_last()
    } else {
        line
    }
}

/// The first line of a non-empty text: what stands before its first line
/// feed, less a carriage return that directly precedes the line feed. A
/// text without a line feed is one line, taken as it is.
pub open spec fn first_line(s: Seq<char>) -> Seq<char> {
    let n = first_newline(s) as int;
    if n < s.len() {
        without_cr(s.take(n))
    } else {
        s
    }
}

/// What remains of a text behind its first line and the line feed that ends
/// it.
pub open spec fn after_first_line(s: Seq<char>) -> Seq<char> {
    let n = first_newline(s) as int;
    if n < s.len() {
        s.skip(n + 1)
    } else {
        Seq::empty()
    }
}

/// The lines of a text, in order. Each line feed ends a line, and so does a
/// carriage return with the line feed behind it; neither belongs to the
/// line. The text's last line needs no line feed, and a line feed at the
/// very end opens no further line. The empty text has no lines.
pub open spec fn lines(s: Seq<char>) -> Seq<Seq<char>>
    decreases s.len(),
{
    if s.len() == 0 {
        Seq::empty()
    } else {
        seq![first_line(s)] + lines(after_first_line(s))
    }
}

/// Whether `line` matches `query`: the query occurs in the line, either as
/// both stand or, when case is to be ignored, after both were lowercased.
pub open spec fn line_matches(query: Seq<char>, line: Seq<char>, case_sensitive: bool) -> bool {
    if case_sensitive {
        occurs_in(query, line)
    } else {
        occurs_in(lowercase(query), lowercase(line))
    }
}

/// The lines of `contents` that match `query`, as they stand in `contents`
/// and in their order there, each as often as it stands there.
pub open spec fn matching_lines(
    query: Seq<char>,
    contents: Seq<char>,
    case_sensitive: bool,
) -> Seq<Seq<char>> {
    lines(contents).filter(|line: Seq<char>| line_matches(query, line, case_sensitive))
}

/// Each of the lines `found` matches `query` and is a contiguous run of
/// `contents`.
pub open spec fn found_in(
    found: Seq<Seq<char>>,
    query: Seq<char>,
    contents: Seq<char>,
    case_sensitive: bool,
) -> bool {
    forall|i: int|
        0 <= i < found.len() ==> line_matches(query, #[trigger] found[i], case_sensitive)
            && occurs_in(found[i], contents)
}

/// No line of `contents` matches `query`.
pub open spec fn no_line_matches(query: Seq<char>, contents: Seq<char>, case_sensitive: bool) -> bool {
    forall|i: int|
        0 <= i < lines(contents).len() ==> !line_matches(
            query,
            #[trigger] lines(contents)[i],
            case_sensitive,
        )
}

/// `first_newline(s)` lies within `s`, holds a line feed unless it is the
/// end of `s`, and has no line feed before it.
pub proof fn lemma_first_newline(s: Seq<char>)
    ensures
        first_newline(s) <= s.len(),
        first_newline(s) < s.len() ==> s[first_newline(s) as int] == '\n',
        forall|i: int| 0 <= i < first_newline(s) ==> s[i] != '\n',
    decreases s.len(),
{
    if s.len() == 0 || s[0] == '\n' {
    } else {
        let t = s.drop_first();
        lemma_first_newline(t);
        assert forall|i: int| 0 <= i < first_newline(s) implies s[i] != '\n' by {
            if i > 0 {
                assert(s[i] == t[i - 1]);
            }
        }
    }
}

/// An index that holds a line feed (or is the end of `s`) and has no line
/// feed before it is `first_newline(s)`.
pub proof fn lemma_first_newline_is(s: Seq<char>, n: int)
    requires
        0 <= n <= s.len(),
        n < s.len() ==> s[n] == '\n',
        forall|i: int| 0 <= i < n ==> s[i] != '\n',
    ensures
        first_newline(s) == n,
{
    lemma_first_newline(s);
}

/// A non-empty text is its first line and the lines of the shorter text
/// behind it.
pub proof fn lemma_lines_step(s: Seq<char>)
    requires
        s.len() > 0,
    ensures
        lines(s) == seq![first_line(s)] + lines(after_first_line(s)),
        after_first_line(s).len() < s.len(),
{
    lemma_first_newline(s);
}

/// The matching lines of a non-empty text are its first line, if that
/// matches, and then the matching lines of the text behind it.
pub proof fn lemma_matching_lines_step(query: Seq<char>, s: Seq<char>, case_sensitive: bool)
    requires
        s.len() > 0,
    ensures
        matching_lines(query, s, case_sensitive) == (if line_matches(
            query,
            first_line(s),
            case_sensitive,
        ) {
            seq![first_line(s)]
        } else {
            Seq::empty()
        }) + matching_lines(query, after_first_line(s), case_sensitive),
{
    lemma_lines_step(s);
    lines(after_first_line(s)).lemma_filter_prepend(
        first_line(s),
        |line: Seq<char>| line_matches(query, line, case_sensitive),
    );
}

} // verus!
