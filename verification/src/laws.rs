//! What holds of every search, stated over the model of [`crate::text`].

use vstd::prelude::*;
use crate::lowercase::lowercase;
use crate::text::{
    after_first_line, first_line, first_newline, found_in, lemma_first_newline, lemma_lines_step,
    line_matches, lines, matching_lines, no_line_matches, occurs_at, occurs_in,
};

verus! {

/// What occurs in a part of a text occurs in the text.
pub proof fn lemma_occurs_in_transitive<T>(a: Seq<T>, b: Seq<T>, c: Seq<T>)
    requires
        occurs_in(a, b),
        occurs_in(b, c),
    ensures
        occurs_in(a, c),
{
    let i = choose|i: int| occurs_at(b, a, i);
    let j = choose|j: int| occurs_at(c, b, j);
    assert(c.subrange(j + i, j + i + a.len()) == c.subrange(j, j + b.len()).subrange(
        i,
        i + a.len(),
    ));
    assert(occurs_at(c, a, j + i));
}

/// Every line of a text is a contiguous run of the text.
pub proof fn lemma_line_occurs_in_text(s: Seq<char>, i: int)
    requires
        0 <= i < lines(s).len(),
    ensures
        occurs_in(lines(s)[i], s),
    decreases s.len(),
{
    lemma_lines_step(s);
    lemma_first_newline(s);
    let n = first_newline(s) as int;
    if i == 0 {
        let line = first_line(s);
        assert(s.subrange(0, line.len() as int) == line);
        assert(occurs_at(s, line, 0));
    } else {
        let rest = after_first_line(s);
        let line = lines(rest)[i - 1];
        lemma_line_occurs_in_text(rest, i - 1);
        let at = choose|at: int| occurs_at(rest, line, at);
        assert(s.subrange(n + 1 + at, n + 1 + at + line.len()) == rest.subrange(
            at,
            at + line.len(),
        ));
        assert(occurs_at(s, line, n + 1 + at));
    }
}

/// The line at index `i` of those that a search finds is a line of the
/// contents, so a run of them, and matches the query.
pub proof fn lemma_found_line(
    query: Seq<char>,
    contents: Seq<char>,
    case_sensitive: bool,
    i: int,
)
    requires
        0 <= i < matching_lines(query, contents, case_sensitive).len(),
    ensures
        lines(contents).contains(matching_lines(query, contents, case_sensitive)[i]),
        line_matches(query, matching_lines(query, contents, case_sensitive)[i], case_sensitive),
        occurs_in(matching_lines(query, contents, case_sensitive)[i], contents),
{
    let pred = |line: Seq<char>| line_matches(query, line, case_sensitive);
    let found = lines(contents).filter(pred);
    lines(contents).lemma_filter_pred(pred, i);
    assert(found.contains(found[i]));
    lines(contents).lemma_filter_contains_rev(pred, found[i]);
    let at = choose|at: int| 0 <= at < lines(contents).len() && lines(contents)[at] == found[i];
    lemma_line_occurs_in_text(contents, at);
}

/// Every line that a search finds matches the query and is a run of the
/// contents.
pub proof fn lemma_found_lines(query: Seq<char>, contents: Seq<char>, case_sensitive: bool)
    ensures
        found_in(matching_lines(query, contents, case_sensitive), query, contents, case_sensitive),
{
    let found = matching_lines(query, contents, case_sensitive);
    assert forall|i: int| 0 <= i < found.len() implies line_matches(
        query,
        #[trigger] found[i],
        case_sensitive,
    ) && occurs_in(found[i], contents) by {
        lemma_found_line(query, contents, case_sensitive, i);
    }
}

/// A query that matches no line of a text selects no line.
pub proof fn lemma_no_matching_line(query: Seq<char>, contents: Seq<char>, case_sensitive: bool)
    requires
        no_line_matches(query, contents, case_sensitive),
    ensures
        matching_lines(query, contents, case_sensitive).len() == 0,
{
    if matching_lines(query, contents, case_sensitive).len() > 0 {
        lemma_found_line(query, contents, case_sensitive, 0);
    }
}

/// A query that occurs nowhere in a text occurs in none of its lines, and
/// selects none.
pub proof fn lemma_absent_query(query: Seq<char>, contents: Seq<char>)
    requires
        !occurs_in(query, contents),
    ensures
        no_line_matches(query, contents, true),
        matching_lines(query, contents, true).len() == 0,
{
    assert forall|i: int| 0 <= i < lines(contents).len() implies !line_matches(
        query,
        #[trigger] lines(contents)[i],
        true,
    ) by {
        if occurs_in(query, lines(contents)[i]) {
            lemma_line_occurs_in_text(contents, i);
            lemma_occurs_in_transitive(query, lines(contents)[i], contents);
        }
    }
    lemma_no_matching_line(query, contents, true);
}

/// The empty text has no lines, so no query selects any.
pub proof fn lemma_empty_contents(query: Seq<char>, contents: Seq<char>, case_sensitive: bool)
    requires
        contents.len() == 0,
    ensures
        matching_lines(query, contents, case_sensitive).len() == 0,
{
    lemma_no_matching_line(query, contents, case_sensitive);
}

/// Filtering by `p` what was kept by `q` is filtering by `p`, where `q`
/// keeps all that `p` keeps.
pub proof fn lemma_filter_within<A>(s: Seq<A>, p: spec_fn(A) -> bool, q: spec_fn(A) -> bool)
    requires
        forall|i: int| 0 <= i < s.len() && p(s[i]) ==> q(s[i]),
    ensures
        s.filter(p) == s.filter(q).filter(p),
    decreases s.len(),
{
    reveal(Seq::filter);
    if s.len() > 0 {
        let init = s.drop_last();
        let last = s.last();
        lemma_filter_within(init, p, q);
        if q(last) {
            init.filter(q).lemma_filter_push(last, p);
        }
    }
}

/// Ignoring case only adds lines: where every line in which the query
/// occurs still holds the query once both are lowercased, the lines found
/// with case are those found without it in which the query occurs as it
/// stands. They are the same lines, in the same order.
///
/// Lowercasing does not keep every occurrence. A capital sigma becomes one
/// letter at the end of a word and another elsewhere, so a query of that one
/// letter occurs in a word that ends in it, but not after both are
/// lowercased.
pub proof fn lemma_case_sensitive_within_insensitive(query: Seq<char>, contents: Seq<char>)
    requires
        forall|i: int|
            0 <= i < lines(contents).len() && occurs_in(query, #[trigger] lines(contents)[i])
                ==> occurs_in(lowercase(query), lowercase(lines(contents)[i])),
    ensures
        matching_lines(query, contents, true) == matching_lines(query, contents, false).filter(
            |line: Seq<char>| line_matches(query, line, true),
        ),
        matching_lines(query, contents, true).len() <= matching_lines(
            query,
            contents,
            false,
        ).len(),
{
    let with_case = |line: Seq<char>| line_matches(query, line, true);
    let without_case = |line: Seq<char>| line_matches(query, line, false);
    lemma_filter_within(lines(contents), with_case, without_case);
    lines(contents).filter(without_case).lemma_filter_len(with_case);
}

/// A search is determined by its inputs: any two results for the same
/// query, the same contents and the same mode are the same lines in the
/// same order.
pub proof fn lemma_search_is_repeatable(
    query: Seq<char>,
    contents: Seq<char>,
    case_sensitive: bool,
    first: Seq<Seq<char>>,
    second: Seq<Seq<char>>,
)
    requires
        first == matching_lines(query, contents, case_sensitive),
        second == matching_lines(query, contents, case_sensitive),
    ensures
        first == second,
{
}

} // verus!
