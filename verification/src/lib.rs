//! Line-oriented substring search over in-memory text.
//!
//! [`search`] and [`search_case_insensitive`] return the lines of a text in
//! which a query occurs; [`Config`] holds what a run needs, and [`run`]
//! searches as a configuration says. Reading the text and printing the lines
//! is left to the caller: every function here works on text in memory and
//! returns slices of it.
//!
//! The contracts speak of texts as sequences of characters. What the lines
//! of a text are, and when a line matches, is defined in [`text`].

use vstd::prelude::*;
use crate::laws::{
    lemma_absent_query, lemma_empty_contents, lemma_found_lines, lemma_no_matching_line,
};
use crate::lowercase::lowercase;
use crate::matching::contains;
use crate::split::split_first_line;
use crate::text::{
    found_in, lemma_matching_lines_step, matching_lines, no_line_matches, occurs_in,
};

pub mod encoding;
pub mod laws;
pub mod lowercase;
pub mod matching;
pub mod split;
pub mod text;

verus! {

/// What one run needs: the query, the name of the file to search, and
/// whether upper and lower case differ.
pub struct Config {
    pub query: String,
    pub filename: String,
    pub case_sensitive: bool,
}

impl Config {
    /// Builds the configuration from the program's arguments, the program's
    /// own name first, then the query and the file name. `ignore_case` says
    /// whether the caller asked for case to be ignored.
    ///
    /// Fails when the query or the file name is missing. Arguments behind the
    /// file name are ignored, and neither text is looked at.
    pub fn new(args: &[String], ignore_case: bool) -> (built: Result<Config, &'static str>)
        ensures
            built is Err <==> args@.len() < 3,
            built matches Err(message) ==> message@ == "not enough arguments"@,
            built matches Ok(config) ==> {
                &&& config.query@ == args@[1]@
                &&& config.filename@ == args@[2]@
                &&& config.case_sensitive == !ignore_case
            },
    {
        if args.len() < 3 {
            return Err("not enough arguments");
        }
        Ok(Config { query: args[1].clone(), filename: args[2].clone(), case_sensitive: !ignore_case })
    }
}

/// The lines of `contents` that match `query`, borrowed from `contents`.
fn select_lines<'a>(query: &str, contents: &'a str, case_sensitive: bool) -> (found: Vec<&'a str>)
    ensures
        found.deep_view() == matching_lines(query@, contents@, case_sensitive),
        found_in(found.deep_view(), query@, contents@, case_sensitive),
        no_line_matches(query@, contents@, case_sensitive) ==> found@.len() == 0,
        contents@.len() == 0 ==> found@.len() == 0,
{
    let folded: Option<String> = if case_sensitive {
        None
    } else {
        Some(query.to_lowercase())
    };
    let needle: &str = match &folded {
        Some(lowered) => lowered.as_str(),
        None => query,
    };
    let mut found: Vec<&'a str> = Vec::new();
    let mut rest: &'a str = contents;
    while !rest.is_empty()
        invariant
            needle@ == (if case_sensitive {
                query@
            } else {
                lowercase(query@)
            }),
            found.deep_view() + matching_lines(query@, rest@, case_sensitive) == matching_lines(
                query@,
                contents@,
                case_sensitive,
            ),
        decreases rest@.len(),
    {
        let (line, tail) = split_first_line(rest);
        let hit = if case_sensitive {
            contains(line, needle)
        } else {
            contains(line.to_lowercase().as_str(), needle)
        };
        proof {
            lemma_matching_lines_step(query@, rest@, case_sensitive);
        }
        if hit {
            found.push(line);
        }
        rest = tail;
    }
    proof {
        lemma_found_lines(query@, contents@, case_sensitive);
        if no_line_matches(query@, contents@, case_sensitive) {
            lemma_no_matching_line(query@, contents@, case_sensitive);
        }
        if contents@.len() == 0 {
            lemma_empty_contents(query@, contents@, case_sensitive);
        }
    }
    found
}

/// Returns the lines of `contents` in which `query` occurs, in their order
/// in `contents`. Upper and lower case differ.
///
/// A query that occurs nowhere in `contents` finds nothing, and nothing is
/// found in the empty text.
pub fn search<'a>(query: &str, contents: &'a str) -> (found: Vec<&'a str>)
    ensures
        found.deep_view() == matching_lines(query@, contents@, true),
        found_in(found.deep_view(), query@, contents@, true),
        !occurs_in(query@, contents@) ==> found@.len() == 0,
        no_line_matches(query@, contents@, true) ==> found@.len() == 0,
        contents@.len() == 0 ==> found@.len() == 0,
{
    proof {
        if !occurs_in(query@, contents@) {
            lemma_absent_query(query@, contents@);
        }
    }
    select_lines(query, contents, true)
}

/// Returns the lines of `contents` in which `query` occurs once both are
/// lowercased, in their order in `contents` and as they stand there.
///
/// A query that matches no line finds nothing, and nothing is found in the
/// empty text.
pub fn search_case_insensitive<'a>(query: &str, contents: &'a str) -> (found: Vec<&'a str>)
    ensures
        found.deep_view() == matching_lines(query@, contents@, false),
        found_in(found.deep_view(), query@, contents@, false),
        no_line_matches(query@, contents@, false) ==> found@.len() == 0,
        contents@.len() == 0 ==> found@.len() == 0,
{
    select_lines(query, contents, false)
}

/// Searches `contents`, the text of the file that `config` names, as
/// `config` says, and returns the lines to print, in order.
pub fn run<'a>(config: &Config, contents: &'a str) -> (found: Vec<&'a str>)
    ensures
        found.deep_view() == matching_lines(config.query@, contents@, config.case_sensitive),
        found_in(found.deep_view(), config.query@, contents@, config.case_sensitive),
        no_line_matches(config.query@, contents@, config.case_sensitive) ==> found@.len() == 0,
        contents@.len() == 0 ==> found@.len() == 0,
{
    if config.case_sensitive {
        search(config.query.as_str(), contents)
    } else {
        search_case_insensitive(config.query.as_str(), contents)
    }
}

} // verus!
