//! One run: the search that the configuration selects, over the loaded text.
//!
//! Reading the file and printing the lines are left to the caller, which
//! hands in what the read gave and prints what comes back, in order.
use crate::config::Config;
use crate::search::{
    matching_lines, matching_lines_folded, search, search_case_insensitive, texts,
};
use vstd::prelude::*;

verus! {

/// Why a run failed.
#[derive(Debug, PartialEq, Eq)]
pub enum RunError {
    /// The file could not be read; the text says why.
    IoFailure(String),
}

/// The lines that a run with this query and case setting reports for
/// `content`.
pub open spec fn selected_lines(query: Seq<char>, case_sensitive: bool, content: Seq<char>) -> Seq<
    Seq<char>,
> {
    if case_sensitive {
        matching_lines(query, content)
    } else {
        matching_lines_folded(query, content)
    }
}

/// What a run with this query and case setting yields when the read of
/// the file gave `loaded`.
pub open spec fn run_result(
    query: Seq<char>,
    case_sensitive: bool,
    loaded: Result<Seq<char>, Seq<char>>,
    r: Result<Seq<Seq<char>>, Seq<char>>,
) -> bool {
    match loaded {
        Ok(content) => r == Ok::<Seq<Seq<char>>, Seq<char>>(
            selected_lines(query, case_sensitive, content),
        ),
        Err(why) => r == Err::<Seq<Seq<char>>, Seq<char>>(why),
    }
}

/// What a run returned, as texts.
pub open spec fn run_view(r: Result<Vec<String>, RunError>) -> Result<Seq<Seq<char>>, Seq<char>> {
    match r {
        Ok(v) => Ok(texts(v@)),
        Err(RunError::IoFailure(why)) => Err(why@),
    }
}

/// What the read of a file gave, as texts.
pub open spec fn loaded_view(loaded: Result<String, String>) -> Result<Seq<char>, Seq<char>> {
    match loaded {
        Ok(t) => Ok(t@),
        Err(why) => Err(why@),
    }
}

/// The lines of `contents` that `config` asks for, in order: matched with
/// case when `config.case_sensitive` holds, without it otherwise.
pub fn matches_for(config: &Config, contents: &str) -> (r: Vec<String>)
    ensures
        texts(r@) == selected_lines(config.query@, config.case_sensitive, contents@),
{
    if config.case_sensitive {
        search(config.query.as_str(), contents)
    } else {
        search_case_insensitive(config.query.as_str(), contents)
    }
}

/// Carries out a run given what reading `config.filename` gave: the lines to
/// print, in order, or the read's failure with no lines at all. No match is
/// no failure.
pub fn run(config: Config, loaded: Result<String, String>) -> (r: Result<Vec<String>, RunError>)
    ensures
        run_result(config.query@, config.case_sensitive, loaded_view(loaded), run_view(r)),
{
    match loaded {
        Err(why) => Err(RunError::IoFailure(why)),
        Ok(contents) => Ok(matches_for(&config, contents.as_str())),
    }
}

/// A run depends on nothing but its configuration and the text it reads:
/// two runs with the same query, case setting and read outcome yield the
/// same lines, or the same failure.
pub proof fn lemma_run_repeatable(
    query: Seq<char>,
    case_sensitive: bool,
    loaded: Result<Seq<char>, Seq<char>>,
    first: Result<Seq<Seq<char>>, Seq<char>>,
    second: Result<Seq<Seq<char>>, Seq<char>>,
)
    requires
        run_result(query, case_sensitive, loaded, first),
        run_result(query, case_sensitive, loaded, second),
    ensures
        first == second,
{
}

} // verus!
