//! The two searches: lines that hold the query as it is written, and lines
//! that hold it once both are lowercased.
//!
//! Each returned line is a copy of a line of the searched text, in the order
//! of the text; a line that holds the query several times is returned once.
//! Copies leave the caller free to drop the text; building them costs one
//! pass over the characters of the lines returned.
use crate::lines::{line_spans, lines_of, spans_locate};
use crate::text::{chars_of, contains_chars, has_substring, occurs_within, string_of_range};
use vstd::prelude::*;

verus! {

/// What `str::to_lowercase` makes of a text.
pub uninterp spec fn lower_of(s: Seq<char>) -> Seq<char>;

/// The lowercase form of an ASCII character.
pub open spec fn ascii_lower(c: char) -> char {
    if 'A' <= c && c <= 'Z' {
        ((c as u32) + 32) as char
    } else {
        c
    }
}

/// The text with each ASCII capital letter replaced by its small letter.
pub open spec fn ascii_lowered(s: Seq<char>) -> Seq<char> {
    Seq::new(s.len(), |i: int| ascii_lower(s[i]))
}

/// Relies on `str::to_lowercase`: the result depends on the characters
/// alone, and an ASCII text comes back with each capital letter replaced by
/// its small letter and every other character kept.
#[verifier::external_body]
fn lowercase(s: &str) -> (r: String)
    ensures
        r@ == lower_of(s@),
        vstd::utf8::is_ascii_chars(s@) ==> r@ == ascii_lowered(s@),
{
    s.to_lowercase()
}

/// The texts that a sequence of strings holds.
pub open spec fn texts(v: Seq<String>) -> Seq<Seq<char>> {
    v.map_values(|l: String| l@)
}

/// The test that a line holds `query`.
pub open spec fn holds_query(query: Seq<char>) -> spec_fn(Seq<char>) -> bool {
    |l: Seq<char>| has_substring(l, query)
}

/// The lines of `content` that hold `query`, in order.
pub open spec fn matching_lines(query: Seq<char>, content: Seq<char>) -> Seq<Seq<char>> {
    lines_of(content).filter(holds_query(query))
}

/// The lines of `content` whose lowercase form holds the lowercase form of
/// `query`, in order and as they stand in `content`.
pub open spec fn matching_lines_folded(query: Seq<char>, content: Seq<char>) -> Seq<Seq<char>> {
    lines_of(content).filter(|l: Seq<char>| has_substring(lower_of(l), lower_of(query)))
}

/// Every line of `contents` that holds `query`, in order.
pub fn search(query: &str, contents: &str) -> (r: Vec<String>)
    ensures
        texts(r@) == matching_lines(query@, contents@),
{
    let text = chars_of(contents);
    let needle = chars_of(query);
    let spans = line_spans(&text);
    let ghost lines = lines_of(contents@);
    let ghost pred = holds_query(query@);
    let mut out: Vec<String> = Vec::new();
    let mut k: usize = 0;
    while k < spans.len()
        invariant
            text@ == contents@,
            needle@ == query@,
            lines == lines_of(contents@),
            pred == holds_query(query@),
            spans_locate(text@, spans@),
            k <= spans@.len(),
            texts(out@) == lines.take(k as int).filter(pred),
        decreases spans@.len() - k,
    {
        let (a, b) = spans[k];
        proof {
            assert(lines.take(k + 1) =~= lines.take(k as int).push(lines[k as int]));
            lines.take(k as int).lemma_filter_push(lines[k as int], pred);
        }
        if occurs_within(&text, a, b, &needle) {
            let line = string_of_range(&text, a, b);
            let ghost before = out@;
            out.push(line);
            assert(texts(out@) =~= texts(before).push(line@));
        }
        k = k + 1;
    }
    assert(lines.take(k as int) =~= lines);
    out
}

/// Every line of `contents` that holds `query` once both are lowercased, in
/// order and in its own case.
pub fn search_case_insensitive(query: &str, contents: &str) -> (r: Vec<String>)
    ensures
        texts(r@) == matching_lines_folded(query@, contents@),
{
    let text = chars_of(contents);
    let lowered_query = lowercase(query);
    let needle = chars_of(lowered_query.as_str());
    let spans = line_spans(&text);
    let ghost lines = lines_of(contents@);
    let ghost pred = |l: Seq<char>| has_substring(lower_of(l), lower_of(query@));
    let mut out: Vec<String> = Vec::new();
    let mut k: usize = 0;
    while k < spans.len()
        invariant
            text@ == contents@,
            needle@ == lower_of(query@),
            lines == lines_of(contents@),
            pred == (|l: Seq<char>| has_substring(lower_of(l), lower_of(query@))),
            spans_locate(text@, spans@),
            k <= spans@.len(),
            texts(out@) == lines.take(k as int).filter(pred),
        decreases spans@.len() - k,
    {
        let (a, b) = spans[k];
        proof {
            assert(lines.take(k + 1) =~= lines.take(k as int).push(lines[k as int]));
            lines.take(k as int).lemma_filter_push(lines[k as int], pred);
        }
        let line = string_of_range(&text, a, b);
        let lowered = lowercase(line.as_str());
        let folded = chars_of(lowered.as_str());
        if contains_chars(&folded, &needle) {
            let ghost before = out@;
            out.push(line);
            assert(texts(out@) =~= texts(before).push(line@));
        }
        k = k + 1;
    }
    assert(lines.take(k as int) =~= lines);
    out
}

} // verus!
