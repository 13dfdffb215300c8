//! What holds of the searches for every query and every text.
use crate::lines::{lines_of, pieces, strip_cr};
use crate::search::{ascii_lowered, holds_query, lower_of, matching_lines, matching_lines_folded};
use crate::text::{has_substring, occurs_at};
use vstd::prelude::*;
use vstd::utf8::is_ascii_chars;

verus! {

/// `r` lists elements of `s` at strictly increasing positions `idx`, and
/// lists each element of `s` that meets `p`.
pub open spec fn picks_in_order(
    s: Seq<Seq<char>>,
    r: Seq<Seq<char>>,
    idx: Seq<int>,
    p: spec_fn(Seq<char>) -> bool,
) -> bool {
    &&& idx.len() == r.len()
    &&& forall|j: int| 0 <= j < r.len() ==> 0 <= #[trigger] idx[j] < s.len() && r[j] == s[idx[j]]
    &&& forall|j: int, k: int| 0 <= j < k < r.len() ==> idx[j] < idx[k]
    &&& forall|i: int| 0 <= i < s.len() && p(s[i]) ==> exists|j: int| 0 <= j < r.len() && #[trigger] idx[j] == i
}

proof fn lemma_filter_in_order(s: Seq<Seq<char>>, p: spec_fn(Seq<char>) -> bool)
    ensures
        exists|idx: Seq<int>| #[trigger] picks_in_order(s, s.filter(p), idx, p),
    decreases s.len(),
{
    reveal(Seq::filter);
    if s.len() == 0 {
        assert(picks_in_order(s, s.filter(p), Seq::empty(), p));
    } else {
        let t = s.drop_last();
        lemma_filter_in_order(t, p);
        let idx = choose|idx: Seq<int>| picks_in_order(t, t.filter(p), idx, p);
        let n = s.len() - 1;
        if p(s.last()) {
            let idx2 = idx.push(n);
            assert forall|i: int| 0 <= i < s.len() && p(s[i]) implies exists|j: int|
                0 <= j < s.filter(p).len() && #[trigger] idx2[j] == i by {
                if i < n {
                    assert(t[i] == s[i]);
                    let j = choose|j: int| 0 <= j < t.filter(p).len() && #[trigger] idx[j] == i;
                    assert(idx2[j] == i);
                } else {
                    assert(idx2[idx.len() as int] == i);
                }
            }
            assert(picks_in_order(s, s.filter(p), idx2, p));
        } else {
            assert forall|i: int| 0 <= i < s.len() && p(s[i]) implies exists|j: int|
                0 <= j < s.filter(p).len() && #[trigger] idx[j] == i by {
                assert(t[i] == s[i]);
            }
            assert(picks_in_order(s, s.filter(p), idx, p));
        }
    }
}

/// Every line that the case-sensitive search returns holds the query, each
/// line of the text that holds the query is returned, and the returned lines
/// keep the order of the text.
pub proof fn lemma_search_sound_complete(query: Seq<char>, content: Seq<char>)
    ensures
        forall|j: int|
            0 <= j < matching_lines(query, content).len() ==> has_substring(
                #[trigger] matching_lines(query, content)[j],
                query,
            ),
        exists|idx: Seq<int>|
            #[trigger] picks_in_order(
                lines_of(content),
                matching_lines(query, content),
                idx,
                holds_query(query),
            ),
{
    broadcast use vstd::seq_lib::group_filter_ensures;

    let lines = lines_of(content);
    lemma_filter_in_order(lines, holds_query(query));
    let idx = choose|idx: Seq<int>|
        #[trigger] picks_in_order(lines, lines.filter(holds_query(query)), idx, holds_query(query));
    assert(picks_in_order(lines, matching_lines(query, content), idx, holds_query(query)));
}

proof fn lemma_filter_all(s: Seq<Seq<char>>, p: spec_fn(Seq<char>) -> bool)
    requires
        forall|i: int| 0 <= i < s.len() ==> p(#[trigger] s[i]),
    ensures
        s.filter(p) == s,
    decreases s.len(),
{
    reveal(Seq::filter);
    if s.len() > 0 {
        lemma_filter_all(s.drop_last(), p);
        assert(s.drop_last().push(s.last()) =~= s);
    }
}

/// With the empty query the case-sensitive search returns every line of
/// the text, unchanged and in order.
pub proof fn lemma_empty_query_keeps_all(content: Seq<char>)
    ensures
        matching_lines(Seq::empty(), content) == lines_of(content),
{
    let lines = lines_of(content);
    assert forall|i: int| 0 <= i < lines.len() implies has_substring(
        #[trigger] lines[i],
        Seq::<char>::empty(),
    ) by {
        assert(lines[i].subrange(0, 0) =~= Seq::<char>::empty());
        assert(occurs_at(lines[i], Seq::empty(), 0));
    }
    lemma_filter_all(lines, holds_query(Seq::empty()));
}

proof fn lemma_pieces_ascii(s: Seq<char>)
    requires
        is_ascii_chars(s),
    ensures
        forall|k: int| 0 <= k < pieces(s).len() ==> is_ascii_chars(#[trigger] pieces(s)[k]),
    decreases s.len(),
{
    if s.len() > 0 {
        let t = s.drop_last();
        assert(is_ascii_chars(t)) by {
            assert forall|i: int| 0 <= i < t.len() implies '\0' <= #[trigger] t[i] <= '\u{7f}' by {
                assert(t[i] == s[i]);
            }
        }
        lemma_pieces_ascii(t);
        crate::lines::lemma_pieces_nonempty(t);
        let rest = pieces(t);
        if s.last() != '\n' {
            let l = rest.last().push(s.last());
            assert(is_ascii_chars(rest[rest.len() - 1]));
            assert(is_ascii_chars(l)) by {
                assert forall|i: int| 0 <= i < l.len() implies '\0' <= #[trigger] l[i] <= '\u{7f}' by {
                    if i < l.len() - 1 {
                        assert(l[i] == rest.last()[i]);
                    } else {
                        assert(l[i] == s[s.len() - 1]);
                    }
                }
            }
        }
    }
}

proof fn lemma_lines_ascii(s: Seq<char>)
    requires
        is_ascii_chars(s),
    ensures
        forall|k: int| 0 <= k < lines_of(s).len() ==> is_ascii_chars(#[trigger] lines_of(s)[k]),
{
    lemma_pieces_ascii(s);
    crate::lines::lemma_pieces_nonempty(s);
    let p = pieces(s);
    let lines = lines_of(s);
    assert forall|k: int| 0 <= k < lines.len() implies is_ascii_chars(#[trigger] lines[k]) by {
        if k < p.len() - 1 {
            let l = p[k];
            assert(is_ascii_chars(l));
            assert(lines[k] == strip_cr(l));
            assert forall|i: int| 0 <= i < strip_cr(l).len() implies '\0' <= #[trigger] strip_cr(
                l,
            )[i] <= '\u{7f}' by {
                assert(strip_cr(l)[i] == l[i]);
            }
        } else {
            assert(lines[k] == p[p.len() - 1]);
        }
    }
}

/// Where lowercasing turns ASCII capitals into small letters and keeps the
/// rest (as `str::to_lowercase` does on ASCII text), every line that the
/// case-sensitive search returns for an ASCII query and text is returned by
/// the case-insensitive search too, and the latter returns lines of the text
/// as they stand there, not their lowercase forms.
pub proof fn lemma_folded_search_includes(query: Seq<char>, content: Seq<char>)
    requires
        is_ascii_chars(query),
        is_ascii_chars(content),
        forall|s: Seq<char>| is_ascii_chars(s) ==> #[trigger] lower_of(s) == ascii_lowered(s),
    ensures
        forall|l: Seq<char>|
            #[trigger] matching_lines(query, content).contains(l) ==> matching_lines_folded(
                query,
                content,
            ).contains(l),
        forall|l: Seq<char>|
            #[trigger] matching_lines_folded(query, content).contains(l) ==> lines_of(
                content,
            ).contains(l),
{
    broadcast use vstd::seq_lib::group_filter_ensures;

    let lines = lines_of(content);
    let exact = holds_query(query);
    let folded = |l: Seq<char>| has_substring(lower_of(l), lower_of(query));
    lemma_lines_ascii(content);
    assert forall|l: Seq<char>| #[trigger] lines.filter(exact).contains(l) implies lines.filter(
        folded,
    ).contains(l) by {
        lines.lemma_filter_contains_rev(exact, l);
        let i = choose|i: int| 0 <= i < lines.len() && lines[i] == l;
        assert(is_ascii_chars(lines[i]));
        let at = choose|at: int| occurs_at(l, query, at);
        let ll = lower_of(l);
        let lq = lower_of(query);
        assert(ll.subrange(at, at + lq.len()) =~= lq) by {
            assert forall|j: int| 0 <= j < lq.len() implies ll.subrange(at, at + lq.len())[j]
                == lq[j] by {
                assert(l.subrange(at, at + query.len())[j] == query[j]);
            }
        }
        assert(occurs_at(ll, lq, at));
        lines.lemma_filter_contains(folded, i);
    }
    assert forall|l: Seq<char>| #[trigger] lines.filter(folded).contains(l) implies lines.contains(
        l,
    ) by {
        lines.lemma_filter_contains_rev(folded, l);
    }
}

} // verus!
