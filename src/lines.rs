//! How a text is cut into lines.
//!
//! A line ends at a `'\n'`, which is not part of it, nor is a `'\r'` just
//! before that `'\n'`. Text after the last `'\n'` forms one more line if it is
//! not empty; so the empty text has no lines, and a text that ends in `'\n'`
//! has no empty line after it.
use vstd::prelude::*;

verus! {

/// The pieces of `s` between `'\n'` characters, including the (possibly
/// empty) piece after the last one.
pub open spec fn pieces(s: Seq<char>) -> Seq<Seq<char>>
    decreases s.len(),
{
    if s.len() == 0 {
        seq![Seq::empty()]
    } else {
        let rest = pieces(s.drop_last());
        if s.last() == '\n' {
            rest.push(Seq::empty())
        } else {
            rest.update(rest.len() - 1, rest.last().push(s.last()))
        }
    }
}

/// A terminated piece without the `'\r'` that may end it.
pub open spec fn strip_cr(l: Seq<char>) -> Seq<char> {
    if l.len() > 0 && l.last() == '\r' {
        l.drop_last()
    } else {
        l
    }
}

/// The lines of `s`, in order.
pub open spec fn lines_of(s: Seq<char>) -> Seq<Seq<char>> {
    let p = pieces(s);
    let ended = p.drop_last().map_values(|l: Seq<char>| strip_cr(l));
    if p.last().len() == 0 {
        ended
    } else {
        ended.push(p.last())
    }
}

/// Where each line of `s` starts and ends, as character positions.
pub open spec fn spans_locate(s: Seq<char>, spans: Seq<(usize, usize)>) -> bool {
    &&& spans.len() == lines_of(s).len()
    &&& forall|k: int|
        0 <= k < spans.len() ==> {
            &&& (#[trigger] spans[k]).0 <= spans[k].1 <= s.len()
            &&& s.subrange(spans[k].0 as int, spans[k].1 as int) == lines_of(s)[k]
        }
}

proof fn lemma_pieces_step(s: Seq<char>, i: int)
    requires
        0 <= i < s.len(),
    ensures
        ({
            let p = pieces(s.subrange(0, i));
            let q = pieces(s.subrange(0, i + 1));
            if s[i] == '\n' {
                q == p.push(Seq::<char>::empty())
            } else {
                q == p.update(p.len() - 1, p.last().push(s[i]))
            }
        }),
{
    assert(s.subrange(0, i + 1).drop_last() =~= s.subrange(0, i));
}

pub(crate) proof fn lemma_pieces_nonempty(s: Seq<char>)
    ensures
        pieces(s).len() >= 1,
    decreases s.len(),
{
    if s.len() > 0 {
        lemma_pieces_nonempty(s.drop_last());
    }
}

/// The position of every line of `s`, in order.
pub fn line_spans(s: &Vec<char>) -> (r: Vec<(usize, usize)>)
    ensures
        spans_locate(s@, r@),
{
    let n = s.len();
    let mut spans: Vec<(usize, usize)> = Vec::new();
    let mut start: usize = 0;
    let mut i: usize = 0;
    assert(pieces(s@.subrange(0, 0)) == seq![Seq::<char>::empty()]);
    while i < n
        invariant
            n == s@.len(),
            start <= i <= n,
            pieces(s@.subrange(0, i as int)).len() == spans@.len() + 1,
            pieces(s@.subrange(0, i as int)).last() == s@.subrange(start as int, i as int),
            forall|k: int|
                0 <= k < spans@.len() ==> {
                    &&& (#[trigger] spans@[k]).0 <= spans@[k].1 <= n
                    &&& s@.subrange(spans@[k].0 as int, spans@[k].1 as int) == strip_cr(
                        pieces(s@.subrange(0, i as int))[k],
                    )
                },
        decreases n - i,
    {
        let ghost p = pieces(s@.subrange(0, i as int));
        proof {
            lemma_pieces_step(s@, i as int);
        }
        let c = s[i];
        if c == '\n' {
            let end = if i > start && s[i - 1] == '\r' {
                i - 1
            } else {
                i
            };
            proof {
                let l = s@.subrange(start as int, i as int);
                if i > start && s@[i - 1] == '\r' {
                    assert(l.drop_last() =~= s@.subrange(start as int, end as int));
                } else {
                    assert(strip_cr(l) == l);
                }
            }
            spans.push((start, end));
            start = i + 1;
            assert(s@.subrange(start as int, i + 1) =~= Seq::<char>::empty());
        } else {
            assert(s@.subrange(start as int, i + 1) =~= s@.subrange(start as int, i as int).push(c));
        }
        i = i + 1;
    }
    let ghost p = pieces(s@);
    assert(s@.subrange(0, n as int) =~= s@);
    if start < n {
        spans.push((start, n));
    }
    assert(spans_locate(s@, spans@)) by {
        let lines = lines_of(s@);
        let ended = p.drop_last().map_values(|l: Seq<char>| strip_cr(l));
        assert forall|k: int| 0 <= k < spans@.len() implies {
            &&& (#[trigger] spans@[k]).0 <= spans@[k].1 <= n
            &&& s@.subrange(spans@[k].0 as int, spans@[k].1 as int) == lines[k]
        } by {
            if k < p.len() - 1 {
                assert(lines[k] == ended[k]);
            }
        }
    }
    spans
}

} // verus!
