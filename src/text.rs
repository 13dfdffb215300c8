//! Characters of a string slice, and substring tests over them.
use vstd::prelude::*;
use vstd::std_specs::iter::IteratorSpec;

verus! {

/// `needle` stands in `hay` from position `i` on.
pub open spec fn occurs_at(hay: Seq<char>, needle: Seq<char>, i: int) -> bool {
    0 <= i && i + needle.len() <= hay.len() && hay.subrange(i, i + needle.len()) == needle
}

/// `needle` is a substring of `hay`; the empty sequence is a substring of
/// every sequence.
pub open spec fn has_substring(hay: Seq<char>, needle: Seq<char>) -> bool {
    exists|i: int| occurs_at(hay, needle, i)
}

/// The characters of `s`, collected once so that later scans are linear.
pub fn chars_of(s: &str) -> (r: Vec<char>)
    ensures
        r@ == s@,
{
    let mut out: Vec<char> = Vec::new();
    let mut it = s.chars();
    loop
        invariant
            it.obeys_prophetic_iter_laws(),
            out@ + it.remaining() == s@,
            it.decrease() is Some,
        ensures
            out@ == s@,
        decreases it.decrease()->0,
    {
        match it.next() {
            Some(c) => {
                out.push(c);
            },
            None => {
                assert(out@ =~= s@);
                break;
            },
        }
    }
    out
}

/// Relies on `String::push`: the character is appended at the end.
#[verifier::external_body]
fn push_char(s: &mut String, c: char)
    ensures
        final(s)@ == old(s)@.push(c),
{
    s.push(c)
}

/// A new string that holds the characters of `chars` from `lo` up to (not
/// including) `hi`.
pub fn string_of_range(chars: &Vec<char>, lo: usize, hi: usize) -> (r: String)
    requires
        lo <= hi <= chars@.len(),
    ensures
        r@ == chars@.subrange(lo as int, hi as int),
{
    let mut out = String::new();
    let mut i: usize = lo;
    while i < hi
        invariant
            lo <= i <= hi <= chars@.len(),
            out@ == chars@.subrange(lo as int, i as int),
        decreases hi - i,
    {
        push_char(&mut out, chars[i]);
        assert(chars@.subrange(lo as int, i + 1) =~= chars@.subrange(lo as int, i as int).push(
            chars@[i as int],
        ));
        i = i + 1;
    }
    out
}

/// Whether `needle` occurs at position `i` of `hay`, compared character by
/// character.
fn occurs_here(hay: &Vec<char>, hi: usize, i: usize, needle: &Vec<char>) -> (r: bool)
    requires
        i + needle@.len() <= hi <= hay@.len(),
    ensures
        r == (hay@.subrange(i as int, i + needle@.len()) == needle@),
{
    let m = needle.len();
    let mut j: usize = 0;
    while j < m
        invariant
            i + m <= hi <= hay@.len(),
            m == needle@.len(),
            j <= m,
            hay@.subrange(i as int, i + j) == needle@.subrange(0, j as int),
        decreases m - j,
    {
        if hay[i + j] != needle[j] {
            assert(hay@.subrange(i as int, i + m)[j as int] != needle@[j as int]);
            return false;
        }
        assert(hay@.subrange(i as int, i + j + 1) =~= hay@.subrange(i as int, i + j).push(
            hay@[i + j],
        ));
        assert(needle@.subrange(0, j + 1) =~= needle@.subrange(0, j as int).push(needle@[j as int]));
        j = j + 1;
    }
    assert(needle@.subrange(0, m as int) =~= needle@);
    true
}

/// Whether `needle` is a substring of the characters of `hay` from `lo` up to
/// (not including) `hi`.
pub fn occurs_within(hay: &Vec<char>, lo: usize, hi: usize, needle: &Vec<char>) -> (r: bool)
    requires
        lo <= hi <= hay@.len(),
    ensures
        r == has_substring(hay@.subrange(lo as int, hi as int), needle@),
{
    let ghost h = hay@.subrange(lo as int, hi as int);
    let m = needle.len();
    if m > hi - lo {
        assert forall|k: int| !occurs_at(h, needle@, k) by {}
        return false;
    }
    let mut i: usize = lo;
    while hi - i >= m
        invariant
            lo <= i <= hi,
            hi <= hay@.len(),
            m == needle@.len(),
            h == hay@.subrange(lo as int, hi as int),
            forall|k: int| 0 <= k < i - lo ==> !occurs_at(h, needle@, k),
        decreases hi - i,
    {
        let found = occurs_here(hay, hi, i, needle);
        assert(h.subrange(i - lo, i - lo + m) =~= hay@.subrange(i as int, i + m));
        if found {
            assert(occurs_at(h, needle@, i - lo));
            return true;
        }
        if m == 0 {
            assert(hay@.subrange(i as int, i + m) =~= needle@);
        }
        i = i + 1;
    }
    assert forall|k: int| !occurs_at(h, needle@, k) by {
        if 0 <= k && k + m <= h.len() {
            assert(k < i - lo);
        }
    }
    false
}

/// Whether `needle` is a substring of `hay`.
pub fn contains_chars(hay: &Vec<char>, needle: &Vec<char>) -> (r: bool)
    ensures
        r == has_substring(hay@, needle@),
{
    assert(hay@.subrange(0, hay@.len() as int) =~= hay@);
    occurs_within(hay, 0, hay.len(), needle)
}

} // verus!
