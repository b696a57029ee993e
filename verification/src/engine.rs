//! The search engine: prefix and suffix tests, forward and backward search,
//! and index-range slicing, each specified against the model.

use vstd::prelude::*;

use crate::matcher::Matcher;
use crate::model::{
    ends_with_spec, find_spec, has_match, lemma_find_some_iff_has_match,
    lemma_first_match_characterizes, lemma_last_match_characterizes, lemma_no_match, match_at,
    rfind_spec, starts_with_spec,
};
use crate::unit::CodeUnit;

verus! {

/// The error of `substr`: the requested bounds do not describe a range
/// inside the sequence.
#[derive(Clone, Copy, PartialEq, Eq, Structural, Debug)]
pub struct OutOfRange;

/// Whether the needle occurs at position `i` of the haystack, comparing one
/// code unit at a time and stopping at the first mismatch.
pub(crate) fn match_here<T: CodeUnit>(h: &Vec<T>, n: &Vec<T>, i: usize) -> (r: bool)
    requires
        i + n@.len() <= h@.len(),
    ensures
        r == match_at(h@, n@, i as int),
{
    let mut j: usize = 0;
    while j < n.len()
        invariant
            i + n@.len() <= h@.len(),
            j <= n@.len(),
            forall|k: int| 0 <= k < j ==> #[trigger] n@[k] == h@[i + k],
        decreases n@.len() - j,
    {
        proof {
            assert(h.len() == h@.len());
        }
        if !h[i + j].eq_unit(n[j]) {
            assert(n@[j as int] != h@[i + j as int]);
            return false;
        }
        j += 1;
    }
    true
}

/// True exactly when `n` is a prefix of `h`: always for an empty `n`, never
/// when `n` is longer than `h`.
pub fn starts_with<T: CodeUnit>(h: &Vec<T>, n: &Vec<T>) -> (r: bool)
    ensures
        r == starts_with_spec(h@, n@),
{
    if n.len() > h.len() {
        false
    } else {
        match_here(h, n, 0)
    }
}

/// True exactly when `n` is a suffix of `h`: always for an empty `n`, never
/// when `n` is longer than `h`.
pub fn ends_with<T: CodeUnit>(h: &Vec<T>, n: &Vec<T>) -> (r: bool)
    ensures
        r == ends_with_spec(h@, n@),
{
    if n.len() > h.len() {
        false
    } else {
        match_here(h, n, h.len() - n.len())
    }
}

/// The smallest position where `n` occurs in `h`, through the matcher `M`:
/// `Some(0)` for an empty needle, `None` when the needle is longer than the
/// haystack, and otherwise the first matching index if one exists.
pub fn find<T: CodeUnit, M: Matcher<T>>(h: &Vec<T>, n: &Vec<T>) -> (r: Option<usize>)
    ensures
        r matches Some(i) ==> find_spec(h@, n@) == Some(i as int),
        r is None ==> find_spec(h@, n@) is None,
        r is Some <==> has_match(h@, n@),
{
    proof {
        lemma_find_some_iff_has_match(h@, n@);
    }
    if n.len() == 0 {
        proof {
            assert(match_at(h@, n@, 0));
            lemma_first_match_characterizes(h@, n@, 0);
        }
        return Some(0);
    }
    if n.len() > h.len() {
        proof {
            assert forall|i: int| !match_at(h@, n@, i) by {};
            lemma_no_match(h@, n@);
        }
        return None;
    }
    let cand = h.len() - n.len() + 1;
    let r = M::first_in(h, n, 0, cand);
    proof {
        match r {
            Some(i) => {
                lemma_first_match_characterizes(h@, n@, i as int);
            },
            None => {
                assert forall|i: int| !match_at(h@, n@, i) by {};
                lemma_no_match(h@, n@);
            },
        }
    }
    r
}

/// The largest position where `n` occurs in `h`, through the matcher `M`:
/// `Some(h.len())` for an empty needle, `None` when the needle is longer
/// than the haystack, and otherwise the last matching index if one exists.
pub fn rfind<T: CodeUnit, M: Matcher<T>>(h: &Vec<T>, n: &Vec<T>) -> (r: Option<usize>)
    ensures
        r matches Some(i) ==> rfind_spec(h@, n@) == Some(i as int),
        r is None ==> rfind_spec(h@, n@) is None,
        r is Some <==> has_match(h@, n@),
{
    proof {
        lemma_find_some_iff_has_match(h@, n@);
    }
    if n.len() == 0 {
        let last = h.len();
        proof {
            assert(match_at(h@, n@, last as int));
            lemma_last_match_characterizes(h@, n@, last as int);
        }
        return Some(last);
    }
    if n.len() > h.len() {
        proof {
            assert forall|i: int| !match_at(h@, n@, i) by {};
            lemma_no_match(h@, n@);
        }
        return None;
    }
    let cand = h.len() - n.len() + 1;
    let r = M::last_in(h, n, 0, cand);
    proof {
        match r {
            Some(i) => {
                lemma_last_match_characterizes(h@, n@, i as int);
            },
            None => {
                assert forall|i: int| !match_at(h@, n@, i) by {};
                lemma_no_match(h@, n@);
            },
        }
    }
    r
}

/// The code units of `s` in the range `[start, end)`, or `OutOfRange` exactly
/// when the bounds are inverted or reach past the end of `s`.
pub fn substr<T: Copy>(s: &Vec<T>, start: usize, end: usize) -> (r: Result<Vec<T>, OutOfRange>)
    ensures
        r is Ok <==> (start <= end && end <= s@.len()),
        r matches Ok(v) ==> v@ == s@.subrange(start as int, end as int),
{
    if start > end || end > s.len() {
        return Err(OutOfRange);
    }
    let mut out: Vec<T> = Vec::new();
    let mut i: usize = start;
    while i < end
        invariant
            start <= i <= end,
            end <= s@.len(),
            out@ == s@.subrange(start as int, i as int),
        decreases end - i,
    {
        out.push(s[i]);
        i += 1;
        proof {
            assert(out@ =~= s@.subrange(start as int, i as int));
        }
    }
    assert(out@ =~= s@.subrange(start as int, end as int));
    Ok(out)
}

} // verus!
