//! The pluggable matching primitive: given a haystack, a non-empty needle and
//! a window of candidate start positions, report the first or last position
//! in the window where the needle occurs.
//!
//! The trait's contract pins the result down completely, so every
//! implementation must agree with every other on every input; the linear
//! scan is the reference, and the byte matcher accelerates the same search
//! with a single-byte prefilter.

use vstd::prelude::*;

use crate::engine::match_here;
use crate::model::{match_at, num_candidates};
use crate::unit::CodeUnit;

verus! {

/// A strategy for locating occurrences of a needle inside a window of
/// candidate start positions. All implementations return identical results.
pub trait Matcher<T: CodeUnit> {
    /// The smallest position in `[from, to)` where the needle occurs, or
    /// `None` when there is none.
    fn first_in(h: &Vec<T>, n: &Vec<T>, from: usize, to: usize) -> (r: Option<usize>)
        requires
            n@.len() >= 1,
            from <= to,
            to <= num_candidates(h@, n@),
        ensures
            match r {
                Some(i) => from <= i < to && match_at(h@, n@, i as int) && forall|j: int|
                    from <= j < i ==> !match_at(h@, n@, j),
                None => forall|j: int| from <= j < to ==> !match_at(h@, n@, j),
            },
    ;

    /// The largest position in `[from, to)` where the needle occurs, or
    /// `None` when there is none.
    fn last_in(h: &Vec<T>, n: &Vec<T>, from: usize, to: usize) -> (r: Option<usize>)
        requires
            n@.len() >= 1,
            from <= to,
            to <= num_candidates(h@, n@),
        ensures
            match r {
                Some(i) => from <= i < to && match_at(h@, n@, i as int) && forall|j: int|
                    i < j < to ==> !match_at(h@, n@, j),
                None => forall|j: int| from <= j < to ==> !match_at(h@, n@, j),
            },
    ;
}

/// The reference matcher: a linear scan that compares the full needle at
/// every candidate position. Works for any code-unit width.
pub struct NaiveMatcher;

impl<T: CodeUnit> Matcher<T> for NaiveMatcher {
    fn first_in(h: &Vec<T>, n: &Vec<T>, from: usize, to: usize) -> (r: Option<usize>) {
        let mut idx = from;
        while idx < to
            invariant
                from <= idx <= to,
                n@.len() >= 1,
                to <= num_candidates(h@, n@),
                forall|j: int| from <= j < idx ==> !match_at(h@, n@, j),
            decreases to - idx,
        {
            if match_here(h, n, idx) {
                return Some(idx);
            }
            idx += 1;
        }
        None
    }

    fn last_in(h: &Vec<T>, n: &Vec<T>, from: usize, to: usize) -> (r: Option<usize>) {
        let mut idx = to;
        while idx > from
            invariant
                from <= idx <= to,
                n@.len() >= 1,
                to <= num_candidates(h@, n@),
                forall|j: int| idx <= j < to ==> !match_at(h@, n@, j),
            decreases idx - from,
        {
            idx -= 1;
            if match_here(h, n, idx) {
                return Some(idx);
            }
        }
        None
    }
}

/// Relies on memchr::memchr: the returned index is the first position of the
/// byte `b` within `h[from..to]`, counted from `from`, and `None` means the
/// byte does not occur there.
#[verifier::external_body]
fn memchr_first_in(b: u8, h: &Vec<u8>, from: usize, to: usize) -> (r: Option<usize>)
    requires
        from <= to,
        to <= h@.len(),
    ensures
        match r {
            Some(k) => from + k < to && h@[from + k] == b && forall|j: int|
                from <= j < from + k ==> h@[j] != b,
            None => forall|j: int| from <= j < to ==> h@[j] != b,
        },
{
    memchr::memchr(b, &h[from..to])
}

/// Relies on memchr::memrchr: the returned index is the last position of the
/// byte `b` within `h[from..to]`, counted from `from`, and `None` means the
/// byte does not occur there.
#[verifier::external_body]
fn memchr_last_in(b: u8, h: &Vec<u8>, from: usize, to: usize) -> (r: Option<usize>)
    requires
        from <= to,
        to <= h@.len(),
    ensures
        match r {
            Some(k) => from + k < to && h@[from + k] == b && forall|j: int|
                from + k < j < to ==> h@[j] != b,
            None => forall|j: int| from <= j < to ==> h@[j] != b,
        },
{
    memchr::memrchr(b, &h[from..to])
}

/// The accelerated byte matcher: scans for the needle's first byte with
/// `memchr`, then verifies the remaining units, exactly as the linear scan
/// would have concluded.
pub struct MemchrMatcher;

impl Matcher<u8> for MemchrMatcher {
    fn first_in(h: &Vec<u8>, n: &Vec<u8>, from: usize, to: usize) -> (r: Option<usize>) {
        let first = n[0];
        let mut cur = from;
        loop
            invariant
                from <= cur <= to,
                n@.len() >= 1,
                to <= num_candidates(h@, n@),
                first == n@[0],
                forall|j: int| from <= j < cur ==> !match_at(h@, n@, j),
            decreases to - cur,
        {
            if cur >= to {
                return None;
            }
            match memchr_first_in(first, h, cur, to) {
                None => {
                    assert forall|j: int| from <= j < to implies !match_at(h@, n@, j) by {
                        if cur <= j < to && match_at(h@, n@, j) {
                            assert(n@[0] == h@[j + 0]);
                        }
                    }
                    return None;
                },
                Some(k) => {
                    let idx = cur + k;
                    assert forall|j: int| from <= j < idx implies !match_at(h@, n@, j) by {
                        if cur <= j < idx && match_at(h@, n@, j) {
                            assert(n@[0] == h@[j + 0]);
                        }
                    }
                    if match_here(h, n, idx) {
                        return Some(idx);
                    }
                    cur = idx + 1;
                },
            }
        }
    }

    fn last_in(h: &Vec<u8>, n: &Vec<u8>, from: usize, to: usize) -> (r: Option<usize>) {
        let first = n[0];
        let mut cur = to;
        loop
            invariant
                from <= cur <= to,
                n@.len() >= 1,
                to <= num_candidates(h@, n@),
                first == n@[0],
                forall|j: int| cur <= j < to ==> !match_at(h@, n@, j),
            decreases cur - from,
        {
            if cur <= from {
                return None;
            }
            match memchr_last_in(first, h, from, cur) {
                None => {
                    assert forall|j: int| from <= j < to implies !match_at(h@, n@, j) by {
                        if from <= j < cur && match_at(h@, n@, j) {
                            assert(n@[0] == h@[j + 0]);
                        }
                    }
                    return None;
                },
                Some(k) => {
                    let idx = from + k;
                    assert forall|j: int| idx < j < to implies !match_at(h@, n@, j) by {
                        if idx < j < cur && match_at(h@, n@, j) {
                            assert(n@[0] == h@[j + 0]);
                        }
                    }
                    if match_here(h, n, idx) {
                        return Some(idx);
                    }
                    cur = idx;
                },
            }
        }
    }
}

} // verus!
