//! Mathematical model of substring search over sequences of code units.
//!
//! Every executable operation of the crate is specified against the
//! definitions here: a match of a needle at a position, the ascending list of
//! all match positions inside a window of candidate start positions, and the
//! first/last elements of that list.

use vstd::prelude::*;

verus! {

/// The needle `n` occurs in the haystack `h` starting at position `i`:
/// every code unit of `n` equals the corresponding unit of `h`.
/// An empty needle matches at every position `0 <= i <= h.len()`.
pub open spec fn match_at<T>(h: Seq<T>, n: Seq<T>, i: int) -> bool {
    &&& 0 <= i
    &&& i + n.len() <= h.len()
    &&& forall|j: int| 0 <= j < n.len() ==> #[trigger] n[j] == h[i + j]
}

/// Some occurrence of `n` exists somewhere in `h`.
pub open spec fn has_match<T>(h: Seq<T>, n: Seq<T>) -> bool {
    exists|i: int| match_at(h, n, i)
}

/// The number of candidate start positions: one more than the length
/// difference when the needle fits, zero when it is longer than the haystack.
pub open spec fn num_candidates<T>(h: Seq<T>, n: Seq<T>) -> int {
    if n.len() <= h.len() {
        h.len() - n.len() + 1
    } else {
        0
    }
}

/// The ascending list of positions in the window `[a, b)` where `n` matches.
pub open spec fn matches_between<T>(h: Seq<T>, n: Seq<T>, a: int, b: int) -> Seq<int>
    decreases b - a,
{
    if a >= b {
        Seq::empty()
    } else {
        let rest = matches_between(h, n, a + 1, b);
        if match_at(h, n, a) {
            seq![a] + rest
        } else {
            rest
        }
    }
}

/// The ascending list of every match position of `n` in `h`.
pub open spec fn all_matches<T>(h: Seq<T>, n: Seq<T>) -> Seq<int> {
    matches_between(h, n, 0, num_candidates(h, n))
}

/// The smallest match position, or `None` when there is no occurrence.
pub open spec fn find_spec<T>(h: Seq<T>, n: Seq<T>) -> Option<int> {
    if all_matches(h, n).len() == 0 {
        None
    } else {
        Some(all_matches(h, n).first())
    }
}

/// The largest match position, or `None` when there is no occurrence.
pub open spec fn rfind_spec<T>(h: Seq<T>, n: Seq<T>) -> Option<int> {
    if all_matches(h, n).len() == 0 {
        None
    } else {
        Some(all_matches(h, n).last())
    }
}

/// `n` is a prefix of `h`.
pub open spec fn starts_with_spec<T>(h: Seq<T>, n: Seq<T>) -> bool {
    match_at(h, n, 0)
}

/// `n` is a suffix of `h`.
pub open spec fn ends_with_spec<T>(h: Seq<T>, n: Seq<T>) -> bool {
    n.len() <= h.len() && match_at(h, n, h.len() - n.len())
}

/// A position in the list of matches of a window is a match inside the
/// window, and conversely.
pub proof fn lemma_matches_between_contains<T>(h: Seq<T>, n: Seq<T>, a: int, b: int, i: int)
    ensures
        matches_between(h, n, a, b).contains(i) <==> (a <= i < b && match_at(h, n, i)),
    decreases b - a,
{
    if a < b {
        lemma_matches_between_contains(h, n, a + 1, b, i);
        let rest = matches_between(h, n, a + 1, b);
        if match_at(h, n, a) {
            assert(matches_between(h, n, a, b) == seq![a] + rest);
            if a <= i < b && match_at(h, n, i) {
                if i == a {
                    assert((seq![a] + rest)[0] == i);
                } else {
                    let k = choose|k: int| 0 <= k < rest.len() && rest[k] == i;
                    assert((seq![a] + rest)[k + 1] == i);
                }
            }
            if matches_between(h, n, a, b).contains(i) {
                let k = choose|k: int|
                    0 <= k < (seq![a] + rest).len() && (seq![a] + rest)[k] == i;
                if k > 0 {
                    assert(rest[k - 1] == i);
                }
            }
        } else {
            assert(matches_between(h, n, a, b) == rest);
        }
    }
}

/// The list of matches of a window splits at any interior point.
pub proof fn lemma_matches_between_split<T>(h: Seq<T>, n: Seq<T>, a: int, m: int, b: int)
    requires
        a <= m <= b,
    ensures
        matches_between(h, n, a, b) == matches_between(h, n, a, m) + matches_between(h, n, m, b),
    decreases m - a,
{
    if a == m {
        assert(matches_between(h, n, a, m) == Seq::<int>::empty());
        assert(Seq::<int>::empty() + matches_between(h, n, m, b) =~= matches_between(h, n, m, b));
    } else {
        lemma_matches_between_split(h, n, a + 1, m, b);
        if match_at(h, n, a) {
            assert(seq![a] + (matches_between(h, n, a + 1, m) + matches_between(h, n, m, b))
                =~= (seq![a] + matches_between(h, n, a + 1, m)) + matches_between(h, n, m, b));
        }
    }
}

/// A window holds no match exactly when its list of matches is empty.
pub proof fn lemma_matches_between_empty<T>(h: Seq<T>, n: Seq<T>, a: int, b: int)
    ensures
        matches_between(h, n, a, b).len() == 0 <==> (forall|j: int|
            a <= j < b ==> !match_at(h, n, j)),
{
    let s = matches_between(h, n, a, b);
    if s.len() == 0 {
        assert forall|j: int| a <= j < b implies !match_at(h, n, j) by {
            lemma_matches_between_contains(h, n, a, b, j);
        }
    } else {
        lemma_matches_between_contains(h, n, a, b, s[0]);
        assert(s.contains(s[0]));
    }
}

/// When `i` is the first match in the window `[a, b)`, the list of matches
/// starts with `i` and continues with the matches of `[i + 1, b)`.
pub proof fn lemma_matches_between_first<T>(h: Seq<T>, n: Seq<T>, a: int, b: int, i: int)
    requires
        a <= i < b,
        match_at(h, n, i),
        forall|j: int| a <= j < i ==> !match_at(h, n, j),
    ensures
        matches_between(h, n, a, b) == seq![i] + matches_between(h, n, i + 1, b),
        matches_between(h, n, a, b).len() > 0,
        matches_between(h, n, a, b).first() == i,
        matches_between(h, n, a, b).drop_first() == matches_between(h, n, i + 1, b),
{
    lemma_matches_between_split(h, n, a, i, b);
    lemma_matches_between_empty(h, n, a, i);
    assert(matches_between(h, n, a, i).len() == 0);
    assert(matches_between(h, n, i, b) == seq![i] + matches_between(h, n, i + 1, b));
    assert(matches_between(h, n, a, b) =~= seq![i] + matches_between(h, n, i + 1, b));
    assert(matches_between(h, n, a, b).drop_first() =~= matches_between(h, n, i + 1, b));
}

/// When `i` is the last match in the window `[a, b)`, the list of matches
/// ends with `i` after the matches of `[a, i)`.
pub proof fn lemma_matches_between_last<T>(h: Seq<T>, n: Seq<T>, a: int, b: int, i: int)
    requires
        a <= i < b,
        match_at(h, n, i),
        forall|j: int| i < j < b ==> !match_at(h, n, j),
    ensures
        matches_between(h, n, a, b) == matches_between(h, n, a, i).push(i),
        matches_between(h, n, a, b).len() > 0,
        matches_between(h, n, a, b).last() == i,
        matches_between(h, n, a, b).drop_last() == matches_between(h, n, a, i),
{
    lemma_matches_between_split(h, n, a, i, b);
    lemma_matches_between_empty(h, n, i + 1, b);
    assert(matches_between(h, n, i + 1, b).len() == 0);
    assert(matches_between(h, n, i, b) == seq![i] + matches_between(h, n, i + 1, b));
    assert(matches_between(h, n, a, b) =~= matches_between(h, n, a, i).push(i));
    assert(matches_between(h, n, a, b).drop_last() =~= matches_between(h, n, a, i));
}

/// The list of matches of a window is no longer than the window itself.
pub proof fn lemma_matches_between_len<T>(h: Seq<T>, n: Seq<T>, a: int, b: int)
    ensures
        matches_between(h, n, a, b).len() <= (if a <= b {
            b - a
        } else {
            0
        }),
    decreases b - a,
{
    if a < b {
        lemma_matches_between_len(h, n, a + 1, b);
    }
}

/// The list of matches of a window is strictly ascending.
pub proof fn lemma_matches_between_sorted<T>(h: Seq<T>, n: Seq<T>, a: int, b: int)
    ensures
        forall|k1: int, k2: int|
            0 <= k1 < k2 < matches_between(h, n, a, b).len()
                ==> #[trigger] matches_between(h, n, a, b)[k1]
                    < #[trigger] matches_between(h, n, a, b)[k2],
    decreases b - a,
{
    if a < b {
        lemma_matches_between_sorted(h, n, a + 1, b);
        let rest = matches_between(h, n, a + 1, b);
        assert forall|k: int| 0 <= k < rest.len() implies a < #[trigger] rest[k] by {
            lemma_matches_between_contains(h, n, a + 1, b, rest[k]);
            assert(rest.contains(rest[k]));
        }
        if match_at(h, n, a) {
            assert(matches_between(h, n, a, b) == seq![a] + rest);
        }
    }
}

/// Every match position lies inside the candidate window `[0, num_candidates)`.
pub proof fn lemma_match_in_candidates<T>(h: Seq<T>, n: Seq<T>, i: int)
    requires
        match_at(h, n, i),
    ensures
        0 <= i < num_candidates(h, n),
{
}

/// A match position with no match before it is what `find_spec` returns.
pub proof fn lemma_first_match_characterizes<T>(h: Seq<T>, n: Seq<T>, i: int)
    requires
        match_at(h, n, i),
        forall|j: int| j < i ==> !match_at(h, n, j),
    ensures
        find_spec(h, n) == Some(i),
{
    lemma_match_in_candidates(h, n, i);
    lemma_matches_between_first(h, n, 0, num_candidates(h, n), i);
}

/// A match position with no match after it is what `rfind_spec` returns.
pub proof fn lemma_last_match_characterizes<T>(h: Seq<T>, n: Seq<T>, i: int)
    requires
        match_at(h, n, i),
        forall|j: int| j > i ==> !match_at(h, n, j),
    ensures
        rfind_spec(h, n) == Some(i),
{
    lemma_match_in_candidates(h, n, i);
    lemma_matches_between_last(h, n, 0, num_candidates(h, n), i);
}

/// Without any occurrence, both searches return `None`.
pub proof fn lemma_no_match<T>(h: Seq<T>, n: Seq<T>)
    requires
        !has_match(h, n),
    ensures
        find_spec(h, n) is None,
        rfind_spec(h, n) is None,
        all_matches(h, n).len() == 0,
{
    lemma_matches_between_empty(h, n, 0, num_candidates(h, n));
}

/// The forward search succeeds exactly when some occurrence exists;
/// brute-force existence is the ground truth for `find_spec`.
pub proof fn lemma_find_some_iff_has_match<T>(h: Seq<T>, n: Seq<T>)
    ensures
        find_spec(h, n) is Some <==> has_match(h, n),
        rfind_spec(h, n) is Some <==> has_match(h, n),
{
    let s = all_matches(h, n);
    if has_match(h, n) {
        let i = choose|i: int| match_at(h, n, i);
        lemma_match_in_candidates(h, n, i);
        lemma_matches_between_contains(h, n, 0, num_candidates(h, n), i);
        assert(s.contains(i));
    }
    if s.len() > 0 {
        lemma_matches_between_contains(h, n, 0, num_candidates(h, n), s[0]);
        assert(s.contains(s[0]));
    }
}

/// An empty needle matches at the very first position and after the whole
/// haystack: the forward search returns position zero, the backward search
/// the haystack's length, whatever the haystack holds.
pub proof fn lemma_empty_needle<T>(h: Seq<T>)
    ensures
        find_spec(h, Seq::<T>::empty()) == Some(0int),
        rfind_spec(h, Seq::<T>::empty()) == Some(h.len() as int),
{
    let n = Seq::<T>::empty();
    assert(match_at(h, n, 0));
    lemma_first_match_characterizes(h, n, 0);
    assert(match_at(h, n, h.len() as int));
    lemma_last_match_characterizes(h, n, h.len() as int);
}

/// A needle longer than the haystack occurs nowhere: both searches return
/// `None` and the match list is empty.
pub proof fn lemma_needle_longer<T>(h: Seq<T>, n: Seq<T>)
    requires
        n.len() > h.len(),
    ensures
        find_spec(h, n) is None,
        rfind_spec(h, n) is None,
        !has_match(h, n),
{
    assert forall|i: int| !match_at(h, n, i) by {};
    lemma_no_match(h, n);
}

/// An empty needle is a prefix and a suffix of every haystack; a non-empty
/// needle is neither prefix nor suffix of an empty haystack.
pub proof fn lemma_affix_edges<T>(h: Seq<T>, n: Seq<T>)
    ensures
        starts_with_spec(h, Seq::<T>::empty()),
        ends_with_spec(h, Seq::<T>::empty()),
        h.len() == 0 && n.len() > 0 ==> !starts_with_spec(h, n) && !ends_with_spec(h, n),
{
    assert(match_at(h, Seq::<T>::empty(), 0));
}

/// The list of all matches is the ground truth of the searches: it holds
/// exactly the positions where the needle occurs, in strictly ascending
/// order. Consuming it from the front yields every match ascending, from
/// the back descending, and both ends together partition it.
pub proof fn lemma_all_matches_exhaustive<T>(h: Seq<T>, n: Seq<T>)
    ensures
        forall|i: int| #[trigger] all_matches(h, n).contains(i) <==> match_at(h, n, i),
        forall|k1: int, k2: int|
            0 <= k1 < k2 < all_matches(h, n).len()
                ==> #[trigger] all_matches(h, n)[k1] < #[trigger] all_matches(h, n)[k2],
{
    let c = num_candidates(h, n);
    assert forall|i: int| #[trigger] all_matches(h, n).contains(i) <==> match_at(h, n, i) by {
        lemma_matches_between_contains(h, n, 0, c, i);
        if match_at(h, n, i) {
            lemma_match_in_candidates(h, n, i);
        }
    }
    lemma_matches_between_sorted(h, n, 0, c);
}

/// Two adjacent index-range slices concatenate to the slice over the whole
/// range.
pub proof fn lemma_substr_concat<T>(s: Seq<T>, a: int, b: int, c: int)
    requires
        0 <= a <= b <= c <= s.len(),
    ensures
        s.subrange(a, b) + s.subrange(b, c) == s.subrange(a, c),
{
    assert(s.subrange(a, b) + s.subrange(b, c) =~= s.subrange(a, c));
}

} // verus!
