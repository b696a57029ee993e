//! The lazy bidirectional occurrence iterator: both ends of iteration
//! consume one shared window `[left, right)` of candidate start positions,
//! so interleaved forward and backward advances emit every match exactly
//! once, in order, and keep reporting exhaustion once it is reached.

use core::marker::PhantomData;

use vstd::prelude::*;

use crate::matcher::Matcher;
use crate::model::{
    all_matches, lemma_matches_between_empty, lemma_matches_between_first,
    lemma_matches_between_last, lemma_matches_between_len, match_at, matches_between,
    num_candidates,
};
use crate::unit::CodeUnit;

verus! {

/// An iterator over all positions where a needle occurs in a haystack,
/// consumable from the front, from the back, or from both ends in turn.
/// Once either end reports exhaustion, every later advance does too.
pub struct OsStrFindIter<T, M> {
    haystack: Vec<T>,
    needle: Vec<T>,
    left: usize,
    right: usize,
    matcher: PhantomData<M>,
}

impl<T: CodeUnit, M: Matcher<T>> OsStrFindIter<T, M> {
    /// The haystack being searched.
    pub closed spec fn haystack_view(self) -> Seq<T> {
        self.haystack@
    }

    /// The needle being searched for.
    pub closed spec fn needle_view(self) -> Seq<T> {
        self.needle@
    }

    /// The cursor stays inside the candidate window and leaves room for the
    /// terminal state `left == right + 1`.
    pub closed spec fn wf(self) -> bool {
        &&& self.right <= num_candidates(self.haystack@, self.needle@)
        &&& self.haystack@.len() < usize::MAX
    }

    /// The ascending list of match positions not yet emitted: the matches in
    /// the still-unexplored window `[left, right)`.
    pub closed spec fn remaining(self) -> Seq<int> {
        matches_between(self.haystack@, self.needle@, self.left as int, self.right as int)
    }

    /// Build the iterator. Every match position of `needle` in `haystack` is
    /// still to be emitted; a needle longer than the haystack leaves nothing.
    pub fn new(haystack: Vec<T>, needle: Vec<T>) -> (r: Self)
        requires
            haystack@.len() < usize::MAX,
        ensures
            r.wf(),
            r.haystack_view() == haystack@,
            r.needle_view() == needle@,
            r.remaining() == all_matches(haystack@, needle@),
    {
        let (left, right) = if needle.len() <= haystack.len() {
            (0usize, haystack.len() - needle.len() + 1)
        } else {
            (1usize, 0usize)
        };
        Self { haystack, needle, left, right, matcher: PhantomData }
    }

    /// Emit the smallest not-yet-emitted match position, or `None` exactly
    /// when none is left; after a `None` the iterator stays exhausted.
    pub fn next(&mut self) -> (r: Option<usize>)
        requires
            old(self).wf(),
        ensures
            final(self).wf(),
            final(self).haystack_view() == old(self).haystack_view(),
            final(self).needle_view() == old(self).needle_view(),
            r is None <==> old(self).remaining().len() == 0,
            r is None ==> final(self).remaining().len() == 0,
            r matches Some(i) ==> i as int == old(self).remaining().first()
                && final(self).remaining() == old(self).remaining().drop_first(),
    {
        let ghost h = self.haystack@;
        let ghost n = self.needle@;
        if self.left >= self.right {
            return None;
        }
        if self.needle.len() == 0 {
            let index = self.left;
            self.left = self.left + 1;
            proof {
                assert(match_at(h, n, index as int));
                lemma_matches_between_first(h, n, index as int, self.right as int, index as int);
            }
            return Some(index);
        }
        let r = M::first_in(&self.haystack, &self.needle, self.left, self.right);
        match r {
            Some(i) => {
                proof {
                    lemma_matches_between_first(h, n, self.left as int, self.right as int, i as int);
                }
                self.left = i + 1;
                Some(i)
            },
            None => {
                proof {
                    assert(matches_between(h, n, self.left as int, self.right as int)
                        =~= Seq::<int>::empty()) by {
                        lemma_matches_between_empty(
                            h, n, self.left as int, self.right as int);
                    }
                }
                self.left = self.right + 1;
                None
            },
        }
    }

    /// Emit the largest not-yet-emitted match position, or `None` exactly
    /// when none is left; after a `None` the iterator stays exhausted.
    pub fn next_back(&mut self) -> (r: Option<usize>)
        requires
            old(self).wf(),
        ensures
            final(self).wf(),
            final(self).haystack_view() == old(self).haystack_view(),
            final(self).needle_view() == old(self).needle_view(),
            r is None <==> old(self).remaining().len() == 0,
            r is None ==> final(self).remaining().len() == 0,
            r matches Some(i) ==> i as int == old(self).remaining().last()
                && final(self).remaining() == old(self).remaining().drop_last(),
    {
        let ghost h = self.haystack@;
        let ghost n = self.needle@;
        if self.left >= self.right {
            return None;
        }
        if self.needle.len() == 0 {
            let index = self.right - 1;
            self.right = index;
            proof {
                assert(match_at(h, n, index as int));
                lemma_matches_between_last(h, n, self.left as int, index + 1, index as int);
            }
            return Some(index);
        }
        let r = M::last_in(&self.haystack, &self.needle, self.left, self.right);
        match r {
            Some(i) => {
                proof {
                    lemma_matches_between_last(h, n, self.left as int, self.right as int, i as int);
                }
                self.right = i;
                Some(i)
            },
            None => {
                proof {
                    assert(matches_between(h, n, self.left as int, self.right as int)
                        =~= Seq::<int>::empty()) by {
                        lemma_matches_between_empty(
                            h, n, self.left as int, self.right as int);
                    }
                }
                self.left = self.right + 1;
                None
            },
        }
    }

    /// No lower bound is promised; the upper bound is the width of the
    /// unexplored window, which the count of matches left never exceeds.
    pub fn size_hint(&self) -> (r: (usize, Option<usize>))
        ensures
            r.0 == 0,
            r.1 matches Some(ub) ==> self.remaining().len() <= ub as int,
    {
        let ub = if self.right >= self.left {
            self.right - self.left
        } else {
            0
        };
        proof {
            lemma_matches_between_len(
                self.haystack@, self.needle@, self.left as int, self.right as int);
        }
        (0, Some(ub))
    }
}

/// Search for every occurrence of `needle` in `haystack`, to be consumed
/// through the matcher `M` from either end of the iterator.
pub fn find_all<T: CodeUnit, M: Matcher<T>>(haystack: &Vec<T>, needle: &Vec<T>) -> (r: OsStrFindIter<T, M>)
    requires
        haystack@.len() < usize::MAX,
    ensures
        r.wf(),
        r.haystack_view() == haystack@,
        r.needle_view() == needle@,
        r.remaining() == all_matches(haystack@, needle@),
{
    let h = vstd::slice::slice_to_vec(haystack.as_slice());
    let n = vstd::slice::slice_to_vec(needle.as_slice());
    OsStrFindIter::new(h, n)
}

} // verus!
