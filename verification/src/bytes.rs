//! Accelerated whole-haystack search for the byte encoding, delegating to a
//! two-way string matcher. Its results are pinned to the same model as the
//! generic engine, so the accelerated and the reference search cannot be
//! told apart by any caller.

use vstd::prelude::*;

use crate::model::{
    find_spec, has_match, lemma_find_some_iff_has_match, lemma_first_match_characterizes,
    lemma_last_match_characterizes, lemma_no_match, match_at, rfind_spec,
};

verus! {

/// Relies on twoway::find_bytes: the returned index is the start of the
/// first occurrence of the needle, an empty needle matches at zero, and
/// `None` means there is no occurrence.
#[verifier::external_body]
fn twoway_first(h: &Vec<u8>, n: &Vec<u8>) -> (r: Option<usize>)
    ensures
        match r {
            Some(i) => match_at(h@, n@, i as int) && forall|j: int|
                j < i ==> !match_at(h@, n@, j),
            None => forall|j: int| !match_at(h@, n@, j),
        },
{
    twoway::find_bytes(h, n)
}

/// Relies on twoway::rfind_bytes: the returned index is the start of the
/// last occurrence of the needle, an empty needle matches after the whole
/// haystack, and `None` means there is no occurrence.
#[verifier::external_body]
fn twoway_last(h: &Vec<u8>, n: &Vec<u8>) -> (r: Option<usize>)
    ensures
        match r {
            Some(i) => match_at(h@, n@, i as int) && forall|j: int|
                j > i ==> !match_at(h@, n@, j),
            None => forall|j: int| !match_at(h@, n@, j),
        },
{
    twoway::rfind_bytes(h, n)
}

/// The smallest position where `n` occurs in `h`, found by the two-way
/// matcher: the same result the reference engine returns on every input.
pub fn find(h: &Vec<u8>, n: &Vec<u8>) -> (r: Option<usize>)
    ensures
        r matches Some(i) ==> find_spec(h@, n@) == Some(i as int),
        r is None ==> find_spec(h@, n@) is None,
        r is Some <==> has_match(h@, n@),
{
    let r = twoway_first(h, n);
    proof {
        lemma_find_some_iff_has_match(h@, n@);
        match r {
            Some(i) => {
                lemma_first_match_characterizes(h@, n@, i as int);
            },
            None => {
                lemma_no_match(h@, n@);
            },
        }
    }
    r
}

/// The largest position where `n` occurs in `h`, found by the two-way
/// matcher: the same result the reference engine returns on every input.
pub fn rfind(h: &Vec<u8>, n: &Vec<u8>) -> (r: Option<usize>)
    ensures
        r matches Some(i) ==> rfind_spec(h@, n@) == Some(i as int),
        r is None ==> rfind_spec(h@, n@) is None,
        r is Some <==> has_match(h@, n@),
{
    let r = twoway_last(h, n);
    proof {
        lemma_find_some_iff_has_match(h@, n@);
        match r {
            Some(i) => {
                lemma_last_match_characterizes(h@, n@, i as int);
            },
            None => {
                lemma_no_match(h@, n@);
            },
        }
    }
    r
}

} // verus!
