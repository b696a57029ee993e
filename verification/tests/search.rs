use osstrext::bytes;
use osstrext::engine::{ends_with, find, rfind, starts_with, substr};
use osstrext::matcher::{MemchrMatcher, NaiveMatcher};

fn v(s: &[u8]) -> Vec<u8> {
    s.to_vec()
}

#[test]
fn test_starts_with() {
    assert!(starts_with(&v(b"abc"), &v(b"abc")));
    assert!(starts_with(&v(b"abc"), &v(b"ab")));
    assert!(starts_with(&v(b"abc"), &v(b"")));

    assert!(!starts_with(&v(b"abc"), &v(b"abcd")));
    assert!(!starts_with(&v(b"abc"), &v(b"bc")));

    assert!(!starts_with(&v(b""), &v(b"abc")));
    assert!(!starts_with(&v(b""), &v(b"ab")));
    assert!(starts_with(&v(b""), &v(b"")));
}

#[test]
fn test_ends_with() {
    assert!(ends_with(&v(b"abc"), &v(b"abc")));
    assert!(ends_with(&v(b"abc"), &v(b"bc")));
    assert!(ends_with(&v(b"abc"), &v(b"")));

    assert!(!ends_with(&v(b"abc"), &v(b"abcd")));
    assert!(!ends_with(&v(b"abc"), &v(b"ab")));

    assert!(!ends_with(&v(b""), &v(b"abc")));
    assert!(!ends_with(&v(b""), &v(b"ab")));
    assert!(ends_with(&v(b""), &v(b"")));
}

#[test]
fn test_find() {
    assert_eq!(bytes::find(&v(b"abcabc"), &v(b"abc")), Some(0));
    assert_eq!(bytes::find(&v(b"abcabc"), &v(b"ab")), Some(0));
    assert_eq!(bytes::find(&v(b"abc"), &v(b"bc")), Some(1));
    assert_eq!(bytes::find(&v(b"abcabc"), &v(b"c")), Some(2));

    assert_eq!(bytes::find(&v(b"abc"), &v(b"abcd")), None);
    assert_eq!(bytes::find(&v(b"abc"), &v(b"abcde")), None);
    assert_eq!(bytes::find(&v(b"abc"), &v(b"abcdefghi")), None);
    assert_eq!(bytes::find(&v(b"abc"), &v(b"d")), None);

    assert_eq!(bytes::find(&v(b"abc"), &v(b"")), Some(0));
    assert_eq!(bytes::find(&v(b""), &v(b"")), Some(0));
    assert_eq!(bytes::find(&v(b""), &v(b"a")), None);
    assert_eq!(bytes::find(&v(b""), &v(b"ab")), None);
    assert_eq!(bytes::find(&v(b""), &v(b"abc")), None);

    assert_eq!(bytes::find(&v(b"abcdefghijklabce"), &v(b"abcd")), Some(0));
    assert_eq!(bytes::find(&v(b"abcdefghijklabce"), &v(b"abc")), Some(0));
    assert_eq!(bytes::find(&v(b"abcdefghijklabce"), &v(b"abce")), Some(12));
    assert_eq!(bytes::find(&v(b"abcdefghijklabce"), &v(b"abcf")), None);
}

#[test]
fn test_rfind() {
    assert_eq!(bytes::rfind(&v(b"abcabc"), &v(b"abc")), Some(3));
    assert_eq!(bytes::rfind(&v(b"abcabc"), &v(b"ab")), Some(3));
    assert_eq!(bytes::rfind(&v(b"abc"), &v(b"bc")), Some(1));
    assert_eq!(bytes::rfind(&v(b"abcabc"), &v(b"c")), Some(5));

    assert_eq!(bytes::rfind(&v(b"abc"), &v(b"abcd")), None);
    assert_eq!(bytes::rfind(&v(b"abc"), &v(b"abcde")), None);
    assert_eq!(bytes::rfind(&v(b"abc"), &v(b"abcdefghi")), None);
    assert_eq!(bytes::rfind(&v(b"abc"), &v(b"d")), None);

    assert_eq!(bytes::rfind(&v(b"abc"), &v(b"")), Some(3));
    assert_eq!(bytes::rfind(&v(b""), &v(b"")), Some(0));
    assert_eq!(bytes::rfind(&v(b""), &v(b"a")), None);
    assert_eq!(bytes::rfind(&v(b""), &v(b"ab")), None);
    assert_eq!(bytes::rfind(&v(b""), &v(b"abc")), None);

    assert_eq!(bytes::rfind(&v(b"abcdefghijklabce"), &v(b"abcd")), Some(0));
    assert_eq!(bytes::rfind(&v(b"abcdefghijklabce"), &v(b"abc")), Some(12));
    assert_eq!(bytes::rfind(&v(b"abcdefghijklabce"), &v(b"abce")), Some(12));
    assert_eq!(bytes::find(&v(b"abcdefghijklabce"), &v(b"abcf")), None);
}

#[test]
fn test_substr() {
    assert_eq!(substr(&v(b"abc"), 0, 3).unwrap(), v(b"abc"));
    assert_eq!(substr(&v(b"abc"), 0, 2).unwrap(), v(b"ab"));
    assert_eq!(substr(&v(b"abc"), 1, 2).unwrap(), v(b"b"));
    assert_eq!(substr(&v(b"abc"), 1, 3).unwrap(), v(b"bc"));

    assert_eq!(substr(&v(b"abc"), 0, 0).unwrap(), v(b""));
    assert_eq!(substr(&v(b"abc"), 3, 3).unwrap(), v(b""));
}

#[test]
fn test_substr_out_of_range() {
    assert!(substr(&v(b"abc"), 2, 1).is_err());
    assert!(substr(&v(b"abc"), 0, 4).is_err());
    assert!(substr(&v(b"abc"), 4, 4).is_err());
    assert!(substr(&v(b""), 0, 1).is_err());
}

#[test]
fn test_substr_concat() {
    // Two adjacent slices concatenate to the slice over the whole range.
    let s = v(b"abcdefgh");
    for a in 0..=s.len() {
        for b in a..=s.len() {
            for c in b..=s.len() {
                let mut left = substr(&s, a, b).unwrap();
                let right = substr(&s, b, c).unwrap();
                left.extend_from_slice(&right);
                assert_eq!(left, substr(&s, a, c).unwrap());
            }
        }
    }
}

/// The smallest match position, by a scan with no cleverness at all.
fn brute_find(h: &[u8], n: &[u8]) -> Option<usize> {
    if n.len() > h.len() {
        return None;
    }
    (0..=(h.len() - n.len())).find(|&i| &h[i..i + n.len()] == n)
}

/// The largest match position, by the same scan backwards.
fn brute_rfind(h: &[u8], n: &[u8]) -> Option<usize> {
    if n.len() > h.len() {
        return None;
    }
    (0..=(h.len() - n.len())).rev().find(|&i| &h[i..i + n.len()] == n)
}

#[test]
fn test_matchers_agree_with_brute_force() {
    // Every matcher must return what the brute-force scan returns, on every
    // input: the linear scan, the memchr-prefilter scan and the two-way
    // search are compared here over a mix of haystacks and needles.
    let haystacks: &[&[u8]] = &[
        b"", b"a", b"aa", b"ab", b"abcabc", b"abccbaabc", b"aaaaaaa", b"abcbabcdabc",
        b"abcdefghijklabce", b"xyxyxyxyx", b"aabaabaaab",
    ];
    let needles: &[&[u8]] = &[
        b"", b"a", b"b", b"z", b"ab", b"ba", b"abc", b"aab", b"xyx", b"abcd", b"aaaa",
        b"abccbaabcd",
    ];
    for h in haystacks {
        for n in needles {
            let hv = v(h);
            let nv = v(n);
            let expected = brute_find(h, n);
            assert_eq!(find::<u8, NaiveMatcher>(&hv, &nv), expected);
            assert_eq!(find::<u8, MemchrMatcher>(&hv, &nv), expected);
            assert_eq!(bytes::find(&hv, &nv), expected);
            let rexpected = brute_rfind(h, n);
            assert_eq!(rfind::<u8, NaiveMatcher>(&hv, &nv), rexpected);
            assert_eq!(rfind::<u8, MemchrMatcher>(&hv, &nv), rexpected);
            assert_eq!(bytes::rfind(&hv, &nv), rexpected);
        }
    }
}

#[test]
fn test_needle_longer_than_haystack() {
    assert_eq!(find::<u8, NaiveMatcher>(&v(b"ab"), &v(b"abc")), None);
    assert_eq!(rfind::<u8, NaiveMatcher>(&v(b"ab"), &v(b"abc")), None);
    assert_eq!(find::<u8, MemchrMatcher>(&v(b""), &v(b"a")), None);
    assert_eq!(rfind::<u8, MemchrMatcher>(&v(b""), &v(b"a")), None);
}

#[test]
fn test_wide_units() {
    // The 16-bit adapter: values above the byte range must compare whole.
    let h: Vec<u16> = vec![0x0101, 0x0102, 0x0201, 0x0102, 0x0101];
    let n: Vec<u16> = vec![0x0102];
    assert_eq!(find::<u16, NaiveMatcher>(&h, &n), Some(1));
    assert_eq!(rfind::<u16, NaiveMatcher>(&h, &n), Some(3));
    let wrong: Vec<u16> = vec![0x0201, 0x0102];
    assert_eq!(find::<u16, NaiveMatcher>(&h, &wrong), Some(2));
    assert!(starts_with(&h, &vec![0x0101u16, 0x0102]));
    assert!(!starts_with(&h, &vec![0x0102u16]));
    assert!(ends_with(&h, &vec![0x0102u16, 0x0101]));
    assert!(!ends_with(&h, &vec![0x0201u16]));
    assert_eq!(substr(&h, 1, 3).unwrap(), vec![0x0102u16, 0x0201]);
    assert_eq!(find::<u16, NaiveMatcher>(&h, &vec![]), Some(0));
    assert_eq!(rfind::<u16, NaiveMatcher>(&h, &vec![]), Some(5));
}
