//! Substring search over character sequences: the marker-based scraping
//! primitive that credential extraction is built on.

use vstd::prelude::*;

verus! {

/// The first position at or after `i` where `pat` occurs in `s`, if any.
pub open spec fn find_from(s: Seq<char>, pat: Seq<char>, i: int) -> Option<int>
    decreases s.len() + 1 - i,
{
    if i < 0 || i + pat.len() > s.len() {
        None
    } else if s.subrange(i, i + pat.len() as int) == pat {
        Some(i)
    } else {
        find_from(s, pat, i + 1)
    }
}

/// The first position where `pat` occurs in `s`, if any.
pub open spec fn spec_find(s: Seq<char>, pat: Seq<char>) -> Option<int> {
    find_from(s, pat, 0)
}

/// Whether `pat` occurs in `s`.
pub open spec fn spec_contains(s: Seq<char>, pat: Seq<char>) -> bool {
    spec_find(s, pat) is Some
}

/// What stands between the first occurrence of `start` and the next
/// occurrence of `end` after it.
pub open spec fn spec_between(s: Seq<char>, start: Seq<char>, end: Seq<char>) -> Option<
    Seq<char>,
> {
    match spec_find(s, start) {
        None => None,
        Some(i) => {
            let tail = s.skip(i + start.len());
            match spec_find(tail, end) {
                None => None,
                Some(j) => Some(tail.take(j)),
            }
        },
    }
}

/// Whether `pat` stands at position `i` of `s`.
fn match_at(s: &str, pat: &str, i: usize, n: usize, m: usize) -> (r: bool)
    requires
        n == s@.len(),
        m == pat@.len(),
        i + m <= n,
    ensures
        r == (s@.subrange(i as int, i + pat@.len() as int) == pat@),
{
    for k in 0..m
        invariant
            n == s@.len(),
            m == pat@.len(),
            i + m <= n,
            forall|t: int| 0 <= t < k ==> s@[i + t] == pat@[t],
    {
        if s.get_char(i + k) != pat.get_char(k) {
            assert(s@.subrange(i as int, i + pat@.len() as int)[k as int] != pat@[k as int]);
            return false;
        }
    }
    assert(s@.subrange(i as int, i + pat@.len() as int) =~= pat@);
    true
}

/// The first position where `pat` occurs in `s`, by forward scan.
pub fn find_str(s: &str, pat: &str) -> (r: Option<usize>)
    ensures
        match r {
            Some(i) => spec_find(s@, pat@) == Some(i as int) && i + pat@.len() <= s@.len(),
            None => spec_find(s@, pat@) is None,
        },
{
    let n = s.unicode_len();
    let m = pat.unicode_len();
    if m > n {
        return None;
    }
    if m == 0 {
        proof {
            assert(s@.subrange(0, 0) =~= pat@);
        }
        return Some(0);
    }
    let mut i: usize = 0;
    loop
        invariant
            n == s@.len(),
            m == pat@.len(),
            1 <= m <= n,
            i + m <= n + 1,
            find_from(s@, pat@, 0) == find_from(s@, pat@, i as int),
        decreases n - i,
    {
        if i > n - m {
            return None;
        }
        if match_at(s, pat, i, n, m) {
            return Some(i);
        }
        i = i + 1;
    }
}

/// Whether `pat` occurs anywhere in `s`.
pub fn contains_str(s: &str, pat: &str) -> (r: bool)
    ensures
        r == spec_contains(s@, pat@),
{
    find_str(s, pat).is_some()
}

/// Extraction of the text between two markers.
pub trait StringUtils: View<V = Seq<char>> {
    /// The text after the first occurrence of `start` and before the next
    /// occurrence of `end`, when both markers are found in that order.
    fn between<'a>(&'a self, start: &str, end: &str) -> (r: Option<&'a str>)
        ensures
            match r {
                Some(sub) => spec_between(self@, start@, end@) == Some(sub@),
                None => spec_between(self@, start@, end@) is None,
            },
    ;
}

impl StringUtils for String {
    fn between<'a>(&'a self, start: &str, end: &str) -> (r: Option<&'a str>)
        ensures
            match r {
                Some(sub) => spec_between(self@, start@, end@) == Some(sub@),
                None => spec_between(self@, start@, end@) is None,
            },
    {
        let s = self.as_str();
        let n = s.unicode_len();
        let m1 = start.unicode_len();
        match find_str(s, start) {
            None => None,
            Some(i) => {
                let from = i + m1;
                let tail = s.substring_char(from, n);
                assert(tail@ =~= self@.skip(i + start@.len()));
                match find_str(tail, end) {
                    None => None,
                    Some(j) => {
                        let sub = tail.substring_char(0, j);
                        assert(sub@ =~= self@.skip(i + start@.len()).take(j as int));
                        Some(sub)
                    },
                }
            },
        }
    }
}

} // verus!
