//! Verified helpers on strings: equality, prefix tests, and locating
//! characters and `/`-delimited segments.

use vstd::prelude::*;
use vstd::string::StrSliceExecFns;

verus! {

/// The index of the first occurrence of `c` in `s`, if any.
pub open spec fn find_char(s: Seq<char>, c: char) -> Option<int>
    decreases s.len(),
{
    if s.len() == 0 {
        None
    } else if s[0] == c {
        Some(0)
    } else {
        match find_char(s.drop_first(), c) {
            Some(i) => Some(i + 1),
            None => None,
        }
    }
}

/// `find_char` returns the least index holding `c`, or `None` when `c` does
/// not occur.
pub proof fn lemma_find_char(s: Seq<char>, c: char)
    ensures
        match find_char(s, c) {
            Some(i) => 0 <= i < s.len() && s[i] == c && (forall|j: int| 0 <= j < i ==> s[j] != c),
            None => forall|j: int| 0 <= j < s.len() ==> s[j] != c,
        },
    decreases s.len(),
{
    if s.len() == 0 {
    } else if s[0] == c {
    } else {
        let d = s.drop_first();
        lemma_find_char(d, c);
        assert(forall|j: int| 0 <= j < d.len() ==> d[j] == s[j + 1]);
        match find_char(d, c) {
            Some(i) => {
                assert(s[i + 1] == d[i]);
                assert forall|j: int| 0 <= j < i + 1 implies s[j] != c by {
                    if j > 0 {
                        assert(s[j] == d[j - 1]);
                    }
                }
            },
            None => {
                assert forall|j: int| 0 <= j < s.len() implies s[j] != c by {
                    if j > 0 {
                        assert(s[j] == d[j - 1]);
                    }
                }
            },
        }
    }
}

/// True when `p` is a prefix of `s`.
pub open spec fn spec_starts_with(s: Seq<char>, p: Seq<char>) -> bool {
    p.len() <= s.len() && s.subrange(0, p.len() as int) == p
}

/// Compares two string slices character by character.
#[verifier::loop_isolation(false)]
pub fn str_eq(a: &str, b: &str) -> (r: bool)
    ensures
        r == (a@ == b@),
{
    let n = a.unicode_len();
    if n != b.unicode_len() {
        return false;
    }
    let mut i: usize = 0;
    while i < n
        invariant
            0 <= i <= n,
            forall|j: int| 0 <= j < i ==> a@[j] == b@[j],
        decreases n - i,
    {
        if a.get_char(i) != b.get_char(i) {
            return false;
        }
        i += 1;
    }
    proof {
        assert(a@ =~= b@);
    }
    true
}

/// Tests whether `p` is a prefix of `s`, character by character.
#[verifier::loop_isolation(false)]
pub fn str_starts_with(s: &str, p: &str) -> (r: bool)
    ensures
        r == spec_starts_with(s@, p@),
{
    let n = s.unicode_len();
    let m = p.unicode_len();
    if m > n {
        return false;
    }
    let mut i: usize = 0;
    while i < m
        invariant
            0 <= i <= m <= n,
            forall|j: int| 0 <= j < i ==> s@[j] == p@[j],
        decreases m - i,
    {
        if s.get_char(i) != p.get_char(i) {
            proof {
                assert(s@.subrange(0, p@.len() as int)[i as int] != p@[i as int]);
            }
            return false;
        }
        i += 1;
    }
    proof {
        assert(s@.subrange(0, p@.len() as int) =~= p@);
    }
    true
}

/// The text between the first `/` of `s` and the next `/` or the end: what
/// splitting on `/` yields at index one, if the split has a second part.
pub open spec fn second_segment(s: Seq<char>) -> Option<Seq<char>> {
    match find_char(s, '/') {
        None => None,
        Some(i) => {
            let rest = s.subrange(i + 1, s.len() as int);
            match find_char(rest, '/') {
                None => Some(rest),
                Some(j) => Some(rest.subrange(0, j)),
            }
        },
    }
}

/// Extracts the second `/`-delimited segment of `s`, if there is one.
#[verifier::loop_isolation(false)]
pub fn second_segment_str<'a>(s: &'a str) -> (r: Option<&'a str>)
    ensures
        match second_segment(s@) {
            Some(seg) => r matches Some(t) && t@ == seg,
            None => r is None,
        },
{
    proof {
        lemma_find_char(s@, '/');
    }
    let n = s.unicode_len();
    let mut i: usize = 0;
    while i < n && s.get_char(i) != '/'
        invariant
            0 <= i <= n,
            forall|j: int| 0 <= j < i ==> s@[j] != '/',
        decreases n - i,
    {
        i += 1;
    }
    if i == n {
        return None;
    }
    let ghost rest = s@.subrange(i + 1, n as int);
    proof {
        assert(find_char(s@, '/') == Some(i as int));
        lemma_find_char(rest, '/');
    }
    let mut k: usize = i + 1;
    while k < n && s.get_char(k) != '/'
        invariant
            i + 1 <= k <= n,
            forall|j: int| i + 1 <= j < k ==> s@[j] != '/',
        decreases n - k,
    {
        k += 1;
    }
    proof {
        assert(forall|j: int| 0 <= j < k - (i + 1) ==> rest[j] == s@[j + i + 1] && rest[j] != '/');
    }
    if k == n {
        proof {
            assert(find_char(rest, '/') is None);
        }
        Some(s.substring_char(i + 1, n))
    } else {
        proof {
            assert(rest[k - (i + 1)] == s@[k as int]);
            assert(find_char(rest, '/') == Some(k - (i + 1)));
            assert(rest.subrange(0, k - (i + 1)) =~= s@.subrange(i + 1, k as int));
        }
        Some(s.substring_char(i + 1, k))
    }
}

} // verus!
