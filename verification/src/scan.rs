//! Substring search over character sequences, used to classify boot
//! command lines and to find the name marker in release-descriptor file
//! names.

use vstd::prelude::*;
use vstd::string::StrSliceExecFns;

verus! {

/// The needle occurs in the haystack at position `i`.
pub open spec fn matches_at(hay: Seq<char>, needle: Seq<char>, i: int) -> bool {
    0 <= i && i + needle.len() <= hay.len() && hay.subrange(i, i + needle.len() as int)
        == needle
}

/// The needle occurs somewhere in the haystack.
pub open spec fn contains_seq(hay: Seq<char>, needle: Seq<char>) -> bool {
    exists|i: int| matches_at(hay, needle, i)
}

/// The last position strictly below `j` at which the needle occurs, if
/// any.
pub open spec fn last_match_before(hay: Seq<char>, needle: Seq<char>, j: int) -> Option<int>
    decreases
            (if j >= 0 {
                j
            } else {
                0
            }),
{
    if j <= 0 {
        None
    } else if matches_at(hay, needle, j - 1) {
        Some(j - 1)
    } else {
        last_match_before(hay, needle, j - 1)
    }
}

/// The last position at which the needle occurs in the haystack, if any.
pub open spec fn spec_rfind(hay: Seq<char>, needle: Seq<char>) -> Option<int> {
    last_match_before(hay, needle, hay.len() - needle.len() + 1)
}

/// A result of `last_match_before` is a match position below `j` with no
/// later match below `j`.
pub proof fn lemma_last_match_before_some(hay: Seq<char>, needle: Seq<char>, j: int, i: int)
    requires
        last_match_before(hay, needle, j) == Some(i),
    ensures
        matches_at(hay, needle, i),
        i < j,
        forall|k: int| i < k < j ==> !matches_at(hay, needle, k),
    decreases
            (if j >= 0 {
                j
            } else {
                0
            }),
{
    if j <= 0 {
    } else if matches_at(hay, needle, j - 1) {
    } else {
        lemma_last_match_before_some(hay, needle, j - 1, i);
    }
}

/// When `last_match_before` finds nothing, the needle occurs at no
/// position below `j`.
pub proof fn lemma_last_match_before_none(hay: Seq<char>, needle: Seq<char>, j: int)
    requires
        last_match_before(hay, needle, j) is None,
    ensures
        forall|k: int| k < j ==> !matches_at(hay, needle, k),
    decreases
            (if j >= 0 {
                j
            } else {
                0
            }),
{
    if j <= 0 {
    } else if matches_at(hay, needle, j - 1) {
    } else {
        lemma_last_match_before_none(hay, needle, j - 1);
    }
}

/// Equality of two string slices by content.
pub fn str_eq(a: &str, b: &str) -> (r: bool)
    ensures
        r == (a@ == b@),
{
    let alen = a.unicode_len();
    let blen = b.unicode_len();
    if alen != blen {
        return false;
    }
    let mut i: usize = 0;
    while i < alen
        invariant
            alen == a@.len(),
            alen == b@.len(),
            i <= alen,
            forall|k: int| 0 <= k < i ==> a@[k] == b@[k],
        decreases alen - i,
    {
        if a.get_char(i) != b.get_char(i) {
            return false;
        }
        i += 1;
    }
    proof {
        assert(a@ =~= b@);
    }
    true
}

/// Whether the needle occurs in the haystack at position `i`.
pub fn str_contains_at(hay: &str, needle: &str, i: usize) -> (r: bool)
    requires
        i + needle@.len() <= hay@.len(),
    ensures
        r == matches_at(hay@, needle@, i as int),
{
    let hlen = hay.unicode_len();
    let nlen = needle.unicode_len();
    let mut j: usize = 0;
    while j < nlen
        invariant
            j <= nlen,
            hlen == hay@.len(),
            nlen == needle@.len(),
            i + nlen <= hlen,
            forall|k: int| 0 <= k < j ==> hay@[i + k] == needle@[k],
        decreases nlen - j,
    {
        let hc = hay.get_char(i + j);
        let nc = needle.get_char(j);
        if hc != nc {
            proof {
                let sub = hay@.subrange(i as int, i + needle@.len() as int);
                assert(sub[j as int] == hay@[i + j]);
            }
            return false;
        }
        j += 1;
    }
    proof {
        assert(hay@.subrange(i as int, i + needle@.len() as int) =~= needle@);
    }
    true
}

/// Whether the needle occurs anywhere in the haystack.
pub fn str_contains(hay: &str, needle: &str) -> (r: bool)
    ensures
        r == contains_seq(hay@, needle@),
{
    let hlen = hay.unicode_len();
    let nlen = needle.unicode_len();
    if nlen > hlen {
        return false;
    }
    if nlen == 0 {
        proof {
            assert(hay@.subrange(0, 0) =~= needle@);
            assert(matches_at(hay@, needle@, 0));
        }
        return true;
    }
    let last = hlen - nlen;
    let mut i: usize = 0;
    while i <= last
        invariant
            hlen == hay@.len(),
            nlen == needle@.len(),
            1 <= nlen <= hlen,
            last == hlen - nlen,
            i <= last + 1,
            forall|k: int| 0 <= k < i ==> !matches_at(hay@, needle@, k),
        decreases last + 1 - i,
    {
        if str_contains_at(hay, needle, i) {
            return true;
        }
        i += 1;
    }
    proof {
        assert forall|k: int| !matches_at(hay@, needle@, k) by {
            if matches_at(hay@, needle@, k) {
                assert(0 <= k && k + nlen <= hlen);
            }
        }
    }
    false
}

/// The last position at which the needle occurs in the haystack, if any.
pub fn str_rfind(hay: &str, needle: &str) -> (r: Option<usize>)
    ensures
        match r {
            Some(i) => spec_rfind(hay@, needle@) == Some(i as int),
            None => spec_rfind(hay@, needle@) is None,
        },
{
    let hlen = hay.unicode_len();
    let nlen = needle.unicode_len();
    if nlen > hlen {
        return None;
    }
    if nlen == 0 {
        proof {
            assert(hay@.subrange(hlen as int, hlen as int) =~= needle@);
            assert(matches_at(hay@, needle@, hlen as int));
        }
        return Some(hlen);
    }
    let mut j: usize = hlen - nlen + 1;
    while j > 0
        invariant
            hlen == hay@.len(),
            nlen == needle@.len(),
            1 <= nlen <= hlen,
            j <= hlen - nlen + 1,
            spec_rfind(hay@, needle@) == last_match_before(hay@, needle@, j as int),
        decreases j,
    {
        j -= 1;
        if str_contains_at(hay, needle, j) {
            return Some(j);
        }
    }
    None
}

} // verus!
