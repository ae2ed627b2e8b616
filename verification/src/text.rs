//! Character-level text search helpers.
//!
//! Every routine here is stated over `Seq<char>` views, so that the
//! version-token extraction and the manifest lookups can give exact
//! contracts about where a pattern sits inside a larger text.

use vstd::prelude::*;

verus! {

/// The needle occurs in `hay` starting at character position `i`.
pub open spec fn matches_at(hay: Seq<char>, needle: Seq<char>, i: int) -> bool {
    &&& 0 <= i
    &&& i + needle.len() <= hay.len()
    &&& forall|k: int| 0 <= k < needle.len() ==> hay[i + k] == #[trigger] needle[k]
}

/// The needle occurs somewhere in `hay`.
pub open spec fn contains_sub(hay: Seq<char>, needle: Seq<char>) -> bool {
    exists|i: int| matches_at(hay, needle, i)
}

/// `i` is the position of the first occurrence of the needle in `hay`.
pub open spec fn first_match_at(hay: Seq<char>, needle: Seq<char>, i: int) -> bool {
    &&& matches_at(hay, needle, i)
    &&& forall|j: int| 0 <= j < i ==> !matches_at(hay, needle, j)
}

/// Character-for-character equality of two string slices.
pub fn str_eq(a: &str, b: &str) -> (r: bool)
    ensures
        r == (a@ == b@),
{
    let alen = a.unicode_len();
    let blen = b.unicode_len();
    if alen != blen {
        assert(a@ != b@);
        return false;
    }
    let mut i: usize = 0;
    while i < alen
        invariant
            alen == a@.len(),
            alen == b@.len(),
            i <= alen,
            forall|k: int| 0 <= k < i ==> a@[k] == b@[k],
        decreases alen - i,
    {
        if a.get_char(i) != b.get_char(i) {
            assert(a@ != b@);
            return false;
        }
        i = i + 1;
    }
    assert(a@ =~= b@);
    true
}

/// Position of the first occurrence of `needle` in `hay`, if any.
pub fn find_sub(hay: &str, needle: &str) -> (r: Option<usize>)
    ensures
        match r {
            Some(i) => matches_at(hay@, needle@, i as int) && (forall|j: int|
                0 <= j < i ==> !matches_at(hay@, needle@, j)),
            None => !contains_sub(hay@, needle@),
        },
{
    let hlen = hay.unicode_len();
    let nlen = needle.unicode_len();
    if nlen > hlen {
        return None;
    }
    let mut i: usize = 0;
    while i <= hlen - nlen
        invariant
            hlen == hay@.len(),
            nlen == needle@.len(),
            nlen <= hlen,
            i <= hlen - nlen + 1,
            forall|j: int| 0 <= j < i ==> !matches_at(hay@, needle@, j),
        decreases hlen - i,
    {
        let mut k: usize = 0;
        let mut hit = true;
        while k < nlen
            invariant
                hlen == hay@.len(),
                nlen == needle@.len(),
                i + nlen <= hlen,
                k <= nlen,
                hit ==> forall|m: int| 0 <= m < k ==> hay@[i + m] == needle@[m],
                !hit ==> !matches_at(hay@, needle@, i as int),
            decreases nlen - k,
        {
            if hay.get_char(i + k) != needle.get_char(k) {
                hit = false;
                k = nlen;
            } else {
                k = k + 1;
            }
        }
        if hit {
            return Some(i);
        }
        i = i + 1;
    }
    assert(forall|j: int| 0 <= j < hlen - nlen + 1 ==> !matches_at(hay@, needle@, j));
    assert forall|j: int| !matches_at(hay@, needle@, j) by {
        if 0 <= j && j + needle@.len() <= hay@.len() {
            assert(j < hlen - nlen + 1);
        }
    }
    None
}

/// Whether the needle occurs anywhere in `hay`.
pub fn contains_str(hay: &str, needle: &str) -> (r: bool)
    ensures
        r == contains_sub(hay@, needle@),
{
    match find_sub(hay, needle) {
        Some(_) => true,
        None => false,
    }
}

} // verus!
