//! Byte-sequence helpers shared by the origin matcher and the
//! marker-comment search: equality, prefix test, substring containment,
//! and window extraction.

use vstd::prelude::*;

verus! {

/// `p` occurs in `s` starting at position `j`.
pub open spec fn is_prefix_at(s: Seq<u8>, j: int, p: Seq<u8>) -> bool {
    0 <= j && j + p.len() <= s.len() && s.subrange(j, j + p.len() as int) == p
}

/// `needle` occurs somewhere in `hay`.
pub open spec fn contains_bytes(hay: Seq<u8>, needle: Seq<u8>) -> bool {
    exists|i: int| is_prefix_at(hay, i, needle)
}

/// Element-wise equality of two byte vectors.
pub fn bytes_eq(a: &Vec<u8>, b: &Vec<u8>) -> (r: bool)
    ensures
        r == (a@ == b@),
{
    if a.len() != b.len() {
        assert(a@ != b@) by {
            assert(a@.len() != b@.len());
        }
        return false;
    }
    let mut i: usize = 0;
    while i < a.len()
        invariant
            i <= a.len(),
            a.len() == b.len(),
            forall|k: int| 0 <= k < i ==> a@[k] == b@[k],
        decreases a.len() - i,
    {
        if a[i] != b[i] {
            return false;
        }
        i = i + 1;
    }
    proof {
        assert(a@ =~= b@);
    }
    true
}

/// Whether `p` occurs in `s` starting at `j`.
pub fn prefix_at(s: &Vec<u8>, j: usize, p: &Vec<u8>) -> (r: bool)
    ensures
        r == is_prefix_at(s@, j as int, p@),
{
    if j > s.len() || p.len() > s.len() - j {
        return false;
    }
    let mut i: usize = 0;
    while i < p.len()
        invariant
            i <= p.len(),
            j + p.len() <= s.len(),
            forall|k: int| 0 <= k < i ==> s@[j + k] == p@[k],
        decreases p.len() - i,
    {
        if s[j + i] != p[i] {
            assert(s@.subrange(j as int, j + p@.len() as int) != p@) by {
                assert(s@.subrange(j as int, j + p@.len() as int)[i as int] != p@[i as int]);
            }
            return false;
        }
        i = i + 1;
    }
    proof {
        assert(s@.subrange(j as int, j + p@.len() as int) =~= p@);
    }
    true
}

/// Whether `needle` occurs anywhere in `hay`.
pub fn contains(hay: &Vec<u8>, needle: &Vec<u8>) -> (r: bool)
    ensures
        r == contains_bytes(hay@, needle@),
{
    if needle.len() > hay.len() {
        return false;
    }
    if needle.len() == 0 {
        assert(is_prefix_at(hay@, 0, needle@)) by {
            assert(hay@.subrange(0, 0) =~= needle@);
        }
        return true;
    }
    let last: usize = hay.len() - needle.len();
    let mut i: usize = 0;
    while i <= last
        invariant
            i <= last + 1,
            last == hay.len() - needle.len(),
            0 < needle.len() <= hay.len(),
            forall|k: int| 0 <= k < i ==> !is_prefix_at(hay@, k, needle@),
        decreases hay.len() - i,
    {
        if prefix_at(hay, i, needle) {
            return true;
        }
        i = i + 1;
    }
    assert forall|k: int| is_prefix_at(hay@, k, needle@) implies false by {
        assert(k <= last);
    }
    false
}

/// A copy of a byte vector.
pub fn copy(src: &Vec<u8>) -> (r: Vec<u8>)
    ensures
        r@ == src@,
{
    let r = subvec(src, 0, src.len());
    proof {
        assert(src@.subrange(0, src@.len() as int) =~= src@);
    }
    r
}

/// A copy of `src[lo .. hi]`.
pub fn subvec(src: &Vec<u8>, lo: usize, hi: usize) -> (r: Vec<u8>)
    requires
        lo <= hi <= src@.len(),
    ensures
        r@ == src@.subrange(lo as int, hi as int),
{
    let mut r: Vec<u8> = Vec::new();
    let mut i: usize = lo;
    while i < hi
        invariant
            lo <= i <= hi <= src@.len(),
            r@ == src@.subrange(lo as int, i as int),
        decreases hi - i,
    {
        r.push(src[i]);
        proof {
            assert(r@ =~= src@.subrange(lo as int, i + 1 as int));
        }
        i = i + 1;
    }
    r
}

} // verus!
