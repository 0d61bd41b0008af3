//! Byte-sequence search and unique single-byte location.
//!
//! - [`find_bytes`]: first occurrence of a needle in a haystack.
//! - [`locate_single_byte`]: the index of the one byte that sits between a
//!   fixed prefix and a fixed suffix and holds one of several candidate values;
//!   zero or several such places are both refused, so that a patch never
//!   touches the wrong byte.

use vstd::prelude::*;

verus! {

/// `needle` occurs in `haystack` starting at index `i`.
pub open spec fn occurs_at(haystack: Seq<u8>, needle: Seq<u8>, i: int) -> bool {
    &&& 0 <= i
    &&& i + needle.len() <= haystack.len()
    &&& haystack.subrange(i, i + needle.len()) == needle
}

/// The first index at which `needle` occurs, as `find_bytes` reports it:
/// `None` for an empty needle, a needle longer than the haystack, or no occurrence.
#[verifier::opaque]
pub open spec fn spec_find(haystack: Seq<u8>, needle: Seq<u8>) -> Option<int> {
    if needle.len() == 0 || haystack.len() < needle.len() {
        None
    } else if exists|i: int| occurs_at(haystack, needle, i) {
        Some(choose|i: int| occurs_at(haystack, needle, i)
            && forall|j: int| 0 <= j < i ==> !occurs_at(haystack, needle, j))
    } else {
        None
    }
}

/// `haystack[start .. start + needle.len()] == needle`, checked byte by byte.
pub fn bytes_equal_at(haystack: &[u8], start: usize, needle: &[u8]) -> (res: bool)
    requires
        start + needle@.len() <= haystack@.len(),
    ensures
        res == (haystack@.subrange(start as int, start + needle@.len()) == needle@),
{
    let mut k: usize = 0;
    while k < needle.len()
        invariant
            start + needle@.len() <= haystack@.len(),
            haystack@.len() == haystack.len(),
            needle@.len() == needle.len(),
            k <= needle@.len(),
            forall|j: int| 0 <= j < k ==> haystack@[start + j] == needle@[j],
        decreases needle.len() - k,
    {
        if haystack[start + k] != needle[k] {
            assert(haystack@.subrange(start as int, start + needle@.len())[k as int] != needle@[k as int]);
            return false;
        }
        k = k + 1;
    }
    assert(haystack@.subrange(start as int, start + needle@.len()) =~= needle@);
    true
}

/// A fresh copy of `d[start..end]`.
pub fn copy_range(d: &[u8], start: usize, end: usize) -> (r: Vec<u8>)
    requires
        start <= end <= d@.len(),
    ensures
        r@ == d@.subrange(start as int, end as int),
{
    let mut r: Vec<u8> = Vec::new();
    let mut k = start;
    while k < end
        invariant
            start <= k <= end <= d@.len(),
            r@ =~= d@.subrange(start as int, k as int),
        decreases end - k,
    {
        r.push(d[k]);
        k = k + 1;
    }
    r
}

/// There is at most one first occurrence.
pub proof fn lemma_first_occurrence_unique(haystack: Seq<u8>, needle: Seq<u8>, i: int)
    requires
        occurs_at(haystack, needle, i),
        forall|j: int| 0 <= j < i ==> !occurs_at(haystack, needle, j),
    ensures
        exists|k: int| occurs_at(haystack, needle, k),
        (choose|k: int| occurs_at(haystack, needle, k)
            && forall|j: int| 0 <= j < k ==> !occurs_at(haystack, needle, j)) == i,
{
    let c = choose|k: int| occurs_at(haystack, needle, k)
        && forall|j: int| 0 <= j < k ==> !occurs_at(haystack, needle, j);
    if c < i {
        assert(!occurs_at(haystack, needle, c));
    } else if c > i {
        assert(!occurs_at(haystack, needle, i));
    }
}

/// A needle that occurs nowhere is not found.
pub proof fn lemma_find_none(haystack: Seq<u8>, needle: Seq<u8>)
    requires
        forall|q: int| !occurs_at(haystack, needle, q),
    ensures
        spec_find(haystack, needle) is None,
{
    reveal(spec_find);
}

/// A non-empty needle that occurs somewhere is found.
pub proof fn lemma_find_some(haystack: Seq<u8>, needle: Seq<u8>, i: int)
    requires
        needle.len() > 0,
        occurs_at(haystack, needle, i),
    ensures
        spec_find(haystack, needle) is Some,
{
    reveal(spec_find);
}

/// A first occurrence is what is found.
pub proof fn lemma_find_first(haystack: Seq<u8>, needle: Seq<u8>, i: int)
    requires
        needle.len() > 0,
        occurs_at(haystack, needle, i),
        forall|j: int| 0 <= j < i ==> !occurs_at(haystack, needle, j),
    ensures
        spec_find(haystack, needle) == Some(i),
{
    reveal(spec_find);
    lemma_first_occurrence_unique(haystack, needle, i);
}

/// The first occurrence of a non-empty needle that fits in the haystack.
fn first_occurrence(haystack: &[u8], needle: &[u8]) -> (res: Option<usize>)
    requires
        0 < needle@.len() <= haystack@.len(),
    ensures
        match res {
            Some(i) => occurs_at(haystack@, needle@, i as int)
                && forall|j: int| 0 <= j < i ==> !occurs_at(haystack@, needle@, j),
            None => forall|j: int| !occurs_at(haystack@, needle@, j),
        },
{
    let last = haystack.len() - needle.len();
    let mut i: usize = 0;
    while i <= last
        invariant
            0 < needle@.len() <= haystack@.len(),
            haystack@.len() == haystack.len(),
            last == haystack@.len() - needle@.len(),
            i <= last + 1,
            forall|j: int| 0 <= j < i ==> !#[trigger] occurs_at(haystack@, needle@, j),
        decreases last + 1 - i,
    {
        if bytes_equal_at(haystack, i, needle) {
            return Some(i);
        }
        assert(!occurs_at(haystack@, needle@, i as int));
        i = i + 1;
    }
    assert forall|j: int| !occurs_at(haystack@, needle@, j) by {
        if 0 <= j && j + needle@.len() <= haystack@.len() {
            assert(j < i);
        }
    }
    None
}

/// Finds the first position at which `needle` occurs in `haystack`.
///
/// An empty needle, or one longer than the haystack, is never found.
pub fn find_bytes(haystack: &[u8], needle: &[u8]) -> (res: Option<usize>)
    ensures
        match res {
            Some(i) => spec_find(haystack@, needle@) == Some(i as int),
            None => spec_find(haystack@, needle@) is None,
        },
        res matches Some(i) ==> occurs_at(haystack@, needle@, i as int),
{
    reveal(spec_find);
    if needle.len() == 0 || haystack.len() < needle.len() {
        return None;
    }
    let r = first_occurrence(haystack, needle);
    if let Some(i) = r {
        proof {
            lemma_first_occurrence_unique(haystack@, needle@, i as int);
        }
    }
    r
}

/// Why a single byte could not be located.
#[derive(Debug, Clone, Copy, PartialEq, Eq)]
pub enum LocateError {
    /// The buffer is shorter than prefix, value byte and suffix together.
    BufferTooSmall,
    /// No place matches the pattern.
    NotFound,
    /// More than one place matches the pattern.
    NotUnique,
}

/// The value byte at index `v` is framed by `prefix` and `suffix` and holds
/// one of `candidates`.
pub open spec fn value_site(
    haystack: Seq<u8>,
    prefix: Seq<u8>,
    suffix: Seq<u8>,
    candidates: Seq<u8>,
    v: int,
) -> bool {
    &&& prefix.len() <= v
    &&& v + 1 + suffix.len() <= haystack.len()
    &&& haystack.subrange(v - prefix.len(), v) == prefix
    &&& candidates.contains(haystack[v])
    &&& haystack.subrange(v + 1, v + 1 + suffix.len()) == suffix
}

/// No value site at all.
pub open spec fn no_value_site(
    haystack: Seq<u8>,
    prefix: Seq<u8>,
    suffix: Seq<u8>,
    candidates: Seq<u8>,
) -> bool {
    forall|v: int| !value_site(haystack, prefix, suffix, candidates, v)
}

/// `v` is a value site and no other index is.
pub open spec fn unique_value_site(
    haystack: Seq<u8>,
    prefix: Seq<u8>,
    suffix: Seq<u8>,
    candidates: Seq<u8>,
    v: int,
) -> bool {
    &&& value_site(haystack, prefix, suffix, candidates, v)
    &&& forall|w: int| value_site(haystack, prefix, suffix, candidates, w) ==> w == v
}

/// What `locate_single_byte` answers, stated over the pattern.
pub open spec fn spec_locate(
    haystack: Seq<u8>,
    prefix: Seq<u8>,
    suffix: Seq<u8>,
    candidates: Seq<u8>,
) -> Result<int, LocateError> {
    if haystack.len() < prefix.len() + 1 + suffix.len() {
        Err(LocateError::BufferTooSmall)
    } else if no_value_site(haystack, prefix, suffix, candidates) {
        Err(LocateError::NotFound)
    } else if exists|v: int| unique_value_site(haystack, prefix, suffix, candidates, v) {
        Ok(choose|v: int| unique_value_site(haystack, prefix, suffix, candidates, v))
    } else {
        Err(LocateError::NotUnique)
    }
}

/// `b` is one of `candidates`.
pub fn contains_byte(candidates: &[u8], b: u8) -> (res: bool)
    ensures
        res == candidates@.contains(b),
{
    let mut k: usize = 0;
    while k < candidates.len()
        invariant
            k <= candidates@.len(),
            forall|j: int| 0 <= j < k ==> candidates@[j] != b,
        decreases candidates.len() - k,
    {
        if candidates[k] == b {
            return true;
        }
        k = k + 1;
    }
    false
}

/// Locates the single value byte of the pattern `prefix ++ [c] ++ suffix`
/// with `c` one of `candidates`, and returns its index in `haystack`.
///
/// No match, or more than one, is an error: a patch must never guess.
pub fn locate_single_byte(
    haystack: &[u8],
    prefix: &[u8],
    suffix: &[u8],
    candidates: &[u8],
) -> (res: Result<usize, LocateError>)
    requires
        prefix@.len() + 1 + suffix@.len() <= usize::MAX,
    ensures
        match res {
            Ok(v) => spec_locate(haystack@, prefix@, suffix@, candidates@) == Ok::<int, LocateError>(v as int)
                && unique_value_site(haystack@, prefix@, suffix@, candidates@, v as int),
            Err(e) => spec_locate(haystack@, prefix@, suffix@, candidates@) == Err::<int, LocateError>(e),
        },
{
    let span = prefix.len() + 1 + suffix.len();
    if haystack.len() < span {
        return Err(LocateError::BufferTooSmall);
    }
    let ghost h = haystack@;
    let ghost p = prefix@;
    let ghost s = suffix@;
    let ghost c = candidates@;
    let mut found: Option<usize> = None;
    let mut i: usize = 0;
    let last = haystack.len() - span;
    while i <= last
        invariant
            span == p.len() + 1 + s.len(),
            span <= h.len(),
            h.len() == haystack.len(),
            p.len() == prefix.len(),
            last == h.len() - span,
            h == haystack@, p == prefix@, s == suffix@, c == candidates@,
            i <= last + 1,
            match found {
                None => forall|v: int| v < i + p.len() ==> !value_site(h, p, s, c, v),
                Some(f) => value_site(h, p, s, c, f as int) && f < i + p.len()
                    && forall|v: int| v < i + p.len() && v != f ==> !value_site(h, p, s, c, v),
            },
        decreases last + 1 - i,
    {
        let vi = i + prefix.len();
        if bytes_equal_at(haystack, i, prefix) && contains_byte(candidates, haystack[vi])
            && bytes_equal_at(haystack, vi + 1, suffix) {
            assert(value_site(h, p, s, c, vi as int));
            if let Some(f) = found {
                assert(!unique_value_site(h, p, s, c, f as int));
                assert forall|w: int| !unique_value_site(h, p, s, c, w) by {
                    if w != f as int {
                        assert(value_site(h, p, s, c, f as int));
                    }
                }
                assert(!no_value_site(h, p, s, c));
                return Err(LocateError::NotUnique);
            }
            found = Some(vi);
        } else {
            assert(!value_site(h, p, s, c, vi as int));
        }
        i = i + 1;
    }
    // Every index past the scanned range is too close to the end.
    assert forall|v: int| v >= i + p.len() implies !value_site(h, p, s, c, v) by {}
    match found {
        Some(f) => {
            assert(unique_value_site(h, p, s, c, f as int));
            assert(!no_value_site(h, p, s, c));
            let ghost ch = choose|v: int| unique_value_site(h, p, s, c, v);
            assert(unique_value_site(h, p, s, c, ch));
            Ok(f)
        },
        None => {
            assert(no_value_site(h, p, s, c));
            Err(LocateError::NotFound)
        },
    }
}

/// No byte of `pattern` is one of `candidates`.
pub open spec fn disjoint_from(pattern: Seq<u8>, candidates: Seq<u8>) -> bool {
    forall|i: int| 0 <= i < pattern.len() ==> !candidates.contains(#[trigger] pattern[i])
}

/// Rewriting one candidate byte with another candidate leaves the value sites
/// of a pattern as they were, provided the pattern's prefix and suffix hold no
/// candidate value: the rewritten byte can only ever sit in a value slot.
pub proof fn lemma_value_sites_stable(
    haystack: Seq<u8>,
    prefix: Seq<u8>,
    suffix: Seq<u8>,
    candidates: Seq<u8>,
    k: int,
    c: u8,
)
    requires
        0 <= k < haystack.len(),
        candidates.contains(haystack[k]),
        candidates.contains(c),
        disjoint_from(prefix, candidates),
        disjoint_from(suffix, candidates),
    ensures
        forall|w: int| value_site(haystack.update(k, c), prefix, suffix, candidates, w)
            == value_site(haystack, prefix, suffix, candidates, w),
        spec_locate(haystack.update(k, c), prefix, suffix, candidates)
            == spec_locate(haystack, prefix, suffix, candidates),
{
    let h2 = haystack.update(k, c);
    assert forall|w: int| value_site(h2, prefix, suffix, candidates, w)
        == value_site(haystack, prefix, suffix, candidates, w) by {
        if prefix.len() <= w && w + 1 + suffix.len() <= haystack.len() {
            if w - prefix.len() <= k < w {
                // k would sit in the prefix slot: neither buffer matches there.
                let i = k - (w - prefix.len());
                assert(haystack.subrange(w - prefix.len(), w)[i] == haystack[k]);
                assert(h2.subrange(w - prefix.len(), w)[i] == c);
                assert(!candidates.contains(prefix[i]));
            } else if w < k < w + 1 + suffix.len() {
                let i = k - (w + 1);
                assert(haystack.subrange(w + 1, w + 1 + suffix.len())[i] == haystack[k]);
                assert(h2.subrange(w + 1, w + 1 + suffix.len())[i] == c);
                assert(!candidates.contains(suffix[i]));
            } else {
                assert(h2.subrange(w - prefix.len(), w) =~= haystack.subrange(w - prefix.len(), w));
                assert(h2.subrange(w + 1, w + 1 + suffix.len()) =~= haystack.subrange(w + 1, w + 1 + suffix.len()));
            }
        }
    }
    assert(no_value_site(h2, prefix, suffix, candidates) == no_value_site(haystack, prefix, suffix, candidates));
    assert forall|v: int| unique_value_site(h2, prefix, suffix, candidates, v)
        == unique_value_site(haystack, prefix, suffix, candidates, v) by {}
}

} // verus!
