//! Comparing byte buffers with signatures.
use vstd::prelude::*;

verus! {

/// Whether the bytes `b[start..end]` are exactly `h` (a slice of another
/// length than `h` never is).
pub open spec fn slice_is(b: Seq<u8>, start: int, end: int, h: Seq<u8>) -> bool {
    &&& 0 <= start <= end <= b.len()
    &&& end - start == h.len()
    &&& b.subrange(start, end) == h
}

/// `b[start..end] == h`, for `start <= end <= b.len()`.
pub fn slice_eq(b: &[u8], start: usize, end: usize, h: &[u8]) -> (r: bool)
    requires
        start <= end <= b@.len(),
    ensures
        r == slice_is(b@, start as int, end as int, h@),
{
    if end - start != h.len() {
        return false;
    }
    let mut i: usize = 0;
    while i < h.len()
        invariant
            end - start == h@.len(),
            start <= end <= b@.len(),
            i <= h@.len(),
            forall|j: int| 0 <= j < i ==> b@[start + j] == h@[j],
        decreases h@.len() - i,
    {
        if b[start + i] != h[i] {
            assert(b@.subrange(start as int, end as int)[i as int] != h@[i as int]);
            return false;
        }
        i = i + 1;
    }
    assert(b@.subrange(start as int, end as int) =~= h@);
    true
}

/// Whether `b` begins with `h` (a `b` shorter than `h` never does).
pub fn starts_with(b: &[u8], h: &[u8]) -> (r: bool)
    ensures
        r == slice_is(b@, 0, h@.len() as int, h@),
{
    h.len() <= b.len() && slice_eq(b, 0, h.len(), h)
}

} // verus!
