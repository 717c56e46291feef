//! Verified exact substring search over byte sequences.

use vstd::prelude::*;

verus! {

/// Whether `pat` occurs as a contiguous run somewhere inside `h`.
pub open spec fn seq_contains(h: Seq<u8>, pat: Seq<u8>) -> bool {
    exists|i: int| 0 <= i && i + pat.len() <= h.len() && #[trigger] h.subrange(i, i + pat.len())
        == pat
}

/// Whether `h` carries `pat` starting at position `i`.
pub(crate) fn match_at(h: &[u8], pat: &[u8], i: usize) -> (r: bool)
    requires
        i + pat@.len() <= h@.len(),
    ensures
        r == (h@.subrange(i as int, i as int + pat@.len()) == pat@),
{
    let n = h.len();
    let m = pat.len();
    let mut t: usize = 0;
    while t < m
        invariant
            t <= m,
            n == h@.len(),
            m == pat@.len(),
            i + m <= n,
            forall|u: int| 0 <= u < t ==> h@[i + u] == pat@[u],
        decreases m - t,
    {
        if h[i + t] != pat[t] {
            proof {
                assert(h@.subrange(i as int, i as int + m as int)[t as int] == h@[i + t]);
            }
            return false;
        }
        t += 1;
    }
    proof {
        assert(h@.subrange(i as int, i as int + m as int) =~= pat@);
    }
    true
}

/// Scan `h` left to right for the first occurrence of `pat`.
pub(crate) fn contains_seq(h: &[u8], pat: &[u8]) -> (r: bool)
    ensures
        r == seq_contains(h@, pat@),
{
    let n = h.len();
    let m = pat.len();
    if m > n {
        return false;
    }
    if m == 0 {
        proof {
            let w: int = 0;
            assert(h@.subrange(w, w + pat@.len()) =~= pat@);
            assert(seq_contains(h@, pat@));
        }
        return true;
    }
    let mut i: usize = 0;
    while i <= n - m
        invariant
            1 <= m <= n,
            n == h@.len(),
            m == pat@.len(),
            i <= n - m + 1,
            forall|q: int| 0 <= q < i ==> #[trigger] h@.subrange(q, q + m) != pat@,
        decreases n - m + 1 - i,
    {
        if match_at(h, pat, i) {
            return true;
        }
        i += 1;
    }
    false
}

} // verus!
