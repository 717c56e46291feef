//! The sender validator: the header block must carry exactly one
//! `from:` field with a bracketed address, and that address must end in the
//! allowed domain.
//!
//! The scan mirrors a lazy left-to-right pattern search for a CRLF, the
//! field name `from:` (letters in either case), any run of non-line-feed
//! bytes, then `<`, a non-empty run of non-line-feed bytes, and `>`.
//! Searches after the first match resume at the byte after the match's `>`,
//! so counted matches never overlap.

use vstd::prelude::*;
use vstd::utf8::*;

use crate::record::Dkim;

verus! {

/// Whether a CRLF followed by the field name `from:` (case-insensitive
/// letters, exact colon) starts at position `p`.
pub open spec fn from_prefix_at(s: Seq<u8>, p: int) -> bool {
    &&& 0 <= p
    &&& p + 7 <= s.len()
    &&& s[p] == 13u8
    &&& s[p + 1] == 10u8
    &&& (s[p + 2] == 102u8 || s[p + 2] == 70u8)
    &&& (s[p + 3] == 114u8 || s[p + 3] == 82u8)
    &&& (s[p + 4] == 111u8 || s[p + 4] == 79u8)
    &&& (s[p + 5] == 109u8 || s[p + 5] == 77u8)
    &&& s[p + 6] == 58u8
}

/// The first `>` at or after `i`, scanning only to the end of the current
/// line: a line feed or the end of the block stops the search.
pub open spec fn find_close(s: Seq<u8>, i: int) -> Option<int>
    decreases s.len() - i,
{
    if i < 0 || i >= s.len() {
        None
    } else if s[i] == 62u8 {
        Some(i)
    } else if s[i] == 10u8 {
        None
    } else {
        find_close(s, i + 1)
    }
}

/// The bracket pair a lazy scan selects when the address part is attempted
/// from position `i`: the first `<` on the current line from which a
/// non-empty, line-feed-free capture closed by `>` can be completed, together
/// with that closing position.
pub open spec fn find_open(s: Seq<u8>, i: int) -> Option<(int, int)>
    decreases s.len() - i,
{
    if i < 0 || i >= s.len() {
        None
    } else if s[i] == 10u8 {
        None
    } else if s[i] == 60u8 && i + 1 < s.len() && s[i + 1] != 10u8 && find_close(s, i + 2)
        is Some {
        Some((i, find_close(s, i + 2)->0))
    } else {
        find_open(s, i + 1)
    }
}

/// The first sender match at or after position `p`: a `from:` prefix whose
/// line completes a bracketed address. Yields the positions of `<` and `>`.
pub open spec fn find_from(s: Seq<u8>, p: int) -> Option<(int, int)>
    decreases s.len() - p,
{
    if p < 0 || p + 7 > s.len() {
        None
    } else if from_prefix_at(s, p) && find_open(s, p + 7) is Some {
        find_open(s, p + 7)
    } else {
        find_from(s, p + 1)
    }
}

/// The bytes of the allowed sender domain suffix `@x.com`.
pub open spec fn xcom_suffix() -> Seq<u8> {
    encode_utf8("@x.com"@)
}

/// Whether an address ends in the allowed sender domain.
pub open spec fn ends_with_xcom(addr: Seq<u8>) -> bool {
    addr.len() >= xcom_suffix().len() && addr.subrange(
        addr.len() - xcom_suffix().len(),
        addr.len() as int,
    ) == xcom_suffix()
}

/// The sender verdict over a header block: exactly one match in the whole
/// block, and the bracketed address of that match ends in `@x.com`.
pub open spec fn from_address_ok(s: Seq<u8>) -> bool {
    match find_from(s, 0) {
        None => false,
        Some((j, k)) => find_from(s, k + 1) is None && ends_with_xcom(s.subrange(j + 1, k)),
    }
}

/// A close position lies on the line, within bounds.
pub proof fn lemma_find_close_bounds(s: Seq<u8>, i: int)
    requires
        find_close(s, i) is Some,
    ensures
        i <= find_close(s, i)->0 < s.len(),
    decreases s.len() - i,
{
    if 0 <= i < s.len() && s[i] != 62u8 && s[i] != 10u8 {
        lemma_find_close_bounds(s, i + 1);
    }
}

/// A bracket pair delimits a non-empty capture, within bounds.
pub proof fn lemma_find_open_bounds(s: Seq<u8>, i: int, j: int, k: int)
    requires
        find_open(s, i) == Some((j, k)),
    ensures
        i <= j,
        j + 2 <= k < s.len(),
    decreases s.len() - i,
{
    if 0 <= i < s.len() && s[i] != 10u8 {
        if s[i] == 60u8 && i + 1 < s.len() && s[i + 1] != 10u8 && find_close(s, i + 2) is Some {
            lemma_find_close_bounds(s, i + 2);
        } else {
            lemma_find_open_bounds(s, i + 1, j, k);
        }
    }
}

/// A sender match delimits a non-empty capture, within bounds.
pub proof fn lemma_find_from_bounds(s: Seq<u8>, p: int, j: int, k: int)
    requires
        find_from(s, p) == Some((j, k)),
    ensures
        p <= j,
        j + 2 <= k < s.len(),
    decreases s.len() - p,
{
    if !(p < 0 || p + 7 > s.len()) {
        if from_prefix_at(s, p) && find_open(s, p + 7) is Some {
            lemma_find_open_bounds(s, p + 7, j, k);
        } else {
            lemma_find_from_bounds(s, p + 1, j, k);
        }
    }
}

/// When the `from:` prefix matches nowhere, the search from any start fails.
proof fn lemma_find_from_none(s: Seq<u8>, p: int)
    requires
        forall|q: int| !from_prefix_at(s, q),
    ensures
        find_from(s, p) is None,
    decreases s.len() - p,
{
    if !(p < 0 || p + 7 > s.len()) {
        lemma_find_from_none(s, p + 1);
    }
}

/// Zero `from:` fields fail the sender rule: a block in which no CRLF is
/// followed by the field name has no match and is rejected.
pub proof fn lemma_sender_absent(s: Seq<u8>)
    requires
        forall|q: int| !from_prefix_at(s, q),
    ensures
        !from_address_ok(s),
{
    lemma_find_from_none(s, 0);
}

/// A second match anywhere after the first fails the sender rule regardless
/// of what either address holds.
pub proof fn lemma_sender_duplicate(s: Seq<u8>, j: int, k: int)
    requires
        find_from(s, 0) == Some((j, k)),
        find_from(s, k + 1) is Some,
    ensures
        !from_address_ok(s),
{
}

/// With exactly one match, the sender verdict is the domain check on that
/// match's bracketed address: `@x.com` passes and any other suffix fails.
pub proof fn lemma_sender_single(s: Seq<u8>, j: int, k: int)
    requires
        find_from(s, 0) == Some((j, k)),
        find_from(s, k + 1) is None,
    ensures
        from_address_ok(s) == ends_with_xcom(s.subrange(j + 1, k)),
{
}

/// Executable scan matching `find_close`.
fn close_scan(s: &[u8], i: usize) -> (r: Option<usize>)
    ensures
        r matches Some(k) ==> find_close(s@, i as int) == Some(k as int),
        r is None ==> find_close(s@, i as int) is None,
{
    let n = s.len();
    let mut j = i;
    while j < n
        invariant
            i <= j,
            n == s@.len(),
            find_close(s@, i as int) == find_close(s@, j as int),
        decreases n - j,
    {
        if s[j] == 62u8 {
            return Some(j);
        }
        if s[j] == 10u8 {
            return None;
        }
        j += 1;
    }
    None
}

/// Executable scan matching `find_open`.
fn open_scan(s: &[u8], i: usize) -> (r: Option<(usize, usize)>)
    ensures
        r matches Some(jk) ==> find_open(s@, i as int) == Some((jk.0 as int, jk.1 as int)),
        r is None ==> find_open(s@, i as int) is None,
{
    let n = s.len();
    let mut j = i;
    while j < n
        invariant
            i <= j,
            n == s@.len(),
            find_open(s@, i as int) == find_open(s@, j as int),
        decreases n - j,
    {
        if s[j] == 10u8 {
            return None;
        }
        if s[j] == 60u8 && j + 1 < n && s[j + 1] != 10u8 {
            match close_scan(s, j + 2) {
                Some(k) => {
                    return Some((j, k));
                },
                None => {},
            }
        }
        j += 1;
    }
    None
}

/// Executable scan matching `find_from`.
fn from_scan(s: &[u8], p: usize) -> (r: Option<(usize, usize)>)
    ensures
        r matches Some(jk) ==> find_from(s@, p as int) == Some((jk.0 as int, jk.1 as int)),
        r is None ==> find_from(s@, p as int) is None,
{
    let n = s.len();
    if n < 7 {
        return None;
    }
    let mut q = p;
    while q <= n - 7
        invariant
            p <= q,
            7 <= n == s@.len(),
            find_from(s@, p as int) == find_from(s@, q as int),
        decreases n - q,
    {
        let prefix = s[q] == 13u8 && s[q + 1] == 10u8 && (s[q + 2] == 102u8 || s[q + 2] == 70u8)
            && (s[q + 3] == 114u8 || s[q + 3] == 82u8) && (s[q + 4] == 111u8 || s[q + 4] == 79u8)
            && (s[q + 5] == 109u8 || s[q + 5] == 77u8) && s[q + 6] == 58u8;
        if prefix {
            match open_scan(s, q + 7) {
                Some(jk) => {
                    return Some(jk);
                },
                None => {},
            }
        }
        q += 1;
    }
    None
}

/// Whether the bytes `s[lo..hi]` end with the allowed domain suffix.
fn suffix_check(s: &[u8], lo: usize, hi: usize) -> (r: bool)
    requires
        lo <= hi <= s@.len(),
    ensures
        r == ends_with_xcom(s@.subrange(lo as int, hi as int)),
{
    let suffix = "@x.com".as_bytes();
    let m = suffix.len();
    if hi - lo < m {
        return false;
    }
    let mut t: usize = 0;
    let base = hi - m;
    while t < m
        invariant
            t <= m,
            lo <= base,
            base + m == hi <= s@.len(),
            m == xcom_suffix().len(),
            suffix@ == xcom_suffix(),
            forall|u: int| 0 <= u < t ==> s@[base + u] == xcom_suffix()[u],
        decreases m - t,
    {
        if s[base + t] != suffix[t] {
            proof {
                let cap = s@.subrange(lo as int, hi as int);
                assert(cap.subrange(cap.len() - m, cap.len() as int)[t as int] == s@[base + t]);
            }
            return false;
        }
        t += 1;
    }
    proof {
        let cap = s@.subrange(lo as int, hi as int);
        assert(cap.subrange(cap.len() - m, cap.len() as int) =~= xcom_suffix());
    }
    true
}

/// Decides the sender rule on the record's header block: true exactly when
/// the block carries exactly one `from:` field with a bracketed address and
/// that address ends in `@x.com`. Zero matches, a second match anywhere
/// after the first, or any other domain all yield false.
pub fn verify_from_address(dkim: &Dkim) -> (r: bool)
    ensures
        r == from_address_ok(encode_utf8(dkim.headers@)),
{
    let headers = dkim.headers.as_str().as_bytes();
    let n = headers.len();
    match from_scan(headers, 0) {
        None => false,
        Some((j, k)) => {
            proof {
                lemma_find_from_bounds(headers@, 0, j as int, k as int);
                assert(k < n);
            }
            match from_scan(headers, k + 1) {
                Some(_) => false,
                None => suffix_check(headers, j + 1, k),
            }
        },
    }
}

} // verus!
