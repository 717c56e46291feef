//! The handle extractor: the first occurrence in the body of the fixed
//! phrase followed by `@` and a run of word characters yields the handle.

use vstd::prelude::*;
use vstd::string::StringSliceAdditionalSpecFns;
use vstd::utf8::*;

use crate::record::Dkim;
use crate::search::match_at;

verus! {

/// The bytes of the fixed announcement phrase, `@` included.
pub open spec fn phrase() -> Seq<u8> {
    encode_utf8("This email was meant for @"@)
}

/// ASCII word characters: digits, letters and underscore.
pub open spec fn is_word_byte(b: u8) -> bool {
    (48u8 <= b && b <= 57u8) || (65u8 <= b && b <= 90u8) || (97u8 <= b && b <= 122u8) || b
        == 95u8
}

/// Whether the phrase followed by at least one word character starts at `p`.
pub open spec fn phrase_match_at(s: Seq<u8>, p: int) -> bool {
    &&& 0 <= p
    &&& p + phrase().len() + 1 <= s.len()
    &&& s.subrange(p, p + phrase().len()) == phrase()
    &&& is_word_byte(s[p + phrase().len()])
}

/// The first position at or after `i` that holds no word character.
pub open spec fn word_run_end(s: Seq<u8>, i: int) -> int
    decreases s.len() - i,
{
    if i < 0 || i >= s.len() {
        i
    } else if is_word_byte(s[i]) {
        word_run_end(s, i + 1)
    } else {
        i
    }
}

/// The first phrase match at or after position `p`.
pub open spec fn find_phrase(s: Seq<u8>, p: int) -> Option<int>
    decreases s.len() - p,
{
    if p < 0 || p + phrase().len() + 1 > s.len() {
        None
    } else if phrase_match_at(s, p) {
        Some(p)
    } else {
        find_phrase(s, p + 1)
    }
}

/// The extracted handle: the `@` and the word characters after it in the
/// first phrase match, or empty when the body holds no match.
pub open spec fn handle_bytes(s: Seq<u8>) -> Seq<u8> {
    match find_phrase(s, 0) {
        None => Seq::empty(),
        Some(p) => s.subrange(p + phrase().len() - 1, word_run_end(s, p + phrase().len())),
    }
}

/// The phrase spans 26 ASCII bytes and ends with the byte of `@`.
pub proof fn lemma_phrase_facts()
    ensures
        phrase().len() == 26,
        phrase()[25] == 64u8,
        forall|i: int| 0 <= i < 26 ==> phrase()[i] < 128u8,
{
    reveal_strlit("This email was meant for @");
    let chars = "This email was meant for @"@;
    assert(is_ascii_chars(chars));
    is_ascii_chars_encode_utf8(chars);
    assert(phrase()[25] == chars[25] as u8);
    assert forall|i: int| 0 <= i < 26 implies phrase()[i] < 128u8 by {
        assert(phrase()[i] == chars[i] as u8);
    }
}

/// A found match really is a match, at or after the search start.
pub proof fn lemma_find_phrase_bounds(s: Seq<u8>, p: int, q: int)
    requires
        find_phrase(s, p) == Some(q),
    ensures
        p <= q,
        phrase_match_at(s, q),
    decreases s.len() - p,
{
    if !(p < 0 || p + phrase().len() + 1 > s.len()) && !phrase_match_at(s, p) {
        lemma_find_phrase_bounds(s, p + 1, q);
    }
}

/// The word run starts at `i`, stays in bounds, holds only word characters,
/// and stops right before the first non-word character.
pub proof fn lemma_word_run_end_bounds(s: Seq<u8>, i: int)
    requires
        0 <= i <= s.len(),
    ensures
        i <= word_run_end(s, i) <= s.len(),
        forall|m: int| i <= m < word_run_end(s, i) ==> is_word_byte(#[trigger] s[m]),
        word_run_end(s, i) < s.len() ==> !is_word_byte(s[word_run_end(s, i)]),
    decreases s.len() - i,
{
    if i < s.len() && is_word_byte(s[i]) {
        lemma_word_run_end_bounds(s, i + 1);
    }
}

/// When no phrase match exists anywhere, the search from any start fails.
proof fn lemma_find_phrase_none(s: Seq<u8>, p: int)
    requires
        forall|q: int| !phrase_match_at(s, q),
    ensures
        find_phrase(s, p) is None,
    decreases s.len() - p,
{
    if !(p < 0 || p + phrase().len() + 1 > s.len()) {
        lemma_find_phrase_none(s, p + 1);
    }
}

/// A body without any phrase match yields the empty handle.
pub proof fn lemma_handle_absent(s: Seq<u8>)
    requires
        forall|q: int| !phrase_match_at(s, q),
    ensures
        handle_bytes(s) == Seq::<u8>::empty(),
{
    lemma_find_phrase_none(s, 0);
}

/// A body with a phrase match yields `@` followed by one or more word
/// characters: the handle is never empty and never reaches past the run.
pub proof fn lemma_handle_shape(s: Seq<u8>, p: int)
    requires
        find_phrase(s, 0) == Some(p),
    ensures
        handle_bytes(s).len() >= 2,
        handle_bytes(s)[0] == 64u8,
        forall|i: int| 1 <= i < handle_bytes(s).len() ==> is_word_byte(#[trigger] handle_bytes(
            s,
        )[i]),
{
    lemma_phrase_facts();
    lemma_find_phrase_bounds(s, 0, p);
    lemma_word_run_end_bounds(s, p + 26);
    let e = word_run_end(s, p + 26);
    assert(word_run_end(s, p + 26) == word_run_end(s, p + 27));
    lemma_word_run_end_bounds(s, p + 27);
    assert(s.subrange(p, p + 26)[25] == s[p + 25]);
    assert(handle_bytes(s) == s.subrange(p + 25, e));
}

/// Whether a byte is an ASCII word character.
fn word_byte(b: u8) -> (r: bool)
    ensures
        r == is_word_byte(b),
{
    (48 <= b && b <= 57) || (65 <= b && b <= 90) || (97 <= b && b <= 122) || b == 95
}

/// The end of the word run that starts at `start`.
fn run_scan(s: &[u8], start: usize) -> (e: usize)
    requires
        start <= s@.len(),
    ensures
        e as int == word_run_end(s@, start as int),
        start <= e <= s@.len(),
{
    let n = s.len();
    let mut e = start;
    while e < n
        invariant
            start <= e <= n,
            n == s@.len(),
            word_run_end(s@, start as int) == word_run_end(s@, e as int),
        decreases n - e,
    {
        if !word_byte(s[e]) {
            return e;
        }
        e += 1;
    }
    e
}

/// Executable scan matching `find_phrase`, returning the match start and the
/// end of its word run.
fn phrase_scan(s: &[u8], pat: &[u8]) -> (r: Option<(usize, usize)>)
    requires
        pat@ == phrase(),
    ensures
        r matches Some(pe) ==> find_phrase(s@, 0) == Some(pe.0 as int) && pe.1 as int
            == word_run_end(s@, pe.0 as int + phrase().len()),
        r is None ==> find_phrase(s@, 0) is None,
{
    let n = s.len();
    let m = pat.len();
    if n <= m {
        return None;
    }
    let mut p: usize = 0;
    while p <= n - m - 1
        invariant
            n == s@.len(),
            m == phrase().len(),
            pat@ == phrase(),
            m < n,
            p <= n - m,
            find_phrase(s@, 0) == find_phrase(s@, p as int),
        decreases n - p,
    {
        if match_at(s, pat, p) {
            if word_byte(s[p + m]) {
                proof {
                    assert(phrase_match_at(s@, p as int));
                }
                let e = run_scan(s, p + m);
                return Some((p, e));
            }
        }
        proof {
            assert(!phrase_match_at(s@, p as int));
        }
        p += 1;
    }
    None
}

/// A byte below 128 always sits on a character boundary.
proof fn lemma_ascii_is_boundary(bytes: Seq<u8>, i: int)
    requires
        valid_utf8(bytes),
        0 <= i < bytes.len(),
        bytes[i] < 128u8,
    ensures
        is_char_boundary(bytes, i),
{
    is_char_boundary_iff_not_is_continuation_byte(bytes, i);
}

/// The position right after a byte below 128 is a character boundary.
proof fn lemma_after_ascii_is_boundary(bytes: Seq<u8>, i: int)
    requires
        valid_utf8(bytes),
        1 <= i <= bytes.len(),
        bytes[i - 1] < 128u8,
    ensures
        is_char_boundary(bytes, i),
{
    if i == bytes.len() {
        is_char_boundary_start_end_of_seq(bytes);
    } else {
        lemma_ascii_is_boundary(bytes, i - 1);
        valid_utf8_split(bytes, i - 1);
        let suffix = bytes.subrange(i - 1, bytes.len() as int);
        assert(is_leading_byte_width_1(suffix[0]));
        assert(length_of_first_scalar(suffix) == 1);
        assert(is_char_boundary(suffix, 1)) by {
            reveal_with_fuel(is_char_boundary, 2);
        }
        is_char_boundary_iff_not_is_continuation_byte(suffix, 1);
        assert(suffix[1] == bytes[i]);
        is_char_boundary_iff_not_is_continuation_byte(bytes, i);
    }
}

/// Extracts the handle announced in the record's body: the `@` and the word
/// characters after it in the first occurrence of the phrase, or the empty
/// string when the body holds no such occurrence.
pub fn get_twitter_username(dkim: &Dkim) -> (r: String)
    ensures
        encode_utf8(r@) == handle_bytes(encode_utf8(dkim.body@)),
        find_phrase(encode_utf8(dkim.body@), 0) is None ==> r@ == Seq::<char>::empty(),
{
    let body = dkim.body.as_str();
    let bytes = body.as_bytes();
    let pat = "This email was meant for @".as_bytes();
    match phrase_scan(bytes, pat) {
        None => {
            let r = String::new();
            proof {
                assert(encode_utf8(r@) =~= Seq::<u8>::empty());
            }
            r
        },
        Some((p, e)) => {
            let m = pat.len();
            proof {
                lemma_phrase_facts();
                lemma_find_phrase_bounds(bytes@, 0, p as int);
                lemma_word_run_end_bounds(bytes@, p as int + 26);
                assert(word_run_end(bytes@, p as int + 26) == word_run_end(bytes@, p as int + 27));
                lemma_word_run_end_bounds(bytes@, p as int + 27);
            }
            let start = p + m - 1;
            proof {
                encode_utf8_valid_utf8(dkim.body@);
                assert(bytes@.subrange(p as int, p as int + 26)[25] == bytes@[start as int]);
                assert(bytes@[start as int] == 64u8);
                lemma_ascii_is_boundary(bytes@, start as int);
                valid_utf8_split(bytes@, start as int);
            }
            let (_, rest) = body.split_at(start);
            proof {
                let rb = rest.spec_bytes();
                assert(rb[e - start - 1] == bytes@[e - 1]);
                assert(is_word_byte(bytes@[e - 1]));
                lemma_after_ascii_is_boundary(rb, e as int - start as int);
            }
            let (mid, _) = rest.split_at(e - start);
            let r = mid.to_owned();
            proof {
                assert(mid.spec_bytes() =~= bytes@.subrange(start as int, e as int));
                assert(encode_utf8(r@) == handle_bytes(encode_utf8(dkim.body@)));
            }
            r
        },
    }
}

} // verus!
