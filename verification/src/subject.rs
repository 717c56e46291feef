//! The subject validator: the header block must carry the exact
//! password-reset subject line.

use vstd::prelude::*;
use vstd::utf8::*;

use crate::record::Dkim;
use crate::search::contains_seq;
use crate::search::seq_contains;

verus! {

/// The bytes of the required subject field, anchored to a preceding CRLF.
/// The comparison is case-sensitive and tolerates no extra whitespace.
pub open spec fn subject_pattern() -> Seq<u8> {
    encode_utf8("\r\nsubject:Password reset request"@)
}

/// Whether a header block carries the required subject field.
pub open spec fn contains_subject(s: Seq<u8>) -> bool {
    seq_contains(s, subject_pattern())
}

/// Decides whether the record's header block marks a password-reset email:
/// true exactly when the block carries, right after a CRLF, the literal
/// subject field `subject:Password reset request`.
pub fn verify_pw_reset_email(dkim: &Dkim) -> (r: bool)
    ensures
        r == contains_subject(encode_utf8(dkim.headers@)),
{
    let headers = dkim.headers.as_str().as_bytes();
    let pattern = "\r\nsubject:Password reset request".as_bytes();
    contains_seq(headers, pattern)
}

} // verus!
