//! The orchestrator: the digest check, the signature check, and the run that
//! combines every verdict into the committed outputs.

use vstd::prelude::*;
use vstd::utf8::*;

use crate::b64::base64_decode;
use crate::b64::base64_encode;
use crate::b64::base64_of;
use crate::b64::is_base64;
use crate::b64::lemma_base64_of_injective;
use crate::crypto::rsa_key_check;
use crate::crypto::rsa_key_parses;
use crate::crypto::rsa_pkcs1v15_sha256_verify;
use crate::crypto::rsa_sha256_sig_ok;
use crate::crypto::sha256;
use crate::crypto::sha256_of;
use crate::handle::get_twitter_username;
use crate::handle::handle_bytes;
use crate::record::Dkim;
use crate::record::VerificationResult;
use crate::record::VerifyError;
use crate::sender::from_address_ok;
use crate::sender::verify_from_address;
use crate::subject::contains_subject;
use crate::subject::verify_pw_reset_email;

verus! {

/// The digest check holds when the claimed body digest equals the base64
/// encoding of the SHA-256 digest of the body bytes, character for character.
pub open spec fn body_ok(d: Dkim) -> bool {
    d.body_hash@ == base64_of(sha256_of(encode_utf8(d.body@)))
}

/// The signature bytes that the record's base64 signature text denotes.
/// Meaningful whenever the text is canonical base64: the encoding is
/// injective, so at most one byte sequence qualifies.
pub open spec fn sig_bytes_of(d: Dkim) -> Seq<u8> {
    choose|b: Seq<u8>| base64_of(b) == d.signature@
}

/// The signature check holds when RSA verification with PKCS#1 v1.5 padding
/// for SHA-256 accepts the decoded signature bytes on the header digest
/// under the record's key.
pub open spec fn sig_ok(d: Dkim) -> bool {
    rsa_sha256_sig_ok(d.public_key@, sha256_of(encode_utf8(d.headers@)), sig_bytes_of(d))
}

/// The structural fault of a record, if any, in the order faults abort a
/// run: an unparsable key first, then an undecodable signature text.
pub open spec fn fatal_fault(d: Dkim) -> Option<VerifyError> {
    if !rsa_key_parses(d.public_key@) {
        Some(VerifyError::MalformedKey)
    } else if !is_base64(d.signature@) {
        Some(VerifyError::MalformedSignature)
    } else {
        None
    }
}

/// Decides the digest check: true exactly when the claimed digest is the
/// base64-encoded SHA-256 digest of the body, with no normalization.
pub fn verify_body(dkim: &Dkim) -> (r: bool)
    ensures
        r == body_ok(*dkim),
{
    let digest = sha256(dkim.body.as_str().as_bytes());
    let encoded = base64_encode(digest.as_slice());
    encoded == dkim.body_hash
}

/// Decides the signature check: aborts on a key text that is not PEM or a
/// signature text that is not canonical base64, and otherwise reports the
/// outcome of RSA verification of the header digest.
pub fn verify_signature(dkim: &Dkim) -> (r: Result<bool, VerifyError>)
    ensures
        r is Err <==> fatal_fault(*dkim) is Some,
        r matches Err(e) ==> fatal_fault(*dkim) == Some(e),
        r matches Ok(ok) ==> ok == sig_ok(*dkim),
{
    let digest = sha256(dkim.headers.as_str().as_bytes());
    if !rsa_key_check(dkim.public_key.as_str()) {
        return Err(VerifyError::MalformedKey);
    }
    let sig = match base64_decode(dkim.signature.as_str()) {
        Some(v) => v,
        None => {
            return Err(VerifyError::MalformedSignature);
        },
    };
    match rsa_pkcs1v15_sha256_verify(dkim.public_key.as_str(), digest.as_slice(), sig.as_slice()) {
        Some(ok) => {
            proof {
                let c = sig_bytes_of(*dkim);
                assert(base64_of(c) == dkim.signature@);
                lemma_base64_of_injective(c, sig@);
            }
            Ok(ok)
        },
        None => {
            proof {
                assert(false);
            }
            Err(VerifyError::MalformedKey)
        },
    }
}

/// Everything `run` promises of its result. The predicate determines each
/// committed output from the record and the identifier alone.
pub open spec fn run_ensures(
    d: Dkim,
    external_identifier: Seq<char>,
    r: Result<VerificationResult, VerifyError>,
) -> bool {
    match r {
        Ok(res) => {
            &&& fatal_fault(d) is None
            &&& encode_utf8(res.handle@) == handle_bytes(encode_utf8(d.body@))
            &&& res.external_identifier@ == external_identifier
            &&& res.verified == (body_ok(d) && sig_ok(d) && from_address_ok(
                encode_utf8(d.headers@),
            ) && contains_subject(encode_utf8(d.headers@)) && handle_bytes(
                encode_utf8(d.body@),
            ).len() > 0)
        },
        Err(e) => fatal_fault(d) == Some(e),
    }
}

/// Runs every check on the record and commits the three outputs: the
/// extracted handle (committed even when the verdict is false), the caller's
/// identifier untouched, and the verdict, which holds exactly when the
/// digest, signature, sender and subject checks all pass and the handle is
/// non-empty. A malformed key or signature encoding aborts the run instead
/// of producing a misleading verdict.
pub fn run(dkim: &Dkim, external_identifier: String) -> (r: Result<
    VerificationResult,
    VerifyError,
>)
    ensures
        run_ensures(*dkim, external_identifier@, r),
{
    let body_verified = verify_body(dkim);
    let signature_verified = match verify_signature(dkim) {
        Ok(ok) => ok,
        Err(e) => {
            return Err(e);
        },
    };
    let from_address_verified = verify_from_address(dkim);
    let is_pw_reset_email = verify_pw_reset_email(dkim);
    let twitter_username = get_twitter_username(dkim);
    let twitter_proved = body_verified && signature_verified && from_address_verified
        && is_pw_reset_email && twitter_username.as_str().as_bytes().len() > 0;
    Ok(
        VerificationResult {
            handle: twitter_username,
            external_identifier: external_identifier,
            verified: twitter_proved,
        },
    )
}

/// Determinism: any two results that `run`'s contract admits for the same
/// record and identifier carry identical committed outputs.
pub proof fn lemma_run_deterministic(
    d: Dkim,
    id: Seq<char>,
    r1: Result<VerificationResult, VerifyError>,
    r2: Result<VerificationResult, VerifyError>,
)
    requires
        run_ensures(d, id, r1),
        run_ensures(d, id, r2),
    ensures
        r1 is Ok <==> r2 is Ok,
        r1 matches Err(e1) ==> r2 matches Err(e2) && e1 == e2,
        r1 matches Ok(a) ==> r2 matches Ok(b) && a.handle@ == b.handle@
            && a.external_identifier@ == b.external_identifier@ && a.verified == b.verified,
{
    match (r1, r2) {
        (Ok(a), Ok(b)) => {
            encode_utf8_decode_utf8(a.handle@);
            encode_utf8_decode_utf8(b.handle@);
            assert(a.handle@ == b.handle@);
        },
        _ => {},
    }
}

/// A record whose claimed digest is the correctly computed, correctly
/// encoded digest of its body passes the digest check.
pub proof fn lemma_digest_roundtrip(d: Dkim)
    requires
        d.body_hash@ == base64_of(sha256_of(encode_utf8(d.body@))),
    ensures
        body_ok(d),
{
}

} // verus!
