//! Trusted bindings to the SHA-256 digest and to RSA signature verification.

use vstd::prelude::*;

use rsa::pkcs8::DecodePublicKey;
use sha2::Digest;

verus! {

/// The SHA-256 digest of a byte sequence.
pub uninterp spec fn sha256_of(data: Seq<u8>) -> Seq<u8>;

/// Whether a character sequence is a PEM encoding of an RSA public key.
pub uninterp spec fn rsa_key_parses(pem: Seq<char>) -> bool;

/// Whether RSA verification with PKCS#1 v1.5 padding for SHA-256 accepts
/// `sig` as a signature on `digest` under the key that `pem` encodes.
pub uninterp spec fn rsa_sha256_sig_ok(pem: Seq<char>, digest: Seq<u8>, sig: Seq<u8>) -> bool;

/// Relies on `sha2::Sha256`: the digest is a function of the input bytes
/// alone and is 32 bytes long.
#[verifier::external_body]
pub(crate) fn sha256(data: &[u8]) -> (r: Vec<u8>)
    ensures
        r@ == sha256_of(data@),
        r@.len() == 32,
{
    let mut hasher = sha2::Sha256::new();
    hasher.update(data);
    hasher.finalize().to_vec()
}

/// Relies on `rsa::RsaPublicKey::from_public_key_pem`: whether a PEM text
/// decodes into an RSA public key depends on the text alone.
#[verifier::external_body]
pub(crate) fn rsa_key_check(pem: &str) -> (r: bool)
    ensures
        r == rsa_key_parses(pem@),
{
    rsa::RsaPublicKey::from_public_key_pem(pem).is_ok()
}

/// Relies on `rsa::RsaPublicKey::from_public_key_pem` and
/// `rsa::RsaPublicKey::verify` with `rsa::Pkcs1v15Sign` fixed to a 32-byte
/// digest and the DER prefix naming SHA-256: parsing succeeds on exactly the
/// same texts as above, and acceptance is a function of the key text, the
/// digest bytes and the signature bytes alone.
#[verifier::external_body]
pub(crate) fn rsa_pkcs1v15_sha256_verify(pem: &str, digest: &[u8], sig: &[u8]) -> (r: Option<
    bool,
>)
    ensures
        r is Some <==> rsa_key_parses(pem@),
        r matches Some(ok) ==> ok == rsa_sha256_sig_ok(pem@, digest@, sig@),
{
    let key = match rsa::RsaPublicKey::from_public_key_pem(pem) {
        Ok(key) => key,
        Err(_) => return None,
    };
    let padding = rsa::Pkcs1v15Sign {
        hash_len: Some(32),
        prefix: Box::new([
            0x30, 0x31, 0x30, 0x0d, 0x06, 0x09, 0x60, 0x86, 0x48, 0x01, 0x65, 0x03, 0x04, 0x02,
            0x01, 0x05, 0x00, 0x04, 0x20,
        ]),
    };
    Some(key.verify(padding, digest, sig).is_ok())
}

} // verus!
