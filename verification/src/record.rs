//! The input record, the committed output, and the fatal input faults.

use vstd::prelude::*;

verus! {

/// One verification run's input: the signed material of a DKIM-style email
/// together with the signer's key material and claimed body digest.
///
/// `headers` and `body` carry the exact character sequences that were signed,
/// with CRLF line separators; no normalization is applied to them here.
/// `signing_domain`, `selector`, `algo` and `format` are descriptive metadata
/// that no check reads.
pub struct Dkim {
    /// PEM text of the signer's RSA public key.
    pub public_key: String,
    /// Base64 text of the detached signature over a digest of `headers`.
    pub signature: String,
    /// The signed header block, exactly as signed.
    pub headers: String,
    /// The signed message body, exactly as signed.
    pub body: String,
    /// Base64 text of the digest the signer claims for `body`.
    pub body_hash: String,
    /// Domain the signer claims to sign for.
    pub signing_domain: String,
    /// Selector under which the key was published.
    pub selector: String,
    /// Name of the signature algorithm.
    pub algo: String,
    /// Name of the record's wire format.
    pub format: String,
}

/// The three committed outputs of a completed run.
pub struct VerificationResult {
    /// The extracted handle, or the empty string when the body holds none.
    pub handle: String,
    /// The caller's identifier, passed through untouched.
    pub external_identifier: String,
    /// Whether every check passed and a handle was found.
    pub verified: bool,
}

/// Structurally broken inputs on which no verdict can be produced.
#[derive(PartialEq, Eq, Structural, Debug, Clone, Copy)]
pub enum VerifyError {
    /// The public key text is not a PEM encoding of an RSA public key.
    MalformedKey,
    /// The signature text is not canonical base64.
    MalformedSignature,
}

} // verus!
