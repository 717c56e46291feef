//! Verified DKIM-style email checking for account attestation.
//!
//! The library takes a record holding a signed header block, a signed body,
//! a detached RSA signature, the signer's public key and a claimed body
//! digest, and decides whether the record proves that a password-reset email
//! from the allowed sender domain was addressed to some account handle.
//! Every decision procedure carries a contract that pins its result down to
//! a mathematical description of the input bytes.

pub mod b64;
pub mod crypto;
pub mod handle;
pub mod pipeline;
pub mod record;
pub mod search;
pub mod sender;
pub mod subject;
