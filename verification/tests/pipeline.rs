use base64::Engine;
use rand::SeedableRng;
use rsa::pkcs8::EncodePublicKey;
use rsa::pkcs8::LineEnding;
use sha2::Digest;

use dkim_attest::pipeline::run;
use dkim_attest::pipeline::verify_body;
use dkim_attest::pipeline::verify_signature;
use dkim_attest::record::Dkim;
use dkim_attest::record::VerifyError;

const SHA256_DER_PREFIX: [u8; 19] = [
    0x30, 0x31, 0x30, 0x0d, 0x06, 0x09, 0x60, 0x86, 0x48, 0x01, 0x65, 0x03, 0x04, 0x02, 0x01,
    0x05, 0x00, 0x04, 0x20,
];

fn b64(data: &[u8]) -> String {
    base64::engine::general_purpose::STANDARD.encode(data)
}

fn sha256(data: &[u8]) -> Vec<u8> {
    let mut hasher = sha2::Sha256::new();
    hasher.update(data);
    hasher.finalize().to_vec()
}

fn keypair(seed: u64) -> (rsa::RsaPrivateKey, String) {
    let mut rng = rand::rngs::StdRng::seed_from_u64(seed);
    let private = rsa::RsaPrivateKey::new(&mut rng, 1024).expect("key generation");
    let pem = private
        .to_public_key()
        .to_public_key_pem(LineEnding::LF)
        .expect("pem encoding");
    (private, pem)
}

fn sign_headers(private: &rsa::RsaPrivateKey, headers: &str) -> String {
    let padding = rsa::Pkcs1v15Sign {
        hash_len: Some(32),
        prefix: Box::new(SHA256_DER_PREFIX),
    };
    let signature = private
        .sign(padding, &sha256(headers.as_bytes()))
        .expect("signing");
    b64(&signature)
}

fn record(public_key: String, signature: String, headers: &str, body: &str) -> Dkim {
    Dkim {
        public_key,
        signature,
        headers: headers.to_string(),
        body: body.to_string(),
        body_hash: b64(&sha256(body.as_bytes())),
        signing_domain: "x.com".to_string(),
        selector: "dkim".to_string(),
        algo: "rsa-sha256".to_string(),
        format: "plain".to_string(),
    }
}

#[test]
fn digest_roundtrip_accepts_correct_hash() {
    let d = record(String::new(), String::new(), "h", "hello world");
    assert!(verify_body(&d));
}

#[test]
fn digest_known_value_for_empty_body() {
    let mut d = record(String::new(), String::new(), "h", "");
    d.body_hash = "47DEQpj8HBSa+/TImW+5JCeuQeRkm5NMpJWZG3hSuFU=".to_string();
    assert!(verify_body(&d));
}

#[test]
fn digest_rejects_flipped_body_character() {
    let mut d = record(String::new(), String::new(), "h", "hello world");
    d.body = "hello worlx".to_string();
    assert!(!verify_body(&d));
}

#[test]
fn digest_rejects_trimmed_hash() {
    let mut d = record(String::new(), String::new(), "h", "payload");
    d.body_hash.push(' ');
    assert!(!verify_body(&d));
}

#[test]
fn signature_valid_key_and_headers_accepted() {
    let (private, pem) = keypair(7);
    let headers = "a\r\nfrom:U <user@x.com>\r\nsubject:Password reset request\r\n";
    let signature = sign_headers(&private, headers);
    let d = record(pem, signature, headers, "body");
    assert_eq!(verify_signature(&d), Ok(true));
}

#[test]
fn signature_rejected_after_header_mutation() {
    let (private, pem) = keypair(8);
    let headers = "a\r\nfrom:U <user@x.com>\r\nsubject:Password reset request\r\n";
    let signature = sign_headers(&private, headers);
    let tampered = headers.replace("user", "User");
    let d = record(pem, signature, &tampered, "body");
    assert_eq!(verify_signature(&d), Ok(false));
}

#[test]
fn signature_rejected_under_other_key() {
    let (private, _) = keypair(9);
    let (_, other_pem) = keypair(10);
    let headers = "a\r\nfrom:U <user@x.com>\r\n";
    let signature = sign_headers(&private, headers);
    let d = record(other_pem, signature, headers, "body");
    assert_eq!(verify_signature(&d), Ok(false));
}

#[test]
fn signature_malformed_key_aborts() {
    let d = record(
        "not a pem".to_string(),
        b64(b"whatever"),
        "headers",
        "body",
    );
    assert_eq!(verify_signature(&d), Err(VerifyError::MalformedKey));
}

#[test]
fn signature_malformed_base64_aborts() {
    let (_, pem) = keypair(11);
    let d = record(pem, "%%%not-base64%%%".to_string(), "headers", "body");
    assert_eq!(verify_signature(&d), Err(VerifyError::MalformedSignature));
}

#[test]
fn signature_non_canonical_base64_aborts() {
    let (_, pem) = keypair(12);
    let d = record(pem, "QQ".to_string(), "headers", "body");
    assert_eq!(verify_signature(&d), Err(VerifyError::MalformedSignature));
}

#[test]
fn end_to_end_valid_record_verifies() {
    let (private, pem) = keypair(13);
    let headers = "received:relay\r\nfrom:User <user@x.com>\r\nsubject:Password reset request\r\n";
    let signature = sign_headers(&private, headers);
    let body = "Hello,\r\nThis email was meant for @bob and nobody else.\r\n";
    let d = record(pem, signature, headers, body);
    let result = run(&d, "0xabc".to_string()).expect("no fatal fault");
    assert_eq!(result.handle, "@bob");
    assert_eq!(result.external_identifier, "0xabc");
    assert!(result.verified);
}

#[test]
fn end_to_end_wrong_subject_fails_but_commits_handle() {
    let (private, pem) = keypair(14);
    let headers = "received:relay\r\nfrom:User <user@x.com>\r\nsubject:Your invoice\r\n";
    let signature = sign_headers(&private, headers);
    let body = "Hello,\r\nThis email was meant for @bob and nobody else.\r\n";
    let d = record(pem, signature, headers, body);
    let result = run(&d, "0xabc".to_string()).expect("no fatal fault");
    assert_eq!(result.handle, "@bob");
    assert_eq!(result.external_identifier, "0xabc");
    assert!(!result.verified);
}

#[test]
fn repeated_runs_commit_identical_outputs() {
    let (private, pem) = keypair(15);
    let headers = "received:relay\r\nfrom:User <user@x.com>\r\nsubject:Password reset request\r\n";
    let signature = sign_headers(&private, headers);
    let body = "Hi,\r\nThis email was meant for @carol_9 thanks.\r\n";
    let d = record(pem, signature, headers, body);
    let first = run(&d, "id-1".to_string()).expect("no fatal fault");
    let second = run(&d, "id-1".to_string()).expect("no fatal fault");
    assert_eq!(first.handle, second.handle);
    assert_eq!(first.external_identifier, second.external_identifier);
    assert_eq!(first.verified, second.verified);
}
