use dkim_attest::record::Dkim;
use dkim_attest::sender::verify_from_address;
use dkim_attest::subject::verify_pw_reset_email;
use dkim_attest::handle::get_twitter_username;

fn record(headers: &str, body: &str) -> Dkim {
    Dkim {
        public_key: String::new(),
        signature: String::new(),
        headers: headers.to_string(),
        body: body.to_string(),
        body_hash: String::new(),
        signing_domain: "x.com".to_string(),
        selector: "dkim".to_string(),
        algo: "rsa-sha256".to_string(),
        format: "plain".to_string(),
    }
}

#[test]
fn sender_zero_from_lines_rejected() {
    let d = record("received: by relay\r\nsubject:hello\r\n", "");
    assert!(!verify_from_address(&d));
}

#[test]
fn sender_single_allowed_domain_accepted() {
    let d = record("a\r\nfrom:Bob Smith <bob@x.com>\r\nto:me\r\n", "");
    assert!(verify_from_address(&d));
}

#[test]
fn sender_field_name_case_insensitive() {
    let d = record("a\r\nFrOm:Bob <bob@x.com>\r\n", "");
    assert!(verify_from_address(&d));
}

#[test]
fn sender_other_domain_rejected() {
    let d = record("a\r\nfrom:Bob <bob@y.com>\r\n", "");
    assert!(!verify_from_address(&d));
}

#[test]
fn sender_two_from_lines_rejected() {
    let d = record("a\r\nfrom:A <a@x.com>\r\nfrom:B <b@x.com>\r\n", "");
    assert!(!verify_from_address(&d));
}

#[test]
fn sender_two_from_lines_rejected_whatever_domains() {
    let d = record("a\r\nfrom:A <a@y.com>\r\nfrom:B <b@z.com>\r\n", "");
    assert!(!verify_from_address(&d));
}

#[test]
fn sender_unbracketed_address_is_no_match() {
    let d = record("a\r\nfrom:bob@x.com\r\n", "");
    assert!(!verify_from_address(&d));
}

#[test]
fn sender_bracket_pair_must_sit_on_one_line() {
    let d = record("a\r\nfrom:Bob <bob\r\n@x.com>\r\n", "");
    assert!(!verify_from_address(&d));
}

#[test]
fn subject_exact_line_accepted() {
    let d = record("a\r\nsubject:Password reset request\r\n", "");
    assert!(verify_pw_reset_email(&d));
}

#[test]
fn subject_case_change_rejected() {
    let d = record("a\r\nsubject:password reset request\r\n", "");
    assert!(!verify_pw_reset_email(&d));
}

#[test]
fn subject_added_whitespace_rejected() {
    let d = record("a\r\nsubject: Password reset request\r\n", "");
    assert!(!verify_pw_reset_email(&d));
}

#[test]
fn subject_other_text_rejected() {
    let d = record("a\r\nsubject:Your receipt\r\n", "");
    assert!(!verify_pw_reset_email(&d));
}

#[test]
fn subject_needs_crlf_anchor() {
    let d = record("subject:Password reset request\r\n", "");
    assert!(!verify_pw_reset_email(&d));
}

#[test]
fn handle_extracted_from_phrase() {
    let d = record("", "This email was meant for @alice123 extra text");
    assert_eq!(get_twitter_username(&d), "@alice123");
}

#[test]
fn handle_absent_phrase_gives_empty() {
    let d = record("", "no phrase here");
    assert_eq!(get_twitter_username(&d), "");
}

#[test]
fn handle_run_reaches_end_of_body() {
    let d = record("", "greetings\r\nThis email was meant for @bob");
    assert_eq!(get_twitter_username(&d), "@bob");
}

#[test]
fn handle_stops_at_non_word_character() {
    let d = record("", "This email was meant for @under_score7. Bye");
    assert_eq!(get_twitter_username(&d), "@under_score7");
}

#[test]
fn handle_needs_word_character_after_at() {
    let d = record("", "This email was meant for @ nobody");
    assert_eq!(get_twitter_username(&d), "");
}

#[test]
fn handle_takes_first_match() {
    let d = record(
        "",
        "This email was meant for @first and This email was meant for @second",
    );
    assert_eq!(get_twitter_username(&d), "@first");
}
