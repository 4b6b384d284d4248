use simple_chat_backend::json::{JsonDocument, JsonMember};
use simple_chat_backend::runtime_contract::{chat_text_from_document, parse_and_validate_chat_text, SessionPolicy};

#[test]
fn payload_validator_rejects_sender_field() {
    let result = parse_and_validate_chat_text(r#"{"sender":"alice","text":"hello"}"#);

    assert_eq!(
        result.unwrap_err(),
        "Field 'sender' is server-owned and must not be sent by clients."
    );
}

#[test]
fn session_policy_rejects_non_positive_ttl() {
    let result = SessionPolicy::from_ttl_seconds(0);

    assert_eq!(
        result.unwrap_err(),
        "SESSION_TTL_SECONDS must be greater than zero."
    );
}

#[test]
fn session_policy_rejects_negative_ttl() {
    assert!(SessionPolicy::from_ttl_seconds(-5).is_err());
}

#[test]
fn session_policy_keeps_positive_ttl() {
    let policy = SessionPolicy::from_ttl_seconds(90).unwrap();
    assert_eq!(policy.ttl_seconds(), 90);
}

#[test]
fn session_policy_defaults_when_unset() {
    let policy = SessionPolicy::from_ttl_text(None).unwrap();
    assert_eq!(policy.ttl_seconds(), 3_600);
}

#[test]
fn session_policy_reads_trimmed_text() {
    let policy = SessionPolicy::from_ttl_text(Some("  120 \n")).unwrap();
    assert_eq!(policy.ttl_seconds(), 120);
    let signed = SessionPolicy::from_ttl_text(Some("+45")).unwrap();
    assert_eq!(signed.ttl_seconds(), 45);
}

#[test]
fn session_policy_rejects_non_integer_text() {
    for raw in ["", "abc", "12x", "+", "-", "1 2", "99999999999999999999"] {
        assert_eq!(
            SessionPolicy::from_ttl_text(Some(raw)).unwrap_err(),
            "SESSION_TTL_SECONDS must be an integer.",
            "input {raw:?}"
        );
    }
}

#[test]
fn session_policy_rejects_non_positive_text() {
    assert_eq!(
        SessionPolicy::from_ttl_text(Some("-9223372036854775808")).unwrap_err(),
        "SESSION_TTL_SECONDS must be greater than zero."
    );
    assert_eq!(
        SessionPolicy::from_ttl_text(Some("0")).unwrap_err(),
        "SESSION_TTL_SECONDS must be greater than zero."
    );
}

#[test]
fn session_policy_expiry_is_ttl_after_now() {
    let policy = SessionPolicy::from_ttl_seconds(90).unwrap();
    let now = simple_chat_backend::clock::UtcTime { secs: 1_700_000_000, nanos: 5 };
    let expiry = policy.expires_at_from(now).unwrap();
    assert_eq!(expiry.secs, 1_700_000_090);
    assert_eq!(expiry.nanos, 5);
    let far = simple_chat_backend::clock::UtcTime { secs: 8_210_266_876_799, nanos: 0 };
    assert!(policy.expires_at_from(far).is_none());
    assert!(policy.expires_at().is_some());
}

#[test]
fn payload_validator_accepts_and_trims_text() {
    assert_eq!(
        parse_and_validate_chat_text(r#"{"text":"  hello there  "}"#).unwrap(),
        Some("hello there".to_string())
    );
}

#[test]
fn payload_validator_ignores_blank_text() {
    assert_eq!(parse_and_validate_chat_text(r#"{"text":"   "}"#).unwrap(), None);
}

#[test]
fn payload_validator_reports_each_error() {
    assert_eq!(
        parse_and_validate_chat_text("{not json").unwrap_err(),
        "Malformed JSON - message was not delivered."
    );
    assert_eq!(
        parse_and_validate_chat_text("[1, 2]").unwrap_err(),
        "Payload must be a JSON object."
    );
    assert_eq!(
        parse_and_validate_chat_text(r#"{"text": 5}"#).unwrap_err(),
        "Field 'text' must be a string."
    );
    assert_eq!(
        parse_and_validate_chat_text(r#"{"other": "x"}"#).unwrap_err(),
        "Field 'text' must be a string."
    );
    let long = format!(r#"{{"text":"{}"}}"#, "a".repeat(1001));
    assert_eq!(
        parse_and_validate_chat_text(&long).unwrap_err(),
        "Message text exceeds 1000 characters."
    );
    let at_limit = format!(r#"{{"text":"{}"}}"#, "é".repeat(1000));
    assert_eq!(parse_and_validate_chat_text(&at_limit).unwrap(), Some("é".repeat(1000)));
    let big = format!(r#"{{"text":"{}"}}"#, "a".repeat(4100));
    assert_eq!(
        parse_and_validate_chat_text(&big).unwrap_err(),
        "Frame exceeds maximum allowed size (4096 bytes)."
    );
}

#[test]
fn chat_text_from_parsed_document() {
    let member = |key: &str, text: Option<&str>| JsonMember { key: key.to_string(), text: text.map(str::to_string) };
    assert_eq!(chat_text_from_document(10, JsonDocument::Malformed).unwrap_err(), "Malformed JSON - message was not delivered.");
    assert_eq!(chat_text_from_document(10, JsonDocument::NotObject).unwrap_err(), "Payload must be a JSON object.");
    assert_eq!(
        chat_text_from_document(4097, JsonDocument::Object(vec![member("text", Some("hi"))])).unwrap_err(),
        "Frame exceeds maximum allowed size (4096 bytes)."
    );
    assert_eq!(
        chat_text_from_document(30, JsonDocument::Object(vec![member("text", Some(" hi "))])).unwrap(),
        Some("hi".to_string())
    );
    assert_eq!(chat_text_from_document(30, JsonDocument::Object(vec![member("text", Some("  "))])).unwrap(), None);
    assert_eq!(
        chat_text_from_document(30, JsonDocument::Object(vec![member("text", None)])).unwrap_err(),
        "Field 'text' must be a string."
    );
    assert_eq!(
        chat_text_from_document(30, JsonDocument::Object(vec![member("text", Some("hi")), member("sender", None)])).unwrap_err(),
        "Field 'sender' is server-owned and must not be sent by clients."
    );
    assert_eq!(
        chat_text_from_document(30, JsonDocument::Object(vec![member("text", Some(&"x".repeat(1001)))])).unwrap_err(),
        "Message text exceeds 1000 characters."
    );
}
