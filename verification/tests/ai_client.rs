use gameassistant::ai_client::{
    parse_gemini_api_keys, retryable_status, sanitize_transport_error, strip_thought_artifacts,
    validate_gemini_api_key, GeminiKeyError,
};

#[test]
fn transport_errors_redact_query_api_keys() {
    let error = "error sending request for url (https://example.test/path?key=secret-key&alt=1)";
    let sanitized = sanitize_transport_error(error);
    assert!(!sanitized.contains("secret-key"));
    assert!(sanitized.contains("key=[REDACTED]"));
}

#[test]
fn transport_errors_without_query_keys_are_unchanged() {
    let error = "connection reset by peer";
    assert_eq!(sanitize_transport_error(error), error);
}

#[test]
fn a_sanitized_error_stays_as_it_is() {
    for error in ["url?key=abc&key=)x", "?key=", "a?key=b&key=c\n?key=[REDACTED]d"] {
        let once = sanitize_transport_error(error);
        assert_eq!(sanitize_transport_error(&once), once);
    }
    assert_eq!(sanitize_transport_error("?key="), "?key=[REDACTED]");
    assert_eq!(sanitize_transport_error("?key=abc&alt=1"), "?key=[REDACTED]&alt=1");
}

#[test]
fn gemini_key_preflight_distinguishes_missing_and_invalid_configuration() {
    assert_eq!(
        validate_gemini_api_key(" \t\n"),
        Err(GeminiKeyError::Missing)
    );
    assert_eq!(
        validate_gemini_api_key("test key"),
        Err(GeminiKeyError::Invalid)
    );
    assert_eq!(
        validate_gemini_api_key("\"unterminated"),
        Err(GeminiKeyError::Invalid)
    );
    assert!(validate_gemini_api_key("\"test-key\"").is_ok());
}

#[test]
fn keys_are_split_trimmed_and_unquoted() {
    assert_eq!(
        parse_gemini_api_keys(" abc , 'def',\"ghi\" "),
        Ok(vec![
            "abc".to_string(),
            "def".to_string(),
            "ghi".to_string()
        ])
    );
    assert_eq!(parse_gemini_api_keys(" , ,"), Err(GeminiKeyError::Missing));
    assert_eq!(parse_gemini_api_keys("a,,b"), Err(GeminiKeyError::Invalid));
    assert_eq!(parse_gemini_api_keys("'a\""), Err(GeminiKeyError::Invalid));
    assert_eq!(parse_gemini_api_keys("'"), Err(GeminiKeyError::Invalid));
    assert_eq!(parse_gemini_api_keys("''"), Err(GeminiKeyError::Invalid));
    assert_eq!(parse_gemini_api_keys("NULL"), Err(GeminiKeyError::Invalid));
    assert_eq!(
        parse_gemini_api_keys("Undefined"),
        Err(GeminiKeyError::Invalid)
    );
    assert_eq!(parse_gemini_api_keys("a\u{7}b"), Err(GeminiKeyError::Invalid));
    assert_eq!(parse_gemini_api_keys("a\"b"), Err(GeminiKeyError::Invalid));
    assert_eq!(GeminiKeyError::Missing.code(), "api_key_missing");
    assert_eq!(GeminiKeyError::Invalid.code(), "api_key_invalid");
}

#[test]
fn transient_statuses_are_retried() {
    for status in [408, 425, 429, 500, 502, 503, 504] {
        assert!(retryable_status(status));
    }
    for status in [200, 400, 401, 403, 404, 501, 505] {
        assert!(!retryable_status(status));
    }
}

#[test]
fn every_key_parameter_is_redacted() {
    assert_eq!(
        sanitize_transport_error("a?key=x&key=y z?key=\"w\""),
        "a?key=[REDACTED]&key=[REDACTED] z?key=[REDACTED]\"w\""
    );
    assert_eq!(sanitize_transport_error("u&key=tail"), "u&key=[REDACTED]");
    assert_eq!(sanitize_transport_error("&key=(a)b"), "&key=[REDACTED])b");
}

#[test]
fn thoughts_are_removed_from_answers() {
    assert_eq!(strip_thought_artifacts("  plain "), "plain");
    assert_eq!(
        strip_thought_artifacts("a<thought>x</thought>b<thought>y"),
        "ab"
    );
    assert_eq!(strip_thought_artifacts("a*thought*x*thought*b"), "ab");
    assert_eq!(strip_thought_artifacts("a*thought*x"), "a");
    assert_eq!(strip_thought_artifacts("a```thought x``` b"), "a b");
    assert_eq!(strip_thought_artifacts("a```thought x"), "a");
    assert_eq!(
        strip_thought_artifacts("<tho<thought>x</thought>ught>y</thought>z"),
        "z"
    );
}
