use gameassistant::json::{array, member, object, parse_json, string_value, Json};
use gameassistant::local_summary::{
    admitted_summary_content, classify_summary_error, is_contract_violation, is_summary_candidate,
    is_transient_summary_error, parse_model_decision, parse_summary_response,
    parse_summary_response_for_document, retry_summary_inference, RetryStep,
    MAX_SUMMARY_INPUT_CHARS,
};
use gameassistant::summary_failure::SummaryFailureReason;
use gameassistant::summary_server::{
    bounded_summary_input, inspect_finish_reason, is_expected_health_response,
    parse_http_response_json, parse_model_response, rotate_summary_log,
    rotate_summary_log_with_limit, summary_gpu_layers, summary_request_body,
    summary_system_prompt, summary_thread_count, GPU_LAYERS_ALL, LOG_ROTATE_BYTES,
};
use gameassistant::summary_service::{LocalSummaryService, QueueAnswer, SUMMARY_QUEUE_CAPACITY};

fn summary_reply(summary: &str) -> String {
    let mut value = serde_json::Map::new();
    value.insert("should_store".to_string(), serde_json::Value::Bool(true));
    value.insert(
        "summary".to_string(),
        serde_json::Value::String(summary.to_string()),
    );
    serde_json::Value::Object(value).to_string()
}

fn choices(choice: Vec<(&str, Json)>) -> Json {
    let mut members = Vec::new();
    for (key, value) in choice {
        members.push(member(key, value));
    }
    object(vec![member("choices", array(vec![object(members)]))])
}

fn message(content: &str) -> Json {
    object(vec![member("content", string_value(content))])
}

#[test]
fn only_human_memory_events_are_summary_candidates() {
    assert!(is_summary_candidate("user_speech"));
    assert!(is_summary_candidate("discord_speech"));
    assert!(is_summary_candidate("twitch_chat"));
    assert!(!is_summary_candidate("ai_response"));
    assert!(!is_summary_candidate("auto_commentary"));
    assert!(!is_summary_candidate("system"));
}

#[test]
fn valid_json_summary_is_normalized() {
    let result = parse_summary_response(
        r#"{"should_store":true,"summary":"  ユーザーは猫を2匹飼っている。 "}"#,
    )
    .expect("valid response");
    assert!(result.should_store);
    assert_eq!(
        result.summary.as_deref(),
        Some("ユーザーは猫を2匹飼っている。")
    );
}

#[test]
fn invalid_or_oversized_summary_is_rejected() {
    assert!(parse_summary_response(r#"{"should_store":true,"summary":""}"#).is_err());
    let long = "あ".repeat(241);
    assert!(parse_summary_response(&summary_reply(&long)).is_err());
    assert!(parse_summary_response("not json").is_err());
}

#[test]
fn prompt_v2_requires_an_exact_two_key_object() {
    assert!(parse_summary_response(
        r#"{"should_store":true,"summary":"ユーザーは猫が好きです。","extra":"nope"}"#
    )
    .is_err());
    assert!(parse_summary_response(
        r#"```json\n{"should_store":true,"summary":"ユーザーは猫が好きです。"}\n```"#
    )
    .is_err());
    assert!(
        parse_summary_response(r#"{"should_store":false,"summary":"保存しない理由"}"#).is_err()
    );
}

#[test]
fn model_decline_with_an_explanation_is_treated_as_a_safe_skip() {
    let result = parse_model_decision(
        r#"{"should_store":false,"summary":"一時的な実況なので保存しない"}"#,
        "一時的な実況です。",
        &vec!["user_speech".to_string(), "microphone".to_string()],
    )
    .expect("a false decision must not become a row failure");
    assert!(!result.should_store);
    assert!(result.summary.is_none());
}

#[test]
fn prompt_v2_rejects_metadata_echoes() {
    for echo in [
        "twitch_chat",
        "user_speech",
        "source: twitch",
        "timestamp: 2026-09-06T12:34:56Z",
        "event_type: twitch_chat",
        "field label: source",
        "event type: twitch_chat",
        "id: event-123",
    ] {
        let error = parse_summary_response(&summary_reply(echo))
            .expect_err("metadata-only model output must be rejected");
        assert_eq!(
            classify_summary_error(&error),
            SummaryFailureReason::MetadataEcho
        );
        assert!(
            error.contains("metadata_echo"),
            "unexpected reason: {error}"
        );
    }
    for echo in [
        "ai_response",
        "auto_commentary",
        "human",
        "microphone",
        "discord",
        "twitch",
        "manual",
        "system",
    ] {
        let error = parse_summary_response(&summary_reply(echo))
            .expect_err("all fixed metadata values must be rejected");
        assert!(
            error.contains("metadata_echo"),
            "unexpected reason: {error}"
        );
    }
}

#[test]
fn prompt_v2_system_contract_uses_a_content_only_block() {
    let prompt = summary_system_prompt();
    assert!(prompt.contains("<event_content>"));
    assert!(prompt.contains("event_type"));
    assert!(prompt.contains("twitch_chat"));
}

#[test]
fn japanese_twitch_content_is_the_only_user_message_material() {
    let body = summary_request_body("ユーザーは猫を2匹飼っている。", false)
        .expect("short content fits the prompt budget");
    let user_message = body
        .get("messages")
        .and_then(|messages| messages.at(1))
        .and_then(|message| message.get("content"))
        .and_then(|content| content.as_text())
        .expect("user content is text");
    assert_eq!(
        user_message,
        "<event_content>\nユーザーは猫を2匹飼っている。\n</event_content>"
    );
    for metadata in [
        "twitch_chat",
        "user_speech",
        "source",
        "timestamp",
        "preview",
    ] {
        assert!(
            !user_message.contains(metadata),
            "metadata leaked: {metadata}"
        );
    }
    let format = body.get("response_format").expect("response format");
    assert_eq!(
        format.text_member("type").map(|kind| kind.as_str()),
        Some("json_schema")
    );
    assert_eq!(
        format
            .get("json_schema")
            .and_then(|schema| schema.get("schema"))
            .and_then(|schema| schema.bool_member("additionalProperties")),
        Some(false)
    );
}

#[test]
fn ungrounded_summary_is_rejected_without_echoing_source_text_in_error() {
    let source = "ユーザーは猫を2匹飼っている。秘密の本文";
    let error = parse_summary_response_for_document(
        r#"{"should_store":true,"summary":"ユーザーは犬を1匹飼っている。"}"#,
        source,
    )
    .expect_err("model must not invent an unrelated fact");
    assert_eq!(
        classify_summary_error(&error),
        SummaryFailureReason::UngroundedSummary
    );
    assert!(error.contains("ungrounded_summary"));
    assert!(!error.contains(source));
}

#[test]
fn ungrounded_replacement_is_rejected_even_when_particles_are_shared() {
    let error = parse_summary_response_for_document(
        r#"{"should_store":true,"summary":"今日は犬が好きです。"}"#,
        "今日は猫が好きです。",
    )
    .expect_err("a replacement fact must not pass on shared particles alone");
    assert!(error.contains("ungrounded_summary"));
}

#[test]
fn source_too_long_is_rejected_before_a_request_is_built() {
    let source = "あ".repeat(MAX_SUMMARY_INPUT_CHARS + 1);
    let error = summary_request_body(&source, false).expect_err("source is too long");
    assert!(error.contains("source_too_long"));
    assert!(!error.contains(&source));
}

#[test]
fn empty_source_uses_a_stable_machine_reason() {
    let error = admitted_summary_content("user_speech", "   ", &Some("   ".to_string()))
        .expect_err("empty source must never enter inference");
    assert!(
        error.starts_with("empty_source:"),
        "unexpected reason: {error}"
    );
    let error = summary_request_body("", false).expect_err("empty prompt is invalid");
    assert_eq!(
        classify_summary_error(&error),
        SummaryFailureReason::EmptySource
    );
}

#[test]
fn queue_overflow_uses_a_stable_machine_reason() {
    let mut service = LocalSummaryService::new();
    for _ in 0..SUMMARY_QUEUE_CAPACITY {
        service
            .enqueue_summary(QueueAnswer::Taken)
            .expect("queue accepts requests up to capacity");
    }
    let error = service
        .enqueue_summary(QueueAnswer::Full)
        .expect_err("queue overflow must fail immediately");
    assert!(
        error.starts_with("summary_queue_failed:"),
        "unexpected reason: {error}"
    );
}

#[test]
fn contract_violations_are_retryable_without_being_runtime_failures() {
    assert!(is_transient_summary_error(
        "contract violation: metadata_echo"
    ));
    assert!(is_contract_violation(
        "contract violation: invalid_model_output"
    ));
    assert!(!is_contract_violation("summary request failed: timeout"));
}

#[test]
fn required_failure_taxonomy_maps_to_typed_reason_codes() {
    let cases = [
        (
            "contract violation: invalid_model_output (response_json_required)",
            SummaryFailureReason::InvalidModelOutput,
        ),
        (
            "contract violation: metadata_echo (metadata_only_summary)",
            SummaryFailureReason::MetadataEcho,
        ),
        (
            "contract violation: ungrounded_summary (summary_not_grounded_in_source)",
            SummaryFailureReason::UngroundedSummary,
        ),
        (
            "empty_source: content is empty after redaction-safe admission",
            SummaryFailureReason::EmptySource,
        ),
        (
            "source_too_long: summary input exceeds 1200 characters",
            SummaryFailureReason::SourceTooLong,
        ),
        (
            "summary_runtime_timeout: summary_request_timeout",
            SummaryFailureReason::SummaryRuntimeTimeout,
        ),
        (
            "summary_runtime_failed: summary_request_failed",
            SummaryFailureReason::SummaryRuntimeFailed,
        ),
        (
            "summary_queue_failed: queue_full",
            SummaryFailureReason::SummaryQueueFailed,
        ),
    ];
    for (error, expected) in cases {
        assert_eq!(classify_summary_error(error), expected, "error: {error}");
    }
}

#[test]
fn finish_reason_is_checked_without_exposing_model_content() {
    let secret = "モデルの秘密の応答本文";
    let response = choices(vec![
        ("finish_reason", string_value("length")),
        ("message", message(secret)),
    ]);
    let error = inspect_finish_reason(&response).expect_err("truncated output is invalid");
    assert_eq!(
        classify_summary_error(&error),
        SummaryFailureReason::InvalidModelOutput
    );
    assert!(error.contains("finish_reason=length"));
    assert!(!error.contains(secret));
}

#[test]
fn model_response_diagnostics_keep_only_protocol_metadata() {
    let response = choices(vec![
        ("finish_reason", string_value("stop")),
        ("message", message("ユーザーは猫が好きです。")),
    ]);
    let parsed = parse_model_response(&response, 200, 18, 96).expect("valid model response");
    assert_eq!(parsed.diagnostics.http_status, 200);
    assert_eq!(parsed.diagnostics.finish_reason.as_deref(), Some("stop"));
    assert_eq!(parsed.diagnostics.input_chars, 18);
    assert_eq!(parsed.diagnostics.response_chars, 96);
    assert_eq!(parsed.model_output, "ユーザーは猫が好きです。");
}

#[test]
fn malformed_http_200_body_is_model_output_not_runtime_failure() {
    let error = parse_http_response_json(br#"{"choices":["#)
        .err()
        .expect("malformed HTTP 200 body must fail closed");
    assert_eq!(
        classify_summary_error(&error),
        SummaryFailureReason::InvalidModelOutput
    );
    assert!(!error.contains("choices"));
}

#[test]
fn finish_reason_inspection_is_safe_for_missing_and_non_string_values() {
    let missing = parse_json(r#"{"choices": [{"message": {"content": "ok"}}]}"#).unwrap();
    assert_eq!(inspect_finish_reason(&missing).unwrap(), None);

    let null =
        parse_json(r#"{"choices": [{"finish_reason": null, "message": {"content": "ok"}}]}"#)
            .unwrap();
    assert_eq!(inspect_finish_reason(&null).unwrap(), None);

    let invalid =
        parse_json(r#"{"choices": [{"finish_reason": "do not log this secret"}]}"#).unwrap();
    let error = inspect_finish_reason(&invalid).expect_err("finish reason must be a string");
    assert_eq!(
        classify_summary_error(&error),
        SummaryFailureReason::InvalidModelOutput
    );
    assert!(!error.contains("do not log"));
}

/// The hints that the attempts get when every one of them fails the same way.
fn corrective_flags(error: &str) -> Vec<bool> {
    let mut flags = vec![false];
    while let RetryStep::Retry { corrective } = retry_summary_inference(flags.len() > 1, error) {
        flags.push(corrective);
    }
    flags
}

#[test]
fn contract_retry_is_corrective_and_occurs_once() {
    assert_eq!(
        corrective_flags("contract violation: metadata_echo"),
        vec![false, true]
    );
}

#[test]
fn runtime_retry_is_bounded_but_never_corrective() {
    assert_eq!(
        corrective_flags("summary_runtime_timeout: summary_request_timeout"),
        vec![false, false]
    );
}

#[test]
fn transient_summary_failure_retries_once_then_falls_back() {
    let attempts = corrective_flags("summary request failed: transient").len();
    assert_eq!(attempts, 2, "exactly one retry is permitted");
}

#[test]
fn malformed_model_json_is_retried_once() {
    let attempts = corrective_flags("summary response is not JSON: EOF").len();
    assert_eq!(attempts, 2, "malformed JSON must receive one retry");
}

#[test]
fn unusable_sources_are_not_retried() {
    assert_eq!(corrective_flags("empty_source: nothing"), vec![false]);
    assert_eq!(corrective_flags("source_too_long: much"), vec![false]);
}

#[test]
fn truncated_json_is_rejected_as_a_contract_violation() {
    let error =
        parse_summary_response(r#"{"should_store":true,"summary":"ユーザーは猫が好きです。""#)
            .expect_err("truncated model output is not a valid v2 object");
    assert!(error.contains("invalid_model_output"));
}

#[test]
fn summary_input_does_not_silently_truncate_source_text() {
    let input = format!("{}末尾の決定", "あ".repeat(MAX_SUMMARY_INPUT_CHARS + 200));
    let bounded = bounded_summary_input(&input);
    assert_eq!(
        bounded, input,
        "long source must be rejected before formatting"
    );
}

#[test]
fn do_not_store_response_has_no_summary() {
    let result =
        parse_summary_response(r#"{"should_store":false,"summary":""}"#).expect("valid response");
    assert!(!result.should_store);
    assert!(result.summary.is_none());
}

#[test]
fn health_requires_expected_json_and_bearer_auth() {
    assert!(is_expected_health_response(200, r#"{"status":"ok"}"#));
    assert!(!is_expected_health_response(200, r#"{"status":"loading"}"#));
    assert!(!is_expected_health_response(503, r#"{"status":"ok"}"#));
    assert!(!is_expected_health_response(200, "ok"));
}

#[test]
fn bounded_queue_rejects_new_events_when_full() {
    let mut service = LocalSummaryService::new();
    for _ in 0..SUMMARY_QUEUE_CAPACITY {
        service
            .enqueue_summary(QueueAnswer::Taken)
            .expect("queue accepts requests up to its capacity");
    }
    let overflow = service
        .enqueue_summary(QueueAnswer::Full)
        .expect_err("a full queue must reject new events immediately");
    assert!(overflow.starts_with("summary_queue_failed:"));
    assert_eq!(
        service.status(None, true).queue_depth,
        SUMMARY_QUEUE_CAPACITY as u32
    );
}

#[test]
fn status_state_transitions_follow_the_spec() {
    let mut service = LocalSummaryService::new();

    let status = service.status(None, false);
    assert_eq!(status.state, "model_missing");
    assert!(status.message.is_some());

    let status = service.status(Some("off"), false);
    assert_eq!(status.state, "disabled");

    service.enqueue_summary(QueueAnswer::Taken).expect("enqueue");
    let status = service.status(None, true);
    assert_eq!(status.state, "busy");
    assert_eq!(status.queue_depth, 1);
    service.request_taken();

    let error = "summary_runtime_failed: llama_server_start_failed";
    service.inference_started();
    service.inference_finished(Some(error));
    assert_eq!(
        classify_summary_error(error),
        SummaryFailureReason::SummaryRuntimeFailed
    );
    let status = service.status(None, true);
    assert_eq!(status.state, "error");
    assert!(status.fallback_active);
    assert_eq!(status.message.as_deref(), Some(error));
}

#[test]
fn summary_thread_count_is_bounded_and_follows_available_parallelism() {
    for logical_cpus in 1..64usize {
        let threads = summary_thread_count(logical_cpus);
        assert_eq!(threads, (logical_cpus / 2).max(1).min(4));
        assert!((1..=4).contains(&threads));
    }
}

#[test]
fn gpu_layers_follow_the_memory_summary_gpu_setting() {
    assert_eq!(summary_gpu_layers(Some("off"), Some(12288)), 0);
    assert_eq!(summary_gpu_layers(Some("OFF"), None), 0);
    assert_eq!(summary_gpu_layers(None, Some(8690)), GPU_LAYERS_ALL);
    assert_eq!(summary_gpu_layers(Some("auto"), Some(2048)), GPU_LAYERS_ALL);
    assert_eq!(summary_gpu_layers(Some(""), None), GPU_LAYERS_ALL);
    assert_eq!(summary_gpu_layers(Some("auto"), Some(2047)), 0);
    assert_eq!(summary_gpu_layers(Some("auto"), Some(1024)), 0);
}

#[test]
fn summary_log_rotates_to_a_single_generation() {
    assert!(!rotate_summary_log_with_limit(9, 64));
    assert!(!rotate_summary_log_with_limit(64, 64));
    assert!(rotate_summary_log_with_limit(65, 64));
    assert!(!rotate_summary_log(LOG_ROTATE_BYTES));
    assert!(rotate_summary_log(LOG_ROTATE_BYTES + 1));
}
