use gameassistant::backfill::{queued_statuses, QueuedRow};
use gameassistant::grounding::{grounding_text, is_grounded_text, is_summary_grounded};
use gameassistant::json::{array, member, object, string_value, Json};
use gameassistant::local_summary::{
    admitted_summary_content, is_metadata_echo, looks_like_timestamp, parse_model_decision,
    parse_summary_response_with_provenance, test_summary, test_summary_text,
    MAX_SUMMARY_INPUT_CHARS,
};
use gameassistant::summary_failure::{
    format_contract_violation, format_reason, reason_from_error, SummaryFailureReason,
};
use gameassistant::summary_server::{
    check_http_status, complete_with_options, exchange_error, is_switched_off,
    llama_server_arguments, reports_health, rotated_log_name, server_api_key, server_endpoint,
    ExchangePart, HealthStep, HealthWait, HEALTH_TIMEOUT_SECS,
};
use gameassistant::summary_service::{
    model_missing_error, precheck, AfterRun, LocalSummaryService, Precheck, QueueAnswer,
    ServerStep,
};

fn texts(list: &[&str]) -> Vec<String> {
    list.iter().map(|item| item.to_string()).collect()
}

fn answer(text: &str) -> Vec<u8> {
    let message = serde_json::Value::Object(
        [("content".to_string(), serde_json::Value::String(text.to_string()))]
            .into_iter()
            .collect(),
    );
    let choice = serde_json::Value::Object(
        [
            ("message".to_string(), message),
            ("finish_reason".to_string(), serde_json::Value::String("stop".to_string())),
        ]
        .into_iter()
        .collect(),
    );
    let whole = serde_json::Value::Object(
        [("choices".to_string(), serde_json::Value::Array(vec![choice]))]
            .into_iter()
            .collect(),
    );
    whole.to_string().into_bytes()
}

#[test]
fn every_reason_is_read_back() {
    for reason in [
        SummaryFailureReason::InvalidModelOutput,
        SummaryFailureReason::MetadataEcho,
        SummaryFailureReason::UngroundedSummary,
        SummaryFailureReason::EmptySource,
        SummaryFailureReason::SourceTooLong,
        SummaryFailureReason::SummaryRuntimeTimeout,
        SummaryFailureReason::SummaryRuntimeFailed,
        SummaryFailureReason::SummaryQueueFailed,
        SummaryFailureReason::InferenceFailed,
    ] {
        assert_eq!(reason_from_error(&format_reason(reason, "detail")), reason);
    }
    assert_eq!(
        format_contract_violation(SummaryFailureReason::MetadataEcho, "x"),
        "contract violation: metadata_echo (x)"
    );
}

#[test]
fn copies_are_grounded_and_foreign_numbers_are_not() {
    assert_eq!(grounding_text("Aｂ 1、猫!"), vec!['a', 'ｂ', '1', '、', '猫']);
    assert_eq!(grounding_text("İ"), "i\u{307}".chars().filter(|c| *c == 'i' || *c == '\u{307}').collect::<Vec<_>>());
    let document = "ユーザーは猫を2匹飼っている";
    assert!(is_summary_grounded(document, document));
    assert!(is_summary_grounded(document, "猫を2匹飼っている"));
    assert!(!is_summary_grounded(document, "猫を3匹飼っている"));
    assert!(!is_summary_grounded(document, "犬と暮らしています"));
    let doc: Vec<char> = "abc12".chars().collect();
    let copy: Vec<char> = "bc12".chars().collect();
    assert!(is_grounded_text(&doc, &copy, &vec![false, false, true, true]));
    let other: Vec<char> = "abc13".chars().collect();
    assert!(!is_grounded_text(&doc, &other, &vec![false, false, false, true, true]));
}

#[test]
fn timestamps_are_told_from_texts() {
    assert!(looks_like_timestamp("2026-07-01T12:00:00.000+09:00"));
    assert!(looks_like_timestamp("2026-07-01"));
    assert!(!looks_like_timestamp("2026-07-1"));
    assert!(!looks_like_timestamp("2026-07-01 に会う"));
    let provenance = texts(&["user_speech", "discord", "2026-07-01T00:00:00Z"]);
    assert!(is_metadata_echo(" user_speech ", &provenance));
    assert!(is_metadata_echo("discord", &provenance));
    assert!(!is_metadata_echo("discordで毎週話す", &provenance));
}

#[test]
fn the_source_is_bounded() {
    let long = "あ".repeat(MAX_SUMMARY_INPUT_CHARS + 1);
    let kept = "あ".repeat(MAX_SUMMARY_INPUT_CHARS);
    assert_eq!(
        admitted_summary_content("user_speech", &long, &Some(long.clone())),
        Err("source_too_long: summary input exceeds 1200 characters".to_string())
    );
    assert_eq!(
        admitted_summary_content("user_speech", &kept, &Some(kept.clone())),
        Ok(Some(kept.clone()))
    );
    assert_eq!(admitted_summary_content("ai_response", "text", &Some("text".to_string())), Ok(None));
}

#[test]
fn a_trial_summary_has_a_text() {
    assert_eq!(test_summary_text("  "), "ユーザーは猫を2匹飼っています。");
    assert_eq!(test_summary_text("犬"), "犬");
    assert_eq!(test_summary("犬がいる", &Some("犬がいる".to_string())), Ok("犬がいる".to_string()));
    let refused = test_summary("犬がいる", &Some(" ".to_string()));
    assert!(refused.expect_err("nothing left").starts_with("empty_source: "));
}

#[test]
fn answers_are_decided_with_their_provenance() {
    let provenance = texts(&["user_speech", "mic", "2026-07-01T00:00:00Z"]);
    let raw = r#"{"should_store":true,"summary":"mic"}"#;
    let refused = parse_summary_response_with_provenance(raw, "micで話す", &provenance)
        .expect_err("metadata");
    assert_eq!(reason_from_error(&refused), SummaryFailureReason::MetadataEcho);
    let raw = r#"{"should_store":false,"summary":""}"#;
    let decision = parse_model_decision(raw, "猫がいる", &provenance).expect("declined");
    assert!(!decision.should_store);
    assert_eq!(decision.summary, None);
}

#[test]
fn answers_of_the_server_become_decisions() {
    let provenance = texts(&["user_speech", "mic", "t"]);
    let document = "ユーザーは猫を2匹飼っている。";
    let body = answer(&format!("{{\"should_store\":true,\"summary\":\"{document}\"}}"));
    let decision = complete_with_options(200, &body, 10, document, &provenance).expect("decision");
    assert_eq!(decision.summary.as_deref(), Some(document));
    let error = complete_with_options(504, &body, 10, document, &provenance).expect_err("status");
    assert_eq!(error, "summary_runtime_timeout: http_status=504");
    let error = complete_with_options(200, b"{", 1, document, &provenance).expect_err("body");
    assert_eq!(
        error,
        "contract violation: invalid_model_output (response_json_required)"
    );
    let error = complete_with_options(200, b"{}", 2, document, &provenance).expect_err("empty");
    assert_eq!(reason_from_error(&error), SummaryFailureReason::InvalidModelOutput);
}

#[test]
fn failed_exchanges_have_stable_errors() {
    assert_eq!(check_http_status(200), Ok(()));
    assert_eq!(check_http_status(299), Ok(()));
    assert_eq!(
        check_http_status(300),
        Err("summary_runtime_failed: http_status=300".to_string())
    );
    assert_eq!(
        check_http_status(408),
        Err("summary_runtime_timeout: http_status=408".to_string())
    );
    assert_eq!(
        exchange_error(ExchangePart::Request, true),
        "summary_runtime_timeout: summary_request_timeout"
    );
    assert_eq!(
        exchange_error(ExchangePart::Request, false),
        "summary_runtime_failed: summary_request_failed"
    );
    assert_eq!(
        exchange_error(ExchangePart::Response, true),
        "summary_runtime_timeout: summary_response_timeout"
    );
    assert_eq!(
        exchange_error(ExchangePart::Response, false),
        "summary_runtime_failed: summary_response_read_failed"
    );
}

#[test]
fn the_wait_for_a_healthy_server_ends() {
    let mut wait = HealthWait::new();
    let mut rounds = 0;
    let error = loop {
        match wait.begin_round(false) {
            HealthStep::Probe => rounds += 1,
            HealthStep::Failed(error) => break error,
            other => panic!("unexpected {other:?}"),
        }
        assert!(matches!(wait.end_round(false, false), HealthStep::Sleep));
    };
    assert_eq!(rounds, HEALTH_TIMEOUT_SECS);
    assert_eq!(error, "summary_runtime_timeout: llama-server_health_timeout");
    let mut wait = HealthWait::new();
    assert!(matches!(
        wait.begin_round(true),
        HealthStep::Failed(error) if error == "summary_runtime_failed: llama-server_exited_before_health"
    ));
    assert!(matches!(wait.begin_round(false), HealthStep::Probe));
    assert!(matches!(wait.end_round(true, false), HealthStep::Ready));
    assert!(matches!(
        wait.end_round(true, true),
        HealthStep::Failed(error) if error == "summary_runtime_failed: llama-server_exited_during_health"
    ));
}

#[test]
fn the_server_listens_on_this_machine_only() {
    assert_eq!(
        llama_server_arguments("/m.gguf", 8081, 4, 999, "ga-key"),
        vec![
            "--model", "/m.gguf", "--host", "127.0.0.1", "--port", "8081", "--ctx-size", "2048",
            "--threads", "4", "--n-gpu-layers", "999", "--parallel", "1", "--no-webui",
            "--api-key", "ga-key"
        ]
    );
    assert_eq!(server_endpoint(8081), "http://127.0.0.1:8081");
    assert_eq!(server_api_key("1f"), "ga-1f");
    assert_eq!(rotated_log_name("summary.log"), "summary.log.1");
    assert!(is_switched_off(Some("OFF")));
    assert!(!is_switched_off(Some("auto")));
    assert!(!is_switched_off(None));
    let ok = object(vec![member("status", string_value("ok"))]);
    assert!(reports_health(200, Some(&ok)));
    assert!(!reports_health(503, Some(&ok)));
    assert!(!reports_health(200, Some(&array(Vec::<Json>::new()))));
    assert!(!reports_health(200, None));
}

fn sound() -> Precheck {
    Precheck {
        runtime_error: None,
        terms_accepted: true,
        mode: None,
        model_installed: true,
        model_path: "/m.gguf".to_string(),
        model_error: None,
        server_bundled: true,
    }
}

#[test]
fn the_first_problem_is_reported() {
    assert_eq!(precheck(&sound()), Ok(()));
    let mut found = sound();
    found.server_bundled = false;
    assert_eq!(
        precheck(&found),
        Err("summary_runtime_failed: llama-server.exe is not bundled".to_string())
    );
    found.model_error = Some("size".to_string());
    assert_eq!(
        precheck(&found),
        Err("summary_runtime_failed: Gemma model failed validation: size".to_string())
    );
    found.model_installed = false;
    assert_eq!(
        precheck(&found),
        Err("summary_runtime_failed: Gemma model is not installed: /m.gguf".to_string())
    );
    assert_eq!(precheck(&found), Err(model_missing_error("/m.gguf")));
    found.mode = Some("Off".to_string());
    assert_eq!(
        precheck(&found),
        Err("summary_runtime_failed: local memory summary is disabled".to_string())
    );
    found.terms_accepted = false;
    assert_eq!(
        precheck(&found),
        Err(
            "summary_runtime_failed: Gemma Terms acknowledgement is required before using the local model"
                .to_string()
        )
    );
    found.runtime_error = Some("no runtime".to_string());
    assert_eq!(precheck(&found), Err("summary_runtime_failed: no runtime".to_string()));
}

#[test]
fn the_server_is_started_used_and_unloaded() {
    let mut service = LocalSummaryService::new();
    assert_eq!(service.prepare_server(false, false, false), ServerStep::ModelMissing);
    assert_eq!(service.prepare_server(true, false, false), ServerStep::Start);
    assert_eq!(service.status(None, true).state, "starting");
    service.server_started(true);
    assert_eq!(service.prepare_server(true, true, false), ServerStep::Use);
    assert_eq!(service.status(None, true).state, "ready");
    assert_eq!(service.prepare_server(true, true, true), ServerStep::Restart);
    service.server_started(true);
    let generation = match service.server_answered(None) {
        AfterRun::UnloadLater { generation } => generation,
        AfterRun::Stop => panic!("the server answered"),
    };
    assert!(service.unload_is_due(generation));
    let later = service.server_answered(Some("contract violation: metadata_echo (x)"));
    assert_eq!(later, AfterRun::UnloadLater { generation: generation + 1 });
    assert!(!service.unload_is_due(generation));
    assert_eq!(
        service.server_answered(Some("summary_runtime_failed: x")),
        AfterRun::Stop
    );
    service.unload();
    assert_eq!(service.prepare_server(true, false, false), ServerStep::Start);
}

#[test]
fn lost_replies_are_asked_for_once_more() {
    let mut service = LocalSummaryService::new();
    assert_eq!(service.reply_lost(0), None);
    assert_eq!(service.status(None, true).state, "ready");
    assert_eq!(
        service.reply_lost(1).as_deref(),
        Some("summary_runtime_failed: summary_worker_dropped_request")
    );
    let status = service.status(None, true);
    assert_eq!(status.state, "error");
    assert!(status.fallback_active);
    service.inference_started();
    service.inference_finished(None);
    assert_eq!(service.status(None, true).state, "ready");
}

#[test]
fn a_status_is_reported_once() {
    let mut service = LocalSummaryService::new();
    let first = service.status(None, true);
    assert!(service.notify_status(first));
    let again = service.status(None, true);
    assert!(!service.notify_status(again));
    service.enqueue_summary(QueueAnswer::Taken).expect("room");
    let busy = service.status(None, true);
    assert_eq!(busy.state, "busy");
    assert_eq!(busy.queue_depth, 1);
    assert!(service.notify_status(busy));
    service.request_taken();
    assert_eq!(service.status(None, true).queue_depth, 0);
    assert_eq!(service.status(Some("off"), true).state, "disabled");
    assert_eq!(service.status(None, false).state, "model_missing");
}

#[test]
fn queued_rows_get_attempts_of_their_own() {
    let rows = vec![
        QueuedRow { id: "a".to_string(), status: None },
        QueuedRow { id: "b".to_string(), status: Some("fallback".to_string()) },
    ];
    let statuses = queued_statuses(&rows);
    assert_eq!(statuses.len(), 2);
    assert_eq!(statuses[1].entity_id, "b");
    assert_eq!(statuses[1].status, "pending");
    assert!(statuses[0].attempt_id.as_deref().is_some_and(|id| id.starts_with("attempt-")));
    assert_ne!(statuses[0].attempt_id, statuses[1].attempt_id);
}
