use gameassistant::lance_memory::{
    detect_memory_schema_version, get_memory_schema, is_summary_candidate_type,
    legacy_memory_schema, list_lance_backups, summary_admission,
    summary_status_transition_allowed, validate_vector, ColumnKind, MemoryMigrationProgress,
    PathPart, PathShape, StoredMemory, SummaryAdmission, MEMORY_SCHEMA_VERSION, SUMMARY_MODEL_ID,
    SUMMARY_PROMPT_VERSION, SUMMARY_STATUS_COMPLETED, SUMMARY_STATUS_FALLBACK,
    SUMMARY_STATUS_PENDING, SUMMARY_STATUS_SKIPPED, VECTOR_DIM, VECTOR_SOURCE_DOCUMENT,
};
use gameassistant::memory_summary::is_summary_backfill_candidate;
use gameassistant::memory_table::preserve_raw_document;
use gameassistant::restore_run::restore_lance_backup;

fn sample_vector(seed: f32) -> Vec<f32> {
    (0..VECTOR_DIM)
        .map(|i| ((i as f32) + seed) * 0.001)
        .collect()
}

fn checked(vector: &[f32]) -> Result<(), String> {
    validate_vector(vector.len(), vector.iter().all(|value| value.is_finite()))
}

/// The answer of a policy that finds nothing to remove.
fn kept(content: &str) -> Option<String> {
    Some(content.to_string())
}

#[test]
fn migration_progress_is_bounded_and_reports_terminal_state() {
    let mut progress = MemoryMigrationProgress::default();
    assert_eq!(progress.snapshot().status, "idle");

    progress.begin(10);
    progress.update(4);
    let running = progress.snapshot();
    assert_eq!(running.status, "running");
    assert_eq!(running.processed, 4);
    assert_eq!(running.total, Some(10));

    progress.update(99);
    assert_eq!(progress.snapshot().processed, 10);

    progress.complete(10);
    let completed = progress.snapshot();
    assert_eq!(completed.status, "completed");
    assert_eq!(completed.processed, completed.total.unwrap());

    progress.fail("test failure");
    let failed = progress.snapshot();
    assert_eq!(failed.status, "error");
    assert_eq!(failed.error.as_deref(), Some("test failure"));
}

#[test]
fn schema_version_is_detected_from_summary_columns() {
    assert_eq!(detect_memory_schema_version(&legacy_memory_schema()), 1);
    assert_eq!(
        detect_memory_schema_version(&get_memory_schema()),
        MEMORY_SCHEMA_VERSION
    );
}

#[test]
fn memory_v2_vector_schema_has_nullable_outer_list_and_non_nullable_items() {
    let schema = get_memory_schema();
    let field = schema
        .iter()
        .find(|column| column.name == "vector")
        .unwrap();
    assert!(field.nullable, "missing vectors must be outer nulls");
    assert_eq!(
        field.kind,
        ColumnKind::FixedSizeList {
            dimension: VECTOR_DIM,
            item_float32: true,
            item_nullable: false,
        }
    );
}

#[test]
fn vector_validation_rejects_wrong_shape_and_non_finite_values() {
    assert!(checked(&sample_vector(1.0)).is_ok());
    assert!(checked(&vec![0.0; VECTOR_DIM as usize - 1]).is_err());

    let mut nan_vector = sample_vector(1.0);
    nan_vector[10] = f32::NAN;
    assert!(checked(&nan_vector).is_err());

    let mut infinity_vector = sample_vector(1.0);
    infinity_vector[10] = f32::INFINITY;
    assert!(checked(&infinity_vector).is_err());
}

#[test]
fn summary_status_transitions_are_monotonic_and_idempotent() {
    assert!(summary_status_transition_allowed(
        Some(SUMMARY_STATUS_PENDING),
        SUMMARY_STATUS_COMPLETED
    ));
    assert!(summary_status_transition_allowed(
        Some(SUMMARY_STATUS_COMPLETED),
        SUMMARY_STATUS_COMPLETED
    ));
    assert!(!summary_status_transition_allowed(
        Some(SUMMARY_STATUS_COMPLETED),
        SUMMARY_STATUS_FALLBACK
    ));
    assert!(!summary_status_transition_allowed(
        Some(SUMMARY_STATUS_SKIPPED),
        SUMMARY_STATUS_COMPLETED
    ));
    assert!(summary_status_transition_allowed(
        Some(SUMMARY_STATUS_FALLBACK),
        SUMMARY_STATUS_PENDING
    ));
    assert!(!summary_status_transition_allowed(
        Some(SUMMARY_STATUS_COMPLETED),
        SUMMARY_STATUS_PENDING
    ));
}

#[test]
fn candidate_rule_matches_spec_section_3_3() {
    assert!(is_summary_candidate_type("user_speech"));
    assert!(is_summary_candidate_type("discord_speech"));
    assert!(is_summary_candidate_type("twitch_chat"));
    assert!(!is_summary_candidate_type("ai_response"));
    assert!(!is_summary_candidate_type("auto_commentary"));
    assert!(!is_summary_candidate_type("manual"));
}

#[test]
fn candidate_admission_distinguishes_type_and_content_before_gemma() {
    assert_eq!(
        summary_admission("twitch_chat", "ユーザーは猫が好きです。", &kept("ユーザーは猫が好きです。")),
        SummaryAdmission::Eligible
    );
    assert_eq!(
        summary_admission("ai_response", "モデルの返答", &kept("モデルの返答")),
        SummaryAdmission::NotApplicable
    );
    assert_eq!(
        summary_admission("unknown", "不明なイベント", &kept("不明なイベント")),
        SummaryAdmission::NotApplicable
    );
    assert_eq!(
        summary_admission("user_speech", "", &kept("")),
        SummaryAdmission::Invalid
    );
    assert_eq!(
        summary_admission("user_speech", "壊れた\0本文", &kept("壊れた\0本文")),
        SummaryAdmission::Invalid
    );
}

#[test]
fn candidate_admission_rejects_exact_ephemeral_filler_before_gemma() {
    for content in [
        "はい",
        " は い ",
        "うんうん",
        "こんにちは",
        "ありがとうございます",
        "OK",
        "www",
        "あ",
    ] {
        assert_eq!(
            summary_admission("user_speech", content, &kept(content)),
            SummaryAdmission::Invalid,
            "ephemeral content must not reach the model: {content:?}"
        );
    }
    assert_eq!(
        summary_admission("user_speech", "はい、猫を2匹飼っています。", &kept("はい、猫を2匹飼っています。")),
        SummaryAdmission::Eligible,
        "exact-match filtering must remain conservative"
    );
}

#[test]
fn noncandidate_rows_are_never_backfill_candidates_or_marked_skipped() {
    for memory_type in [
        "ai_response",
        "auto_commentary",
        "manual",
        "system",
        "unknown",
    ] {
        let row = StoredMemory {
            id: format!("noncandidate-{memory_type}"),
            document: "保持する本文".into(),
            memory_type: memory_type.into(),
            source: "source".into(),
            timestamp: "2026-01-01T00:00:00Z".into(),
            user_id: None,
            summary: None,
            summary_status: None,
            summary_model: None,
            summary_prompt_version: None,
            vector_source: Some(VECTOR_SOURCE_DOCUMENT.into()),
        };
        assert!(!is_summary_backfill_candidate(&row, &kept(&row.document)));
    }
}

#[test]
fn new_summary_attempts_use_contract_v3() {
    assert_eq!(SUMMARY_PROMPT_VERSION, "v3");
    assert_eq!(SUMMARY_MODEL_ID, "gemma-3-1b-it-Q4_K_S.gguf");
}

#[test]
fn terminal_summary_projection_rows_are_not_backfill_candidates() {
    let mut row = StoredMemory {
        id: "terminal-candidate".into(),
        document: "raw".into(),
        memory_type: "user_speech".into(),
        source: "microphone".into(),
        timestamp: "2026-01-01T00:00:00Z".into(),
        user_id: None,
        summary: None,
        summary_status: None,
        summary_model: None,
        summary_prompt_version: None,
        vector_source: None,
    };
    row.summary_status = Some(SUMMARY_STATUS_SKIPPED.into());
    assert!(!is_summary_backfill_candidate(&row, &kept(&row.document)));
    row.summary_status = Some(SUMMARY_STATUS_FALLBACK.into());
    assert!(!is_summary_backfill_candidate(&row, &kept(&row.document)));
    row.summary_status = Some(SUMMARY_STATUS_PENDING.into());
    assert!(is_summary_backfill_candidate(&row, &kept(&row.document)));
}

#[test]
fn raw_document_rejects_traversal_and_absolute_ids() {
    assert!(preserve_raw_document("../escape", 1, "u").is_err());
    assert!(preserve_raw_document("/absolute", 1, "u").is_err());
}

#[test]
fn backup_boundaries_reject_traversal_names_before_restore() {
    let root = PathShape {
        absolute: true,
        parts: vec![PathPart::Root("/".to_string()), PathPart::Normal("app".to_string())],
    };
    assert!(restore_lance_backup(&root, &Vec::new(), "../outside").is_err());
    assert!(list_lance_backups(&Vec::new()).is_ok());
}
