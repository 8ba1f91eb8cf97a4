use gameassistant::backfill::{
    batch_result, completed_updates, queue_candidates, queued_status, single_summary,
    status_groups, statuses_with_reasons, statuses_without_reasons,
    summary_backfill_snapshot_candidate, update_of_group, with_supplied_counts, BatchOutcome,
    FactEntry, FallbackReason, JournalEntry, QueueRun, QueuedRow, SummaryBackfillApplyResult,
    SummaryStatusBatchInput, SUMMARY_QUEUE_PROJECTION_CHUNK_SIZE,
};
use gameassistant::lance_memory::{
    admit_summary_document, check_vector_count, escape_sql_literal,
    fetch_limit, hit_from_row, id_predicate, ids_predicate, list_memories,
    missing_vector_predicate, schema_matches_memory_v2, search_similar_memories,
    summary_admission, validate_vector, ColumnKind, MemoryItem, StoredMemory,
    SummaryAdmission, IMPORT_BATCH_SIZE,
};
use gameassistant::memory_summary::{
    apply_summary, attempt_name, check_document_vector, check_summary, journal_is_pending,
    list_pending_summaries, mark_summary_error, mark_summary_fallback, mark_summary_skipped,
    pending_predicate, queue_summary_backfill, retry_summary, update_settled, JournalStatus,
    QueueStep, RowStep,
};
use gameassistant::memory_table::{
    batch_row_to_stored, batch_to_items, chunk_entries, delete_memories_bulk,
    get_memory_by_event_id, get_or_create_memories_table, import_legacy_memories,
    insert_memory_batch_nullable, insert_on_table, legacy_batch_to_items, list_stored_memories,
    similar_memories_request, BatchColumn, ColumnValues, ImportRow, ImportRun, RowBatch, TablePlan,
    VectorShape,
};

fn item(id: &str, memory_type: &str, document: &str) -> MemoryItem {
    MemoryItem {
        id: id.to_string(),
        document: document.to_string(),
        memory_type: memory_type.to_string(),
        source: "User".to_string(),
        timestamp: "2026-09-02T12:00:00+09:00".to_string(),
        user_id: Some("tester".to_string()),
    }
}

fn row(id: &str, status: Option<&str>) -> StoredMemory {
    StoredMemory {
        id: id.to_string(),
        document: "ユーザーは猫が好きです。".to_string(),
        memory_type: "user_speech".to_string(),
        source: "mic".to_string(),
        timestamp: "t".to_string(),
        user_id: None,
        summary: None,
        summary_status: status.map(|status| status.to_string()),
        summary_model: None,
        summary_prompt_version: None,
        vector_source: None,
    }
}

fn journal(status: &str, reason: Option<&str>) -> JournalStatus {
    JournalStatus {
        status: status.to_string(),
        model_id: None,
        prompt_version: None,
        reason: reason.map(|reason| reason.to_string()),
    }
}

fn sound() -> VectorShape {
    VectorShape {
        len: 768,
        all_finite: true,
    }
}

fn texts(name: &str, values: &[Option<&str>]) -> BatchColumn {
    BatchColumn {
        name: name.to_string(),
        values: ColumnValues::Texts(
            values
                .iter()
                .map(|value| value.map(|text| text.to_string()))
                .collect(),
        ),
    }
}

fn legacy_batch() -> RowBatch {
    RowBatch {
        columns: vec![
            texts("id", &[Some("a"), Some("b")]),
            texts("document", &[Some("da"), None]),
            texts("memory_type", &[Some("ta"), Some("tb")]),
            texts("source", &[Some("sa"), Some("sb")]),
            texts("timestamp", &[Some("1"), Some("2")]),
            texts("user_id", &[None, Some("ub")]),
            BatchColumn {
                name: "vector".to_string(),
                values: ColumnValues::Vectors(vec![Some(sound()), None]),
            },
        ],
        rows: 2,
    }
}

#[test]
fn vectors_are_checked_with_their_lengths() {
    assert_eq!(
        validate_vector(767, true),
        Err("Vector length mismatch: expected 768, got 767".to_string())
    );
    assert_eq!(
        validate_vector(768, false),
        Err("Vector values must be finite".to_string())
    );
    assert_eq!(
        check_vector_count(2, 3),
        Err("Vector count mismatch: expected 2, got 3".to_string())
    );
}

#[test]
fn the_schema_ignores_only_the_nullability_of_list_items() {
    let mut schema = gameassistant::lance_memory::get_memory_schema();
    assert!(schema_matches_memory_v2(&schema));
    for column in schema.iter_mut() {
        if column.name == "vector" {
            column.kind = ColumnKind::FixedSizeList {
                dimension: 768,
                item_float32: true,
                item_nullable: true,
            };
        }
    }
    assert!(schema_matches_memory_v2(&schema));
    schema[6].nullable = false;
    assert!(!schema_matches_memory_v2(&schema));
}

#[test]
fn conditions_are_written_with_escaped_quotes() {
    assert_eq!(escape_sql_literal("it's"), "it''s");
    assert_eq!(id_predicate("it's"), "id = 'it''s'");
    assert_eq!(
        ids_predicate(&vec!["a".to_string(), "b'".to_string()]),
        Some("id IN ('a', 'b''')".to_string())
    );
    assert_eq!(ids_predicate(&Vec::new()), None);
    assert_eq!(
        missing_vector_predicate("a"),
        "id = 'a' AND vector IS NULL"
    );
    assert_eq!(
        pending_predicate("a"),
        "id = 'a' AND summary_status = 'pending'"
    );
}

#[test]
fn only_redacted_documents_are_admitted() {
    assert_eq!(
        admit_summary_document(
            "user_speech",
            "  猫が好きです \n",
            &Some("猫が好きです".to_string())
        ),
        Ok("猫が好きです".to_string())
    );
    assert_eq!(
        admit_summary_document("user_speech", "番号は123", &Some(" 番号は*** ".to_string())),
        Ok("番号は***".to_string())
    );
    assert_eq!(
        admit_summary_document("user_speech", "番号は123", &None),
        Err(SummaryAdmission::Invalid)
    );
    assert_eq!(
        admit_summary_document("manual", "x", &Some("x".to_string())),
        Err(SummaryAdmission::NotApplicable)
    );
    assert_eq!(
        summary_admission("user_speech", "長い話", &Some("はい".to_string())),
        SummaryAdmission::Invalid
    );
    assert_eq!(
        summary_admission("user_speech", "a\u{7f}b", &Some("x y".to_string())),
        SummaryAdmission::Invalid
    );
    assert_eq!(
        summary_admission("user_speech", "a\tb\r\nc", &Some("abc".to_string())),
        SummaryAdmission::Eligible
    );
}

#[test]
fn memories_are_listed_newest_first() {
    let mut items = vec![item("a", "t", "d"), item("b", "t", "d"), item("c", "t", "d")];
    items[0].timestamp = "1".to_string();
    items[1].timestamp = "3".to_string();
    items[2].timestamp = "2".to_string();
    let all = list_memories(&items, None, None);
    assert!(all.success);
    assert_eq!(all.total, 3);
    let ids: Vec<&str> = all.memories.iter().map(|m| m.id.as_str()).collect();
    assert_eq!(ids, vec!["b", "c", "a"]);
    let page = list_memories(&items, Some(1), Some(1));
    assert_eq!(page.total, 3);
    assert_eq!(page.memories.len(), 1);
    assert_eq!(page.memories[0].id, "c");
    assert!(list_memories(&items, Some(1), Some(3)).memories.is_empty());
}

#[test]
fn equal_times_keep_their_places() {
    let rows = vec![row("x", None), row("y", None)];
    assert_eq!(list_stored_memories(&rows), vec![0, 1]);
}

#[test]
fn completed_summary_is_preferred_in_search_results() {
    let raw_document = "ねえぐり、猫2匹の世話で朝6時に起きることにした。";
    let summary_text = "ユーザーは猫を2匹飼っており、朝6時起きを決意した。";
    let mut stored = row("comp-1", Some("pending"));
    stored.document = raw_document.to_string();
    assert!(check_summary(summary_text, Some(sound())).is_ok());
    assert_eq!(apply_summary(Some(&stored), SummaryAdmission::Eligible), RowStep::Write);
    let inputs = vec![single_summary("comp-1", summary_text, Some(0))];
    let known = JournalEntry {
        event_id: "comp-1".to_string(),
        status: JournalStatus {
            status: "completed".to_string(),
            model_id: inputs[0].model_id.clone(),
            prompt_version: inputs[0].prompt_version.clone(),
            reason: None,
        },
    };
    let ids = vec!["comp-1".to_string()];
    let updates = completed_updates(&inputs, &ids, &ids, &vec![known]);
    assert_eq!(updates.len(), 1);
    assert_eq!(updates[0].vector, Some(0));
    let columns: Vec<(&str, &str)> = updates[0]
        .columns
        .iter()
        .map(|column| (column.column, column.value.as_str()))
        .collect();
    assert_eq!(
        columns,
        vec![
            ("summary", "'ユーザーは猫を2匹飼っており、朝6時起きを決意した。'"),
            ("summary_status", "'completed'"),
            ("summary_model", "'gemma-3-1b-it-Q4_K_S.gguf'"),
            ("summary_prompt_version", "'v3'"),
            ("vector_source", "'summary'"),
        ]
    );
    stored.summary = Some(summary_text.to_string());
    stored.summary_status = Some("completed".to_string());
    stored.vector_source = Some("summary".to_string());
    let rows = vec![stored];
    let hits = search_similar_memories(&rows, 5);
    let hit = hits.iter().find(|hit| hit.item.id == "comp-1").expect("completed row is searchable");
    assert_eq!(hit.searchable_text(), summary_text);
    assert_eq!(hit.item.document, raw_document);
}

#[test]
fn only_a_completed_summary_stands_for_its_text() {
    let mut completed = row("a", Some("completed"));
    completed.summary = Some("要約".to_string());
    let hit = hit_from_row(&completed);
    assert_eq!(hit.searchable_text(), "要約");
    assert_eq!(hit.item.document, "ユーザーは猫が好きです。");
    completed.summary_status = Some("pending".to_string());
    assert_eq!(
        hit_from_row(&completed).searchable_text(),
        "ユーザーは猫が好きです。"
    );
}

#[test]
fn skipped_rows_are_not_found() {
    let mut silent = row("c", Some("completed"));
    silent.document = String::new();
    let mut told = row("d", Some("completed"));
    told.document = String::new();
    told.summary = Some("s".to_string());
    let rows = vec![row("a", Some("skipped")), row("b", None), silent, told];
    let hits = search_similar_memories(&rows, 5);
    let ids: Vec<&str> = hits.iter().map(|hit| hit.item.id.as_str()).collect();
    assert_eq!(ids, vec!["b", "d"]);
    assert_eq!(search_similar_memories(&rows, 1).len(), 1);
    assert_eq!(fetch_limit(3), 6);
    assert_eq!(fetch_limit(80), 130);
    assert_eq!(similar_memories_request(sound(), 0), Ok(None));
    assert!(similar_memories_request(
        VectorShape {
            len: 1,
            all_finite: true
        },
        0
    )
    .is_err());
}

#[test]
fn rows_are_read_from_batches() {
    let batch = legacy_batch();
    let stored = batch_row_to_stored(&batch, 1).unwrap();
    assert_eq!(stored.id, "b");
    assert_eq!(stored.document, "");
    assert_eq!(stored.user_id.as_deref(), Some("ub"));
    assert!(stored.summary_status.is_none());
    let items = batch_to_items(&batch).unwrap();
    assert_eq!(items.len(), 2);
    assert_eq!(items[0].document, "da");
    assert_eq!(items[1].document, "");
    assert!(items[0].user_id.is_none());
    let mut broken = legacy_batch();
    broken.columns[3].values = ColumnValues::Other;
    assert_eq!(
        batch_row_to_stored(&broken, 0).err(),
        Some("Invalid source column".to_string())
    );
    assert_eq!(
        batch_to_items(&broken).err(),
        Some("Invalid src column".to_string())
    );
    assert_eq!(
        legacy_batch_to_items(&broken).err(),
        Some("Invalid legacy source column".to_string())
    );
    broken.columns.remove(3);
    assert_eq!(
        batch_row_to_stored(&broken, 0).err(),
        Some("Missing source column".to_string())
    );
}

#[test]
fn rows_without_a_vector_are_read_as_such() {
    let (items, vectors) = legacy_batch_to_items(&legacy_batch()).unwrap();
    assert_eq!(items.len(), 2);
    assert_eq!(vectors, vec![Some(sound()), None]);
    let mut broken = legacy_batch();
    broken.columns[6].values = ColumnValues::Vectors(vec![
        None,
        Some(VectorShape {
            len: 768,
            all_finite: false,
        }),
    ]);
    assert_eq!(
        legacy_batch_to_items(&broken).err(),
        Some("Vector values must be finite".to_string())
    );
    broken.columns[6].name = "other".to_string();
    assert_eq!(
        legacy_batch_to_items(&broken).err(),
        Some("Missing legacy vector column".to_string())
    );
}

#[test]
fn the_table_is_chosen_by_what_is_there() {
    let current = || Some(gameassistant::lance_memory::get_memory_schema());
    let older = || Some(gameassistant::lance_memory::legacy_memory_schema());
    let plan = |active, legacy, imported| get_or_create_memories_table(&active, &legacy, imported);
    assert_eq!(plan(current(), None, false), Ok(TablePlan::UseActive));
    assert_eq!(plan(current(), older(), true), Ok(TablePlan::UseActive));
    assert_eq!(
        plan(current(), older(), false),
        Ok(TablePlan::ImportIntoActive)
    );
    assert_eq!(plan(current(), current(), false), Ok(TablePlan::UseActive));
    assert_eq!(
        plan(older(), None, false),
        Err("Existing memory-v2 table has an incompatible schema".to_string())
    );
    assert_eq!(plan(None, current(), false), Ok(TablePlan::UseLegacy));
    assert_eq!(plan(None, older(), true), Ok(TablePlan::CreateAndImport));
    assert_eq!(plan(None, None, false), Ok(TablePlan::Create));
}

#[test]
fn an_import_reports_what_it_added() {
    let older = Some(gameassistant::lance_memory::legacy_memory_schema());
    let stats = import_legacy_memories(&older, 3, 10);
    assert!(stats.success);
    assert_eq!(stats.imported_count, 7);
    assert_eq!(
        stats.message,
        "Legacy memories imported into memory-v2; source retained read-only"
    );
    let none = import_legacy_memories(&None, 3, 10);
    assert_eq!(none.imported_count, 0);
    assert_eq!(
        none.message,
        "Legacy memories table not found; nothing to import"
    );
    let current = Some(gameassistant::lance_memory::get_memory_schema());
    assert_eq!(
        import_legacy_memories(&current, 0, 5).message,
        "Memories table already uses memory-v2 schema"
    );
}

fn import_rows(from: usize, to: usize) -> Vec<ImportRow> {
    (from..to)
        .map(|n| ImportRow {
            item: item(&format!("r{n}"), "user_speech", "d"),
            vector: if n % 2 == 0 { Some(n as u64) } else { None },
        })
        .collect()
}

#[test]
fn an_import_goes_through_its_chunks() {
    let total = IMPORT_BATCH_SIZE + 3;
    let mut run = ImportRun::new(total);
    run.accept(import_rows(0, 10));
    assert!(run.next_chunk().is_none());
    run.accept(import_rows(10, total));
    let chunk = run.next_chunk().expect("a full chunk");
    assert_eq!(chunk.len(), IMPORT_BATCH_SIZE);
    let (entries, embeddings) = chunk_entries(&chunk);
    assert_eq!(entries.len(), IMPORT_BATCH_SIZE);
    assert_eq!(embeddings.len(), IMPORT_BATCH_SIZE / 2);
    assert_eq!(embeddings[1], ("r2".to_string(), 2));
    run.chunk_committed(chunk);
    assert_eq!(run.snapshot().processed, IMPORT_BATCH_SIZE);
    assert!(run.next_chunk().is_none());
    let rest = run.last_chunk().expect("the rest");
    assert_eq!(rest.len(), 3);
    run.chunk_committed(rest);
    assert!(run.last_chunk().is_none());
    let (rows, progress) = run.complete(total);
    let ids: Vec<String> = rows.iter().map(|row| row.item.id.clone()).collect();
    let wanted: Vec<String> = (0..total).map(|n| format!("r{n}")).collect();
    assert_eq!(ids, wanted);
    assert_eq!(progress.snapshot().status, "completed");
}

#[test]
fn a_failed_import_keeps_its_rows_and_tells_why() {
    let mut run = ImportRun::new(2);
    run.accept(import_rows(0, 2));
    run.fail("Legacy migration read batch: x");
    assert_eq!(run.snapshot().status, "error");
    assert_eq!(
        run.snapshot().error.as_deref(),
        Some("Legacy migration read batch: x")
    );
}

#[test]
fn inserted_rows_begin_as_their_type_asks() {
    let items = vec![
        item("a", "user_speech", "猫が好きです"),
        item("b", "ai_response", "返答"),
        item("a", "user_speech", "二度目"),
        item("old", "user_speech", "既存"),
    ];
    let vectors = vec![Some(sound()), None, None, None];
    let admissions = vec![
        SummaryAdmission::Eligible,
        SummaryAdmission::NotApplicable,
        SummaryAdmission::Eligible,
        SummaryAdmission::Eligible,
    ];
    let existing = vec!["old".to_string()];
    let (rows, places) =
        insert_on_table(&items, &vectors, &admissions, &existing, false, true).unwrap();
    assert_eq!(places, vec![0, 1]);
    assert_eq!(rows[0].summary_status.as_deref(), Some("pending"));
    assert_eq!(rows[0].vector_source.as_deref(), Some("document"));
    assert!(rows[1].summary_status.is_none());
    assert_eq!(rows[1].vector_source.as_deref(), Some("none"));
    assert!(rows[0].summary.is_none());
    let (rows, places) =
        insert_on_table(&items, &vectors, &admissions, &existing, true, false).unwrap();
    assert_eq!(places, vec![0, 1, 2, 3]);
    assert!(rows
        .iter()
        .all(|row| row.summary_status.as_deref() == Some("legacy")));
    assert_eq!(
        insert_on_table(&items, &vec![None], &admissions, &existing, false, true).err(),
        Some("Vector count mismatch: expected 4, got 1".to_string())
    );
}

#[test]
fn missing_vectors_are_filled_up() {
    assert_eq!(insert_memory_batch_nullable(0, None), Ok(None));
    assert_eq!(
        insert_memory_batch_nullable(2, None),
        Ok(Some(vec![None, None]))
    );
    assert!(insert_memory_batch_nullable(2, Some(vec![None])).is_err());
    assert_eq!(
        insert_memory_batch_nullable(1, Some(vec![Some(sound())])),
        Ok(Some(vec![Some(sound())]))
    );
}

#[test]
fn event_lookup_bridges_canonical_id_to_legacy_projection_id() {
    let legacy_id = "legacy-retry-event";
    let mut legacy = row(legacy_id, None);
    legacy.document = "immutable raw text".to_string();
    let canonical = "2f1c6a52-0000-5000-8000-000000000001";
    let rows = vec![row("other", None), legacy];
    let ids = vec!["c-other".to_string(), canonical.to_string()];
    assert_eq!(get_memory_by_event_id(&rows, &ids, canonical, canonical), Some(1));
    assert_eq!(get_memory_by_event_id(&rows, &ids, legacy_id, canonical), Some(1));
}

#[test]
fn the_row_of_an_event_is_its_own_or_the_newest() {
    let at = |id: &str, time: &str| {
        let mut found = row(id, None);
        found.timestamp = time.to_string();
        found
    };
    let rows = vec![at("a", "1"), at("b", "3"), at("c", "2"), at("d", "3")];
    let ids: Vec<String> = ["k", "k", "k", "k"].iter().map(|id| id.to_string()).collect();
    assert_eq!(get_memory_by_event_id(&rows, &ids, "c", "k"), Some(2));
    assert_eq!(get_memory_by_event_id(&rows, &ids, "x", "k"), Some(1));
    assert_eq!(get_memory_by_event_id(&rows, &ids, "x", "y"), None);
}

#[test]
fn deleted_memories_are_counted_once() {
    let words = |list: &[&str]| -> Vec<String> { list.iter().map(|w| w.to_string()).collect() };
    let deleted = delete_memories_bulk(&words(&["a", "x", "b", "a"]), &words(&["b", "a", "b"]));
    assert_eq!(deleted.ids, words(&["a", "b", "a"]));
    assert_eq!(deleted.count, 2);
    assert_eq!(delete_memories_bulk(&words(&["a"]), &Vec::new()).count, 0);
}

#[test]
fn a_summary_is_put_into_a_pending_row() {
    let eligible = SummaryAdmission::Eligible;
    assert_eq!(
        apply_summary(Some(&row("a", Some("pending"))), eligible),
        RowStep::Write
    );
    assert_eq!(
        apply_summary(Some(&row("a", Some("completed"))), eligible),
        RowStep::Answer(true)
    );
    assert_eq!(
        apply_summary(Some(&row("a", None)), eligible),
        RowStep::Answer(false)
    );
    assert_eq!(
        apply_summary(
            Some(&row("a", Some("pending"))),
            SummaryAdmission::NotApplicable
        ),
        RowStep::Answer(false)
    );
}

#[test]
fn a_missing_row_gets_no_summary() {
    assert_eq!(
        apply_summary(None, SummaryAdmission::Eligible),
        RowStep::Answer(false)
    );
}

#[test]
fn summaries_are_checked_before_they_are_stored() {
    assert_eq!(
        check_summary(" \n", None),
        Err("summary must not be empty".to_string())
    );
    assert_eq!(
        check_summary(
            "x",
            Some(VectorShape {
                len: 2,
                all_finite: true
            })
        ),
        Err("Invalid summary vector: Vector length mismatch: expected 768, got 2".to_string())
    );
    assert!(check_summary("x", Some(sound())).is_ok());
    assert_eq!(
        check_document_vector(VectorShape {
            len: 768,
            all_finite: false
        }),
        Err("Invalid document vector: Vector values must be finite".to_string())
    );
}

#[test]
fn statuses_are_marked_once() {
    let eligible = SummaryAdmission::Eligible;
    let pending = row("a", Some("pending"));
    assert_eq!(mark_summary_skipped(Some(&pending), eligible), RowStep::Write);
    assert_eq!(mark_summary_fallback(Some(&pending), eligible), RowStep::Write);
    assert_eq!(mark_summary_error(Some(&pending), eligible), RowStep::Write);
    assert_eq!(
        mark_summary_skipped(Some(&row("a", Some("skipped"))), eligible),
        RowStep::Answer(true)
    );
    assert_eq!(
        mark_summary_skipped(Some(&row("a", Some("completed"))), eligible),
        RowStep::Answer(false)
    );
    assert_eq!(
        mark_summary_error(Some(&pending), SummaryAdmission::Invalid),
        RowStep::Answer(false)
    );
    assert!(update_settled(1, None, "skipped"));
    assert!(!update_settled(0, None, "skipped"));
    assert!(update_settled(0, Some(&row("a", Some("skipped"))), "skipped"));
}

#[test]
fn ended_summaries_are_opened_again() {
    let eligible = SummaryAdmission::Eligible;
    for status in ["skipped", "fallback", "error"] {
        assert_eq!(
            retry_summary(Some(&row("a", Some(status))), eligible),
            RowStep::Write
        );
    }
    assert_eq!(
        retry_summary(Some(&row("a", Some("pending"))), eligible),
        RowStep::Answer(true)
    );
    assert_eq!(
        retry_summary(Some(&row("a", Some("completed"))), eligible),
        RowStep::Answer(false)
    );
    assert_eq!(attempt_name("retry", "77"), "retry-77");
    assert!(journal_is_pending(Some(&journal("pending", None))));
    assert!(!journal_is_pending(None));
}

#[test]
fn deleted_summaries_are_not_queued() {
    let eligible = SummaryAdmission::Eligible;
    let legacy = row("a", Some("legacy"));
    assert_eq!(
        queue_summary_backfill(Some(&legacy), eligible, Some(&journal("deleted", None))),
        QueueStep::Leave
    );
    assert_eq!(
        queue_summary_backfill(
            Some(&legacy),
            eligible,
            Some(&journal("skipped", Some("policy_excluded")))
        ),
        QueueStep::Leave
    );
    assert_eq!(
        queue_summary_backfill(Some(&legacy), eligible, Some(&journal("pending", None))),
        QueueStep::Update
    );
    assert_eq!(
        queue_summary_backfill(Some(&legacy), eligible, None),
        QueueStep::AppendAttempt
    );
    assert_eq!(
        queue_summary_backfill(Some(&row("a", None)), eligible, None),
        QueueStep::Append
    );
    assert_eq!(
        queue_summary_backfill(Some(&row("a", Some("pending"))), eligible, None),
        QueueStep::Leave
    );
    assert_eq!(
        queue_summary_backfill(Some(&legacy), SummaryAdmission::Invalid, None),
        QueueStep::Leave
    );
    assert_eq!(
        queue_summary_backfill(None, eligible, None),
        QueueStep::Leave
    );
}

#[test]
fn pending_rows_are_listed_by_their_identifiers() {
    let rows = vec![row("c", None), row("a", None), row("b", None), row("0", None)];
    let admissions = vec![
        SummaryAdmission::Eligible,
        SummaryAdmission::Invalid,
        SummaryAdmission::Eligible,
        SummaryAdmission::Eligible,
    ];
    assert_eq!(list_pending_summaries(&rows, &admissions, 10), vec![3, 2, 0]);
    assert_eq!(list_pending_summaries(&rows, &admissions, 2), vec![2, 0]);
    assert!(list_pending_summaries(&rows, &admissions, 0).is_empty());
}

fn versioned(status: &str, version: &str) -> JournalStatus {
    JournalStatus {
        status: status.to_string(),
        model_id: None,
        prompt_version: Some(version.to_string()),
        reason: None,
    }
}

#[test]
fn a_new_contract_opens_ended_rows() {
    let eligible = SummaryAdmission::Eligible;
    let plain = row("a", Some("completed"));
    assert!(summary_backfill_snapshot_candidate(&plain, eligible, None));
    assert!(!summary_backfill_snapshot_candidate(
        &plain,
        eligible,
        Some(&versioned("skipped", "v3"))
    ));
    assert!(summary_backfill_snapshot_candidate(
        &plain,
        eligible,
        Some(&versioned("skipped", "v2"))
    ));
    assert!(!summary_backfill_snapshot_candidate(
        &plain,
        eligible,
        Some(&versioned("deleted", "v2"))
    ));
    assert!(!summary_backfill_snapshot_candidate(
        &plain,
        SummaryAdmission::Invalid,
        None
    ));
    let mut stale = row("a", Some("fallback"));
    assert!(!summary_backfill_snapshot_candidate(&stale, eligible, None));
    stale.summary_prompt_version = Some("v1".to_string());
    assert!(summary_backfill_snapshot_candidate(&stale, eligible, None));
}

#[test]
fn explicit_backfill_requeues_legacy_auto_fact_for_v2_repair() {
    let mut stored = row("legacy-auto-fact", None);
    stored.document = "元の本文".to_string();
    let facts = vec![FactEntry {
        key: "summary-legacy-auto-fact".to_string(),
        event_id: "legacy-auto-fact".to_string(),
        repairable: true,
    }];
    let rows = vec![stored];
    let places = queue_candidates(
        &facts,
        &Vec::new(),
        &vec!["legacy-auto-fact".to_string()],
        &rows,
        &vec![SummaryAdmission::Eligible],
    );
    assert_eq!(places, vec![0]);
    let mut run = QueueRun::new(vec![QueuedRow {
        id: rows[places[0]].id.clone(),
        status: rows[places[0]].summary_status.clone(),
    }]);
    assert!(run.updated(1));
    assert_eq!(run.finish(), vec!["legacy-auto-fact".to_string()]);
    assert_eq!(queued_status("legacy-auto-fact", "u").status, "pending");
}

#[test]
fn facts_and_deletions_decide_what_is_queued() {
    let fact = |key: &str, event: &str, repairable| FactEntry {
        key: key.to_string(),
        event_id: event.to_string(),
        repairable,
    };
    let facts = vec![
        fact("summary-1", "e0", true),
        fact("summary-2", "e1", false),
        fact("note", "e2", false),
    ];
    let entries = vec![JournalEntry {
        event_id: "e3".to_string(),
        status: journal("deleted", None),
    }];
    let event_ids: Vec<String> = (0..5).map(|n| format!("e{n}")).collect();
    let rows: Vec<StoredMemory> = (0..5).map(|n| row(&format!("r{n}"), None)).collect();
    let mut admissions = vec![SummaryAdmission::Eligible; 5];
    admissions[4] = SummaryAdmission::NotApplicable;
    assert_eq!(
        queue_candidates(&facts, &entries, &event_ids, &rows, &admissions),
        vec![0, 2]
    );
}

#[test]
fn queued_rows_go_to_the_table_in_chunks() {
    let status = queued_status("r1", "u");
    assert_eq!(status.entity_id, "r1");
    assert_eq!(status.status, "pending");
    assert_eq!(status.model_id.as_deref(), Some("gemma-3-1b-it-Q4_K_S.gguf"));
    assert_eq!(status.prompt_version.as_deref(), Some("v3"));
    assert_eq!(status.attempt_id.as_deref(), Some("attempt-u"));
    assert!(status.reason.is_none());
    let count = SUMMARY_QUEUE_PROJECTION_CHUNK_SIZE + 2;
    let rows: Vec<QueuedRow> = (0..count)
        .map(|n| QueuedRow {
            id: format!("r{n:04}"),
            status: if n == 0 { Some("it's".to_string()) } else { None },
        })
        .collect();
    let mut run = QueueRun::new(rows);
    let guards = run.next_guards().expect("a first chunk");
    assert!(guards.starts_with(
        "(id = 'r0000' AND summary_status = 'it''s') OR (id = 'r0001' AND summary_status IS NULL)"
    ));
    assert_eq!(run.chunk_ids().len(), SUMMARY_QUEUE_PROJECTION_CHUNK_SIZE);
    assert!(run.updated(SUMMARY_QUEUE_PROJECTION_CHUNK_SIZE as u64));
    assert_eq!(
        run.next_guards().as_deref(),
        Some(
            "(id = 'r0256' AND summary_status IS NULL) OR (id = 'r0257' AND summary_status IS NULL)"
        )
    );
    assert!(!run.updated(1));
    run.verified(&vec![row("r0257", Some("pending")), row("r0256", Some("completed"))]);
    assert!(run.next_guards().is_none());
    let admitted = run.finish();
    assert_eq!(admitted.len(), SUMMARY_QUEUE_PROJECTION_CHUNK_SIZE + 1);
    assert_eq!(admitted.last().map(|id| id.as_str()), Some("r0257"));
    assert!(admitted.iter().all(|id| (0..count).any(|n| *id == format!("r{n:04}"))));
}

fn terminal(id: &str, status: &str, reason: Option<&str>) -> SummaryStatusBatchInput {
    SummaryStatusBatchInput {
        entity_id: id.to_string(),
        status: status.to_string(),
        model_id: None,
        prompt_version: None,
        attempt_id: None,
        reason: reason.map(|reason| reason.to_string()),
    }
}

#[test]
fn outcomes_of_a_batch_are_statuses_with_reasons() {
    let statuses = statuses_with_reasons(
        &vec!["s".to_string()],
        &vec![FallbackReason {
            entity_id: "f".to_string(),
            reason: "timeout".to_string(),
        }],
    );
    assert_eq!(statuses.len(), 2);
    assert_eq!(statuses[0].status, "skipped");
    assert_eq!(statuses[0].reason.as_deref(), Some("model_declined"));
    assert_eq!(statuses[0].prompt_version.as_deref(), Some("v3"));
    assert!(statuses[0].attempt_id.is_none());
    assert_eq!(statuses[1].status, "fallback");
    assert_eq!(statuses[1].reason.as_deref(), Some("timeout"));
    let plain = statuses_without_reasons(&Vec::new(), &vec!["f".to_string()]);
    assert_eq!(plain[0].reason.as_deref(), Some("inference_failed"));
}

#[test]
fn a_batch_reports_what_was_excluded() {
    let requested = vec![terminal("s1", "skipped", None), terminal("f1", "fallback", None)];
    let outcome = BatchOutcome {
        completed_ids: vec!["c1".to_string(), "c2".to_string()],
        terminal_statuses: vec![
            terminal("s1", "skipped", Some("model_declined")),
            terminal("s2", "skipped", Some("policy_excluded")),
            terminal("f1", "fallback", None),
            terminal("f2", "error", Some("invalid_embedding")),
            terminal("f3", "fallback", Some("empty_summary")),
            terminal("f4", "fallback", Some("fact_validation_failed")),
        ],
    };
    let result = batch_result(&requested, &outcome, Some("projection".to_string()));
    assert_eq!(result.persisted, 2);
    assert_eq!(result.terminal_skipped, 1);
    assert_eq!(result.terminal_failed, 3);
    assert_eq!(result.policy_excluded, 1);
    assert_eq!(result.projection_error.as_deref(), Some("projection"));
    let reasons: Vec<&str> = result
        .exclusions
        .iter()
        .map(|exclusion| exclusion.reason.as_str())
        .collect();
    assert_eq!(
        reasons,
        vec![
            "プライバシーポリシーに抵触したため永続化対象外 (policy_excluded)",
            "埋め込みベクトルが不正なため永続化対象外 (invalid_embedding)",
            "要約が空だったため永続化対象外 (empty_summary)",
            "事実の検証に失敗したため永続化対象外 (fact_validation_failed)",
        ]
    );
    assert_eq!(result.exclusions[0].entity_id, "s2");
    let counted = with_supplied_counts(result, &requested);
    assert_eq!(counted.terminal_skipped, 2);
    assert_eq!(counted.terminal_failed, 4);
    let nothing = SummaryBackfillApplyResult::default();
    assert_eq!(nothing.persisted, 0);
    assert!(nothing.exclusions.is_empty());
}

#[test]
fn completed_rows_are_updated_from_the_journal() {
    let inputs = vec![
        single_summary("a'", "it's", Some(4)),
        single_summary("b", "s", None),
        single_summary("c", "s", None),
    ];
    assert_eq!(inputs[0].model_id.as_deref(), Some("gemma-3-1b-it-Q4_K_S.gguf"));
    let event_ids: Vec<String> = ["ea", "eb", "ec"].iter().map(|id| id.to_string()).collect();
    let mut known = journal("completed", None);
    known.model_id = Some("m".to_string());
    let entries = vec![
        JournalEntry {
            event_id: "ea".to_string(),
            status: known,
        },
        JournalEntry {
            event_id: "eb".to_string(),
            status: journal("skipped", None),
        },
        JournalEntry {
            event_id: "ec".to_string(),
            status: journal("completed", None),
        },
    ];
    let updates = completed_updates(
        &inputs,
        &event_ids,
        &vec!["a'".to_string(), "b".to_string()],
        &entries,
    );
    assert_eq!(updates.len(), 1);
    assert_eq!(
        updates[0].condition,
        "id = 'a''' AND summary_status = 'pending'"
    );
    let columns: Vec<(&str, &str)> = updates[0]
        .columns
        .iter()
        .map(|column| (column.column, column.value.as_str()))
        .collect();
    assert_eq!(
        columns,
        vec![
            ("summary", "'it''s'"),
            ("summary_status", "'completed'"),
            ("summary_model", "'m'"),
            ("vector_source", "'summary'"),
        ]
    );
    assert_eq!(updates[0].vector, Some(4));
}

#[test]
fn reason_bearing_statuses_reach_their_rows() {
    let ended = |id: &str, model: &str, attempt: &str, reason: &str| SummaryStatusBatchInput {
        entity_id: id.to_string(),
        status: "fallback".to_string(),
        model_id: Some(model.to_string()),
        prompt_version: Some("v3".to_string()),
        attempt_id: Some(attempt.to_string()),
        reason: Some(reason.to_string()),
    };
    let metadata = ("metadata-reason", "gemma-metadata-test", "attempt-metadata-reason");
    let grounding = ("grounding-reason", "gemma-grounding-test", "attempt-grounding-reason");
    let statuses = || {
        vec![
            ended(metadata.0, metadata.1, metadata.2, "metadata_echo"),
            ended(grounding.0, grounding.1, grounding.2, "ungrounded_summary"),
        ]
    };
    let outcome = BatchOutcome { completed_ids: Vec::new(), terminal_statuses: statuses() };
    let result = with_supplied_counts(batch_result(&statuses(), &outcome, None), &statuses());
    assert_eq!(result.terminal_failed, 2);
    let entries: Vec<JournalEntry> = statuses()
        .into_iter()
        .map(|status| JournalEntry {
            event_id: status.entity_id,
            status: JournalStatus {
                status: status.status,
                model_id: status.model_id,
                prompt_version: status.prompt_version,
                reason: status.reason,
            },
        })
        .collect();
    let event_ids: Vec<String> = entries.iter().map(|entry| entry.event_id.clone()).collect();
    let groups = status_groups(&outcome.terminal_statuses, &event_ids, &entries);
    assert_eq!(groups.len(), 2);
    for (id, model, _) in [metadata, grounding] {
        let group = groups.iter().find(|group| group.ids == vec![id.to_string()]).unwrap();
        let update = update_of_group(group).unwrap();
        let columns: Vec<(&str, String)> =
            update.columns.iter().map(|column| (column.column, column.value.clone())).collect();
        assert_eq!(
            columns,
            vec![
                ("summary_status", "'fallback'".to_string()),
                ("summary_model", format!("'{model}'")),
                ("summary_prompt_version", "'v3'".to_string()),
            ]
        );
    }
}

#[test]
fn statuses_are_grouped_by_what_they_set() {
    let statuses = vec![
        terminal("a", "skipped", None),
        terminal("b", "fallback", None),
        terminal("c", "skipped", None),
        terminal("a", "fallback", None),
        terminal("d", "pending", None),
        terminal("e", "skipped", None),
    ];
    let event_ids: Vec<String> = ["a", "b", "c", "a", "d", "e"]
        .iter()
        .map(|id| id.to_string())
        .collect();
    let entries: Vec<JournalEntry> = [("a", "skipped"), ("b", "fallback"), ("c", "skipped")]
        .iter()
        .map(|(id, status)| JournalEntry {
            event_id: id.to_string(),
            status: journal(status, None),
        })
        .collect();
    let groups = status_groups(&statuses, &event_ids, &entries);
    assert_eq!(groups.len(), 2);
    let skipped = groups
        .iter()
        .find(|group| group.status == "skipped")
        .unwrap();
    assert_eq!(skipped.ids, vec!["a".to_string(), "c".to_string()]);
    let update = update_of_group(skipped).unwrap();
    assert_eq!(
        update.condition,
        "id IN ('a', 'c') AND summary_status = 'pending'"
    );
    assert_eq!(update.columns.len(), 1);
    assert_eq!(update.columns[0].value, "'skipped'");
}
