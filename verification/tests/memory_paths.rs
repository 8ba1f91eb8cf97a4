use gameassistant::backup_run::{
    backup_lance_db, BackupAnswer, BackupPoint, BackupRun,
};
use gameassistant::clock::file_time_now;
use gameassistant::lance_memory::{
    backup_name, backups_to_remove, list_lance_backups, validate_memory_id,
    validate_no_reparse_components, validate_path_inside_root, validate_root_dir,
    validate_safe_backup_name, validate_safe_component, BackupEntry, FoundComponent, PathPart,
    PathShape,
};
use gameassistant::memory_table::{
    child_label, copy_dir_all, copy_entry, export_lance_memories_json, exported_message,
    preserve_raw_document, update_memory_document, validate_copy_tree, CopyStep, EntryKind,
};
use gameassistant::restore_run::{restore_lance_backup, RestoreAnswer, RestorePoint, RestoreRun};

fn shape(absolute: bool, names: &[&str]) -> PathShape {
    let mut parts = Vec::new();
    if absolute {
        parts.push(PathPart::Root("/".to_string()));
    }
    for name in names {
        parts.push(match *name {
            "." => PathPart::CurDir,
            ".." => PathPart::ParentDir,
            other => PathPart::Normal(other.to_string()),
        });
    }
    PathShape { absolute, parts }
}

#[test]
fn roots_are_absolute_plain_and_free_of_links() {
    let clean = vec![FoundComponent::Missing, FoundComponent::Plain];
    assert!(validate_root_dir(&shape(true, &["app"]), &clean).is_ok());
    assert_eq!(
        validate_root_dir(&shape(false, &["app"]), &clean),
        Err("LanceDB root must be absolute".to_string())
    );
    assert_eq!(
        validate_root_dir(&shape(true, &["app", "..", "x"]), &clean),
        Err("LanceDB root must not contain traversal components".to_string())
    );
    assert_eq!(
        validate_root_dir(&shape(true, &["app"]), &vec![FoundComponent::Missing, FoundComponent::Plain, FoundComponent::Link]),
        Err("LanceDB root must not contain links or reparse points".to_string())
    );
    assert_eq!(
        validate_no_reparse_components(
            &vec![FoundComponent::Failed("denied".to_string()), FoundComponent::Link],
            "Export"
        ),
        Err("Failed to inspect Export: denied".to_string())
    );
}

#[test]
fn paths_stay_inside_their_root() {
    let root = shape(true, &["app"]);
    let clean = vec![FoundComponent::Missing, FoundComponent::Plain];
    assert!(validate_path_inside_root(&root, &clean, &shape(true, &["app", "data"]), &clean, "D")
        .is_ok());
    assert_eq!(
        validate_path_inside_root(
            &root,
            &clean,
            &shape(true, &["app", "..", "data"]),
            &clean,
            "D"
        ),
        Err("D must not contain traversal components".to_string())
    );
    assert_eq!(
        validate_path_inside_root(&root, &clean, &shape(true, &["apple"]), &clean, "D"),
        Err("D must remain inside the LanceDB root".to_string())
    );
    assert_eq!(
        validate_path_inside_root(
            &root,
            &clean,
            &shape(true, &["app", "data"]),
            &vec![FoundComponent::Missing, FoundComponent::Plain, FoundComponent::Link],
            "D"
        ),
        Err("D must not contain links or reparse points".to_string())
    );
    assert_eq!(
        validate_path_inside_root(
            &shape(false, &["app"]),
            &clean,
            &shape(true, &["app", "data"]),
            &clean,
            "D"
        ),
        Err("LanceDB root must be absolute".to_string())
    );
}

#[test]
fn names_are_single_components() {
    assert!(validate_safe_component("a b.json", "F").is_ok());
    for name in ["", ".", "..", "a/b", "a\\b", "c:", "a\0"] {
        assert_eq!(
            validate_safe_component(name, "F"),
            Err("F must be a single safe component".to_string()),
            "{name:?}"
        );
    }
    assert!(validate_safe_backup_name("backup_2026-1").is_ok());
    assert!(validate_safe_backup_name("backup.1").is_err());
    assert!(validate_memory_id("id-1_A").is_ok());
    assert_eq!(
        validate_memory_id(""),
        Err("memory id cannot be used for a raw document backup".to_string())
    );
}

fn directory(name: &str) -> BackupEntry {
    BackupEntry::Directory(name.to_string())
}

#[test]
fn backups_of_one_second_have_different_names() {
    let first = backup_name("20260102_030405", "aaaa");
    let second = backup_name("20260102_030405", "bbbb");
    assert_ne!(first, second);
    assert!(first.starts_with("backup_"));
    assert!(second.starts_with("backup_"));
    assert_eq!(
        list_lance_backups(&vec![directory(&first), BackupEntry::Other, directory(&second)])
            .unwrap()
            .len(),
        2
    );
}

#[test]
fn the_newest_five_backups_are_kept() {
    let names = ["b4", "b1", "b6", "b3", "b7", "b2", "b5"];
    let entries: Vec<BackupEntry> = names.iter().map(|name| directory(name)).collect();
    assert_eq!(
        backups_to_remove(&entries, "b7"),
        Ok(vec!["b1".to_string(), "b2".to_string()])
    );
    assert_eq!(
        backups_to_remove(&entries, "b1"),
        Ok(vec!["b2".to_string(), "b3".to_string()])
    );
    assert_eq!(
        list_lance_backups(&entries),
        Ok(vec!["b7", "b6", "b5", "b4", "b3", "b2", "b1"]
            .into_iter()
            .map(|name| name.to_string())
            .collect())
    );
    assert_eq!(backups_to_remove(&vec![directory("b1")], "b1"), Ok(Vec::new()));
}

#[test]
fn a_new_backup_survives_whatever_its_suffix() {
    let second = "20260102_030405";
    let names: Vec<String> =
        ["b", "c", "d", "e", "f"].iter().map(|suffix| backup_name(second, suffix)).collect();
    let made = backup_name(second, "a");
    let mut entries: Vec<BackupEntry> = names.iter().map(|name| directory(name)).collect();
    entries.push(directory(&made));
    assert_eq!(backups_to_remove(&entries, &made), Ok(vec![names[0].clone()]));
    assert_eq!(backups_to_remove(&entries[1..].iter().map(|entry| match entry {
        BackupEntry::Directory(name) => directory(name),
        _ => BackupEntry::Other,
    }).collect(), &made), Ok(Vec::new()));
}

#[test]
fn strange_entries_among_the_backups_are_refused() {
    assert_eq!(
        list_lance_backups(&vec![directory("b1"), BackupEntry::Link]),
        Err("LanceDB backup directory must not contain links or reparse points".to_string())
    );
    assert_eq!(
        list_lance_backups(&vec![BackupEntry::Unnamed, BackupEntry::Link]),
        Err("LanceDB backup name is not valid UTF-8".to_string())
    );
    assert_eq!(
        backups_to_remove(&vec![directory("a b")], "b1"),
        Err("Backup name must be a single safe component".to_string())
    );
    assert_eq!(
        backups_to_remove(&vec![BackupEntry::Unknown("lost".to_string())], "b1"),
        Err("lost".to_string())
    );
}

fn snapshot_at(now: &str) -> BackupRun {
    backup_lance_db(&shape(true, &["app"]), &Vec::new(), now).expect("the root is plain")
}

/// Answers every step with a success until the given one is reached.
fn made_until(run: &mut BackupRun, wanted: BackupPoint) {
    while run.point() != wanted {
        match run.point() {
            BackupPoint::Name => run.set_name("aaaa"),
            BackupPoint::Prune => {
                run.prune(None);
            }
            BackupPoint::Done | BackupPoint::Failed => panic!("the snapshot has ended"),
            _ => run.answered(BackupAnswer::Done),
        }
    }
}

#[test]
fn a_snapshot_copies_tables_and_journal_before_old_ones_go() {
    let mut run = snapshot_at("20260102_030405");
    let mut points = Vec::new();
    while run.point() != BackupPoint::Prune {
        points.push(run.point());
        match run.point() {
            BackupPoint::Name => run.set_name("aaaa"),
            _ => run.answered(BackupAnswer::Done),
        }
    }
    assert_eq!(
        points,
        vec![
            BackupPoint::CheckDatabase,
            BackupPoint::FindDatabase,
            BackupPoint::CheckDatabaseTree,
            BackupPoint::CheckBackups,
            BackupPoint::CreateBackups,
            BackupPoint::CheckBackupsAgain,
            BackupPoint::Name,
            BackupPoint::CheckTarget,
            BackupPoint::Reserve,
            BackupPoint::CopyDatabase,
            BackupPoint::CheckJournal,
            BackupPoint::FindJournal,
            BackupPoint::CheckJournalTree,
            BackupPoint::CheckJournalTarget,
            BackupPoint::CopyJournal,
        ]
    );
    assert_eq!(run.name(), Some("backup_20260102_030405_aaaa"));
    let mut entries: Vec<BackupEntry> = (0..5).map(|n| directory(&format!("z{n}"))).collect();
    entries.push(directory("backup_20260102_030405_aaaa"));
    assert_eq!(run.prune(Some(&entries)), vec!["z0".to_string()]);
    assert_eq!(run.point(), BackupPoint::Done);
    assert_eq!(run.error(), None);
}

#[test]
fn a_snapshot_without_a_journal_holds_the_tables() {
    let mut run = snapshot_at("20260102_030405");
    made_until(&mut run, BackupPoint::FindJournal);
    run.answered(BackupAnswer::Absent);
    assert_eq!(run.point(), BackupPoint::Prune);
    assert!(run.prune(None).is_empty());
    assert_eq!(run.point(), BackupPoint::Done);
}

#[test]
fn a_taken_name_is_drawn_again() {
    let mut run = snapshot_at(&file_time_now());
    made_until(&mut run, BackupPoint::Name);
    run.draw_name();
    let first = run.name().expect("a name").to_string();
    assert_eq!(first.len(), 7 + 15 + 1 + 32);
    run.answered(BackupAnswer::Done);
    run.answered(BackupAnswer::Taken);
    assert_eq!(run.point(), BackupPoint::Name);
    assert_eq!(run.name(), None);
    run.draw_name();
    assert_ne!(run.name(), Some(first.as_str()));
    let mut late = snapshot_at("+120260102_030405");
    made_until(&mut late, BackupPoint::Name);
    late.draw_name();
    assert_eq!(late.error(), Some("Backup name must be a single safe component"));
}

#[test]
fn failed_snapshots_tell_why() {
    let failed = || BackupAnswer::Failed("denied".to_string());
    for (point, error) in [
        (BackupPoint::CheckDatabase, "denied"),
        (BackupPoint::Reserve, "Failed to create LanceDB backup target: denied"),
        (BackupPoint::CopyDatabase, "Failed to copy LanceDB snapshot: denied"),
        (BackupPoint::CopyJournal, "Failed to copy memory-v2 snapshot: denied"),
    ] {
        let mut run = snapshot_at("20260102_030405");
        made_until(&mut run, point);
        run.answered(failed());
        assert_eq!(run.point(), BackupPoint::Failed);
        assert_eq!(run.error(), Some(error));
    }
    let mut missing = snapshot_at("20260102_030405");
    made_until(&mut missing, BackupPoint::FindDatabase);
    missing.answered(BackupAnswer::Absent);
    assert_eq!(missing.error(), Some("LanceDB directory does not exist"));
    let mut ignored = snapshot_at("20260102_030405");
    made_until(&mut ignored, BackupPoint::CreateBackups);
    ignored.answered(failed());
    assert_eq!(ignored.point(), BackupPoint::CheckBackupsAgain);
    let mut strange = snapshot_at("20260102_030405");
    made_until(&mut strange, BackupPoint::Prune);
    assert!(strange.prune(Some(&vec![BackupEntry::Link])).is_empty());
    assert_eq!(
        strange.error(),
        Some("LanceDB backup directory must not contain links or reparse points")
    );
    assert!(backup_lance_db(&shape(false, &["app"]), &Vec::new(), "t").is_err());
}

fn restore_of(name: &str) -> Result<RestoreRun, String> {
    restore_lance_backup(&shape(true, &["app"]), &Vec::new(), name)
}

#[test]
fn a_backup_is_restored_by_its_trimmed_name() {
    assert_eq!(restore_of(" b1 ").expect("a plain name").name(), "b1");
    assert_eq!(
        restore_of("a/b").err().as_deref(),
        Some("Backup name must be a single safe component")
    );
    assert_eq!(
        restore_lance_backup(&shape(false, &["app"]), &Vec::new(), "a/b").err().as_deref(),
        Some("LanceDB root must be absolute")
    );
}

#[test]
fn nothing_is_cleared_before_a_snapshot_is_checked() {
    let mut run = restore_of("b1").expect("a plain name");
    let mut points = Vec::new();
    while run.point() != RestorePoint::Done {
        points.push(run.point());
        run.answered(RestoreAnswer::Done);
    }
    assert_eq!(
        points,
        vec![
            RestorePoint::CheckBackups,
            RestorePoint::CheckBackup,
            RestorePoint::FindBackup,
            RestorePoint::CheckBackupTree,
            RestorePoint::FindJournal,
            RestorePoint::CheckJournalBackup,
            RestorePoint::CheckJournalTree,
            RestorePoint::CheckDatabase,
            RestorePoint::ClearDatabase,
            RestorePoint::CopyDatabase,
            RestorePoint::CheckEmbedded,
            RestorePoint::ClearEmbedded,
            RestorePoint::CheckJournal,
            RestorePoint::ClearJournal,
            RestorePoint::CopyJournal,
        ]
    );
    for (point, answer, error) in [
        (RestorePoint::FindBackup, RestoreAnswer::Absent, "Backup folder 'b1' not found"),
        (
            RestorePoint::FindJournal,
            RestoreAnswer::Absent,
            "Backup does not contain the memory-v2 journal/manifest snapshot",
        ),
        (
            RestorePoint::CheckJournalTree,
            RestoreAnswer::Failed("links".to_string()),
            "links",
        ),
        (
            RestorePoint::ClearDatabase,
            RestoreAnswer::Failed("e".to_string()),
            "Failed to clear current LanceDB dir: e",
        ),
        (
            RestorePoint::CopyDatabase,
            RestoreAnswer::Failed("e".to_string()),
            "Failed to restore backup: e",
        ),
        (
            RestorePoint::ClearEmbedded,
            RestoreAnswer::Failed("e".to_string()),
            "Failed to clear embedded memory-v2 backup: e",
        ),
        (
            RestorePoint::ClearJournal,
            RestoreAnswer::Failed("e".to_string()),
            "Failed to clear current memory-v2 dir: e",
        ),
        (
            RestorePoint::CopyJournal,
            RestoreAnswer::Failed("e".to_string()),
            "Failed to restore memory-v2 snapshot: e",
        ),
    ] {
        let mut run = restore_of("b1").expect("a plain name");
        while run.point() != point {
            run.answered(RestoreAnswer::Done);
        }
        run.answered(answer);
        assert_eq!(run.point(), RestorePoint::Failed);
        assert_eq!(run.error(), Some(error));
    }
    let mut empty = restore_of("b1").expect("a plain name");
    while empty.point() != RestorePoint::ClearDatabase {
        empty.answered(RestoreAnswer::Done);
    }
    empty.answered(RestoreAnswer::Absent);
    assert_eq!(empty.point(), RestorePoint::CopyDatabase);
}

#[test]
fn only_plain_trees_are_copied() {
    assert_eq!(validate_copy_tree(&EntryKind::Directory, "T", true), Ok(true));
    assert_eq!(
        validate_copy_tree(&EntryKind::File, "T", true),
        Err("T must be a directory".to_string())
    );
    assert_eq!(validate_copy_tree(&EntryKind::File, "T", false), Ok(false));
    assert_eq!(
        validate_copy_tree(&EntryKind::Link, "T", false),
        Err("T must not contain links or reparse points".to_string())
    );
    assert_eq!(
        validate_copy_tree(&EntryKind::Unknown("no".to_string()), "T", true),
        Err("Failed to inspect T: no".to_string())
    );
    assert_eq!(child_label("T"), "T entry");
    assert!(matches!(
        copy_dir_all(&EntryKind::Directory, false),
        CopyStep::Descend
    ));
    assert!(matches!(
        copy_dir_all(&EntryKind::File, false),
        CopyStep::Refuse("source contains a link, reparse point, or non-directory")
    ));
    assert!(matches!(
        copy_dir_all(&EntryKind::Directory, true),
        CopyStep::Refuse("destination contains a link or reparse point")
    ));
    assert!(matches!(
        copy_entry(&EntryKind::Link, false),
        CopyStep::Refuse("source contains a link or reparse point")
    ));
    assert!(matches!(
        copy_entry(&EntryKind::File, false),
        CopyStep::CopyFile
    ));
    assert!(matches!(
        copy_entry(&EntryKind::Directory, false),
        CopyStep::Descend
    ));
}

#[test]
fn export_rejects_traversal_filename() {
    assert!(export_lance_memories_json(Some("../escape.json".to_string())).is_err());
    assert_eq!(
        export_lance_memories_json(None),
        Ok("lance_export.json".to_string())
    );
    assert_eq!(
        exported_message(3, "\"/a/lance_export.json\""),
        "Exported 3 memories to \"/a/lance_export.json\""
    );
}

#[test]
fn raw_documents_are_kept_under_their_identifier() {
    assert_eq!(
        preserve_raw_document("e-1", 42, "abc"),
        Ok(("e-1.txt".to_string(), ".e-1.tmp-42-abc".to_string()))
    );
    assert_eq!(
        update_memory_document(),
        Err("memory documents are immutable; append a new event instead".to_string())
    );
}
