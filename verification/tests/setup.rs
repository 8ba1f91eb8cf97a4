use gameassistant::bootstrap::{Diagnostic, RuntimeLayout, SetupStage, SetupState};
use gameassistant::digest::{
    append_le, hex_of, requirements_bundle_hash, runtime_validation_fingerprint, scripts_hash,
    sha256_hex, FileStamp, ModelFile, RequiredModel,
};
use gameassistant::paths::RuntimePath;
use gameassistant::setup_run::{SetupPoint, SetupRun};
use gameassistant::setup_status::{
    cancel_setup, exposed_completed_stages, exposed_stage, is_cancelled_error, lock_header,
    lockfile_requirements_match, prepare_runtime, relaunch_setup_elevated,
    setup_in_progress_cancelled, setup_progress, setup_steps, state_metadata_current,
    sync_state_metadata, validated_llama_server_path, CurrentMetadata, SetupControl,
};
use gameassistant::setup_tools::{
    check_extracted, check_probe_python, check_uv, llama_runtime_target, probe_environment,
    resource_targets, runtime_directories, uv_environment, dependency_compile_args, dependency_sync_args, detect_nvidia_gpu,
    ensure_lock_file, extract_embedded_resource, manifest_current, map_io, new_lock_file,
    python_install_args, removes_variable, run_python_probe, run_uv, secret_free_probe_detail,
    uv_command_line, validate_runtime, venv_args, dependencies_present,
    scripts_present, CommandState, CommandStep, Probe, ProbeEnd,
};
use sha2::Digest;

fn current() -> CurrentMetadata {
    CurrentMetadata {
        app_version: "1.0.0".to_string(),
        requirements_sha256: "r".to_string(),
        requirements_bundle_sha256: "b".to_string(),
        uv_sha256: "u".to_string(),
        scripts_sha256: "s".to_string(),
    }
}

fn words(list: &[&str]) -> Vec<String> {
    list.iter().map(|word| word.to_string()).collect()
}

fn value_of<'a>(list: &'a [Diagnostic], key: &str) -> Option<&'a str> {
    list.iter()
        .find(|entry| entry.key == key)
        .map(|entry| entry.value.as_str())
}

fn hashed(bytes: &[u8]) -> String {
    format!("{:x}", sha2::Sha256::digest(bytes))
}

#[test]
fn fingerprints_are_hexadecimal_digests() {
    assert_eq!(
        sha256_hex(b"abc"),
        "ba7816bf8f01cfea414140de5dae2223b00361a396177a9cb410ff61f20015ad"
    );
    assert_eq!(
        sha256_hex(b""),
        "e3b0c44298fc1c149afbf4c8996fb92427ae41e4649b934ca495991b7852b855"
    );
    assert_eq!(hex_of(&vec![0, 10, 255]), "000aff");
    let mut bytes = vec![7];
    append_le(&mut bytes, 0x0102, 4);
    assert_eq!(bytes, vec![7, 2, 1, 0, 0]);
}

#[test]
fn dependency_lists_are_fingerprinted_with_their_lengths() {
    let mut framed: Vec<u8> = Vec::new();
    for list in [&b"plain"[..], b"", b"gpu"] {
        framed.extend_from_slice(&(list.len() as u64).to_le_bytes());
        framed.extend_from_slice(list);
    }
    assert_eq!(
        requirements_bundle_hash(b"plain", b"", b"gpu"),
        hashed(&framed)
    );
    assert_ne!(
        requirements_bundle_hash(b"ab", b"c", b""),
        requirements_bundle_hash(b"a", b"bc", b"")
    );
    assert_eq!(scripts_hash(b"one", b"two"), hashed(b"onetwo"));
}

#[test]
fn the_runtime_is_fingerprinted_by_its_files() {
    let models = vec![RequiredModel {
        id: "m".to_string(),
        files: vec![
            ModelFile {
                relative_path: "a.bin".to_string(),
                stamp: Some(FileStamp {
                    size: 9,
                    modified: Some((5, 6)),
                }),
            },
            ModelFile {
                relative_path: "b.bin".to_string(),
                stamp: Some(FileStamp {
                    size: 1,
                    modified: None,
                }),
            },
            ModelFile {
                relative_path: "c.bin".to_string(),
                stamp: None,
            },
        ],
    }];
    let mut bytes: Vec<u8> = b"reqbundlescripts3.12lockm".to_vec();
    bytes.extend_from_slice(b"a.bin");
    bytes.extend_from_slice(&9u64.to_le_bytes());
    bytes.extend_from_slice(&5u64.to_le_bytes());
    bytes.extend_from_slice(&6u32.to_le_bytes());
    bytes.extend_from_slice(b"b.bin");
    bytes.extend_from_slice(&1u64.to_le_bytes());
    bytes.extend_from_slice(b"c.bin");
    bytes.extend_from_slice(&[0u8; 16]);
    assert_eq!(
        runtime_validation_fingerprint("req", "bundle", "scripts", "3.12", "lock", &models),
        hashed(&bytes)
    );
}

#[test]
fn stages_have_names_and_followers() {
    assert_eq!(SetupStage::Dependencies.as_str(), "dependencies");
    assert_eq!(exposed_stage(SetupStage::Dependencies), "packages");
    assert_eq!(exposed_stage(SetupStage::Resources), "scripts");
    assert_eq!(exposed_stage(SetupStage::Models), "models");
    let mut state = SetupState::fresh("0");
    for stage in [
        SetupStage::Resources,
        SetupStage::Python,
        SetupStage::Venv,
        SetupStage::Dependencies,
        SetupStage::Models,
        SetupStage::Complete,
    ] {
        state.mark_completed(stage, "1");
    }
    assert_eq!(setup_progress(&state), 100);
    state.clear_from(SetupStage::Venv, "2");
    assert!(state.stage_completed(SetupStage::Python));
    assert!(state.stage_completed(SetupStage::Venv));
    assert!(!state.stage_completed(SetupStage::Dependencies));
    assert_eq!(setup_progress(&state), 50);
    assert_eq!(
        exposed_completed_stages(&state),
        words(&["python", "venv", "scripts"])
    );
}

#[test]
fn steps_show_what_runs_and_what_failed() {
    let mut state = SetupState::fresh("0");
    state.mark_completed(SetupStage::Python, "1");
    state.enter_stage(SetupStage::Venv, "2");
    let steps = setup_steps(&state, true);
    let shown: Vec<(&str, &str, u32)> = steps
        .iter()
        .map(|step| (step.id.as_str(), step.status.as_str(), step.progress))
        .collect();
    assert_eq!(
        shown,
        vec![
            ("python", "completed", 100),
            ("venv", "running", 0),
            ("packages", "pending", 0),
            ("scripts", "pending", 0),
            ("models", "pending", 0),
        ]
    );
    state.fail_stage(SetupStage::Venv, "broken", "3");
    let steps = setup_steps(&state, true);
    assert_eq!(steps[1].status, "error");
    assert_eq!(steps[1].error.as_deref(), Some("broken"));
    state.fail_stage(SetupStage::Venv, "setup cancelled; x", "3");
    assert_eq!(setup_steps(&state, true)[1].status, "cancelled");
    assert_eq!(setup_steps(&state, false)[1].status, "pending");
    assert!(is_cancelled_error("setup cancelled by user"));
    assert!(!is_cancelled_error("was setup cancelled"));
}

#[test]
fn a_changed_graphics_card_only_renews_the_packages() {
    let mut state = SetupState::fresh("0");
    sync_state_metadata(&mut state, false, &current(), "1");
    assert!(state_metadata_current(&state, &current()));
    for stage in [
        SetupStage::Resources,
        SetupStage::Python,
        SetupStage::Venv,
        SetupStage::Dependencies,
        SetupStage::Models,
    ] {
        state.mark_completed(stage, "1");
    }
    state.runtime_validation.tokenizer_ready = true;
    sync_state_metadata(&mut state, true, &current(), "2");
    assert!(state.gpu);
    assert!(state.stage_completed(SetupStage::Dependencies));
    assert!(!state.stage_completed(SetupStage::Models));
    assert!(!state.runtime_validation.tokenizer_ready);
    assert_eq!(state.updated_at, "2");
    state.app_version = "0.9.0".to_string();
    assert!(!state_metadata_current(&state, &current()));
}

#[test]
fn preparing_waits_for_the_terms() {
    let mut state = SetupState::fresh("0");
    state.last_error = Some("old".to_string());
    prepare_runtime(&mut state, &current(), false, false, "1");
    assert!(state.stage_completed(SetupStage::Resources));
    assert_eq!(state.current_stage, SetupStage::Pending);
    assert!(state.last_error.is_none());
    let mut state = SetupState::fresh("0");
    prepare_runtime(&mut state, &current(), false, true, "1");
    assert_eq!(state.current_stage, SetupStage::Python);
}

#[test]
fn a_setup_can_be_cancelled() {
    let mut control = SetupControl::new();
    control.begin();
    assert!(control.running());
    assert!(!setup_in_progress_cancelled(&control));
    cancel_setup(&mut control);
    assert!(setup_in_progress_cancelled(&control));
    control.end();
    assert!(!control.running());
    control.begin();
    assert!(!setup_in_progress_cancelled(&control));
}

#[test]
fn more_rights_are_asked_for_on_windows_only() {
    assert_eq!(
        relaunch_setup_elevated(false, 42).err(),
        Some("elevation is only supported on Windows; choose a writable folder".to_string())
    );
    assert_eq!(
        relaunch_setup_elevated(true, 32).err(),
        Some("elevation_required: UAC request was rejected or could not be started".to_string())
    );
    let granted = relaunch_setup_elevated(true, 33).unwrap();
    assert!(granted.launched);
    assert_eq!(
        granted.message,
        "Elevated setup process started; this process remains standard-user."
    );
}

#[test]
fn summary_server_must_be_the_bootstrap_validated_runtime_binary() {
    let layout = RuntimeLayout::for_root(RuntimePath::from_root("C:/app"));
    let mut state = SetupState::fresh("0");
    let embedded: &[u8] = b"server";
    let good = Some(sha256_hex(embedded));
    assert!(
        validated_llama_server_path(&layout, Some(&state), true, Some(embedded), &good).is_none()
    );
    state.mark_completed(SetupStage::Resources, "1");
    assert!(
        validated_llama_server_path(&layout, Some(&state), true, Some(embedded), &good).is_some()
    );
    assert!(validated_llama_server_path(
        &layout,
        Some(&state),
        true,
        Some(embedded),
        &Some(sha256_hex(b"unvalidated"))
    )
    .is_none());
    assert!(
        validated_llama_server_path(&layout, Some(&state), false, Some(embedded), &good).is_none()
    );
    assert!(validated_llama_server_path(&layout, Some(&state), true, None, &good).is_none());
    assert!(validated_llama_server_path(&layout, None, true, Some(embedded), &good).is_none());
}

#[test]
fn a_lock_belongs_to_its_requirements() {
    let header = lock_header("abc");
    assert_eq!(
        header,
        "# GameAssistant uv lock manifest\n# requirements-sha256: abc\n"
    );
    let lock = format!("{header}package==1.0\n");
    assert!(lockfile_requirements_match(Some(&lock), "abc"));
    assert!(!lockfile_requirements_match(Some(&lock), "abd"));
    assert!(!lockfile_requirements_match(None, "abc"));
    let requirements = b"torch==2\n";
    let wanted = lock_header(&sha256_hex(requirements));
    assert_eq!(ensure_lock_file(requirements, None), Some(wanted.clone()));
    assert_eq!(
        ensure_lock_file(requirements, Some(&lock)),
        Some(wanted.clone())
    );
    let fresh = format!("{wanted}x\n");
    assert_eq!(ensure_lock_file(requirements, Some(&fresh)), None);
    assert_eq!(new_lock_file("h\n", b"c"), b"h\nc".to_vec());
}

#[test]
fn the_package_manager_is_called_with_pinned_arguments() {
    assert_eq!(
        python_install_args("P"),
        words(&["python", "install", "--install-dir", "P", "3.12"])
    );
    assert_eq!(venv_args("V"), words(&["venv", "V", "--python", "3.12"]));
    assert_eq!(
        dependency_compile_args("p", "o", "r", false),
        words(&[
            "pip",
            "compile",
            "--python",
            "p",
            "--generate-hashes",
            "--output-file",
            "o",
            "r"
        ])
    );
    assert_eq!(
        dependency_sync_args("p", "l", true),
        words(&["pip", "sync", "--python", "p", "--torch-backend", "cu128", "l"])
    );
    assert_eq!(uv_command_line(&words(&["a", "b"])), "uv a b");
    assert!(removes_variable("UV_CACHE_DIR"));
    assert!(removes_variable("pip_index_url"));
    assert!(!removes_variable("HTTP_PROXY"));
}

#[test]
fn commands_end_well_badly_or_by_the_user() {
    assert!(matches!(
        run_uv(&CommandState::Running, false, "uv x", "L"),
        CommandStep::Wait
    ));
    assert!(matches!(
        run_uv(&CommandState::Succeeded, false, "uv x", "L"),
        CommandStep::Done
    ));
    match run_uv(&CommandState::Failed("exit code: 2".to_string()), false, "uv x", "L") {
        CommandStep::Fail { kill, error } => {
            assert!(!kill);
            assert_eq!(
                error,
                "uv x failed with status exit code: 2; see L for details"
            );
        }
        _ => panic!("the command failed"),
    }
    match run_uv(&CommandState::Lost("gone".to_string()), false, "uv x", "L") {
        CommandStep::Fail { kill, error } => {
            assert!(kill);
            assert_eq!(error, "uv x process polling failed: gone");
        }
        _ => panic!("the command was lost"),
    }
    match run_uv(&CommandState::Running, true, "uv x", "L") {
        CommandStep::Fail { kill, error } => {
            assert!(kill);
            assert_eq!(error, "setup cancelled; run setup again to resume");
        }
        _ => panic!("the command was stopped"),
    }
}

#[test]
fn every_embedded_requirements_manifest_is_bound_to_runtime_state() {
    let embedded: &[u8] = b"setuptools==80.9.0\n";
    assert!(manifest_current(true, &Some(sha256_hex(embedded)), embedded));
    assert!(!manifest_current(
        true,
        &Some(sha256_hex(b"sentencepiece==0.2.0\n# changed\n")),
        embedded
    ));
    assert!(!manifest_current(true, &None, embedded));
    assert!(manifest_current(false, &None, embedded));
}

#[test]
fn files_are_written_out_where_they_differ() {
    assert!(!extract_embedded_resource(b"", false, &None));
    assert!(extract_embedded_resource(b"x", false, &Some(sha256_hex(b"x"))));
    assert!(!extract_embedded_resource(b"x", true, &Some(sha256_hex(b"x"))));
    assert!(extract_embedded_resource(b"x", true, &Some(sha256_hex(b"y"))));
    assert!(check_extracted(b"x", &sha256_hex(b"x"), "T").is_ok());
    assert_eq!(
        check_extracted(b"x", "other", "T"),
        Err("embedded resource hash mismatch for T".to_string())
    );
}

#[test]
fn refused_access_asks_for_more_rights() {
    assert_eq!(
        map_io("write portable runtime", "C:/app", true, "denied"),
        "elevation_required: cannot write portable runtime at C:/app (run GameAssistant as administrator or move it to a writable folder)"
    );
    assert_eq!(
        map_io("hash file", "C:/app/x", false, "not found"),
        "hash file at C:/app/x: not found"
    );
    assert!(!detect_nvidia_gpu(Some(" -1 "), true));
    assert!(detect_nvidia_gpu(Some("0"), true));
    assert!(detect_nvidia_gpu(None, true));
    assert!(!detect_nvidia_gpu(None, false));
}

#[test]
fn probes_tell_no_secrets() {
    assert_eq!(
        secret_free_probe_detail("one \nAPI_KEY=1\n\n  two\nAuthorization: Bearer x"),
        "one | two"
    );
    let long = "あ".repeat(600);
    let kept = secret_free_probe_detail(&long);
    assert_eq!(kept.chars().count(), 513);
    assert!(kept.ends_with('…'));
    assert!(run_python_probe(&ProbeEnd::Succeeded, "P").is_ok());
    assert_eq!(
        run_python_probe(&ProbeEnd::NotStarted("x".to_string()), "P"),
        Err("P probe could not start: x".to_string())
    );
    assert_eq!(
        run_python_probe(&ProbeEnd::TimedOut, "P"),
        Err("P probe timed out after 180s".to_string())
    );
    assert_eq!(
        run_python_probe(&ProbeEnd::Lost("x".to_string()), "P"),
        Err("P probe process polling failed: x".to_string())
    );
    assert_eq!(
        run_python_probe(&ProbeEnd::Unread("x".to_string()), "P"),
        Err("P probe output could not be read: x".to_string())
    );
    assert_eq!(
        run_python_probe(
            &ProbeEnd::Failed {
                status: "exit code: 1".to_string(),
                output: "password=1\n".to_string()
            },
            "P"
        ),
        Err("P probe failed with status exit code: 1".to_string())
    );
    assert_eq!(
        run_python_probe(
            &ProbeEnd::Failed {
                status: "exit code: 1".to_string(),
                output: "ImportError\n".to_string()
            },
            "P"
        ),
        Err("P probe failed: ImportError".to_string())
    );
}

#[test]
fn probes_are_remembered_with_their_fingerprint() {
    let mut state = SetupState::fresh("0");
    state.last_error = Some("old".to_string());
    assert!(validate_runtime(&mut state, "f", &None, &None, &None).is_ok());
    assert!(state.last_error.is_none());
    assert_eq!(state.runtime_validation.fingerprint, "f");
    assert!(state.runtime_validation.python_import_ready);
    let list = &state.runtime_validation.diagnostics;
    assert_eq!(value_of(list, "python-import"), Some("python_import_ready"));
    assert_eq!(value_of(list, "tokenizer"), Some("tokenizer_ready"));
    assert_eq!(value_of(list, "embedding"), Some("embedding_ready"));
    let error = validate_runtime(
        &mut state,
        "g",
        &None,
        &Some("t".to_string()),
        &Some("e".to_string()),
    );
    assert_eq!(error, Err("runtime validation failed: t; e".to_string()));
    assert_eq!(state.current_stage, SetupStage::Models);
    assert!(!state.runtime_validation.embedding_ready);
    assert_eq!(
        value_of(&state.runtime_validation.diagnostics, "tokenizer"),
        Some("t")
    );
}

fn prepared_state() -> SetupState {
    let mut state = SetupState::fresh("0");
    prepare_runtime(&mut state, &current(), false, true, "0");
    state
}

#[test]
fn a_whole_setup_runs_through_its_stages() {
    let mut run = SetupRun::new(prepared_state(), words(&["m0", "m1"]));
    assert_eq!(run.point(), SetupPoint::Start);
    run.started(true, "1");
    assert_eq!(run.point(), SetupPoint::Inspect(SetupStage::Python));
    for stage in [SetupStage::Python, SetupStage::Venv, SetupStage::Dependencies] {
        run.inspected(stage, false, false, "2");
        assert_eq!(run.point(), SetupPoint::Run(stage));
        if stage == SetupStage::Dependencies {
            run.lock_written("lock");
        }
        run.stage_ended(stage, None, false, "3");
    }
    assert_eq!(run.state().lock_sha256, "lock");
    assert_eq!(run.point(), SetupPoint::Inspect(SetupStage::Models));
    run.models_inspected(false, None, false, "4");
    assert_eq!(run.point(), SetupPoint::ScanModel(0));
    run.model_scanned(0, true, false, "5");
    assert_eq!(run.point(), SetupPoint::ScanModel(1));
    run.model_scanned(1, false, false, "5");
    assert_eq!(run.point(), SetupPoint::Download(1));
    run.model_downloaded(1, None, false, "6");
    assert_eq!(run.point(), SetupPoint::Rescan(1));
    run.model_rescanned(1, true, false, "7");
    assert_eq!(run.point(), SetupPoint::Validate);
    assert!(run.state().stage_completed(SetupStage::Complete));
    run.validating("f");
    assert_eq!(run.point(), SetupPoint::Probing(Probe::PythonImport));
    run.probe_ended(Probe::PythonImport, None);
    assert_eq!(run.point(), SetupPoint::Probing(Probe::Tokenizer));
    run.probe_ended(Probe::Tokenizer, None);
    run.probe_ended(Probe::Embedding, None);
    assert_eq!(run.point(), SetupPoint::Shown);
    assert_eq!(run.state().runtime_validation.fingerprint, "f");
    assert!(run.state().runtime_validation.embedding_ready);
    let events = run.take_events();
    let told: Vec<(&str, &str, usize, usize)> = events
        .iter()
        .map(|event| (event.stage, event.status, event.done, event.total))
        .collect();
    assert_eq!(
        told,
        vec![
            ("python", "running", 0, 1),
            ("python", "completed", 1, 1),
            ("venv", "running", 0, 1),
            ("venv", "completed", 1, 1),
            ("packages", "running", 0, 1),
            ("packages", "completed", 1, 1),
            ("models", "running", 0, 1),
            ("models", "running", 1, 2),
            ("models", "running", 2, 2),
            ("models", "completed", 1, 1),
            ("python-import", "running", 0, 1),
            ("python-import", "completed", 1, 1),
            ("tokenizer", "running", 0, 1),
            ("tokenizer", "completed", 1, 1),
            ("embedding", "running", 0, 1),
            ("embedding", "completed", 1, 1),
        ]
    );
    assert_eq!(events[10].message.as_deref(), Some("Validating Python import…"));
    assert_eq!(
        events[15].message.as_deref(),
        Some("Embedding model initialization is ready")
    );
    assert_eq!(
        events[7].message.as_deref(),
        Some("Required model ready: m0")
    );
}

#[test]
fn a_failed_probe_is_told_and_remembered() {
    let mut run = SetupRun::new(prepared_state(), Vec::new());
    run.started(true, "1");
    for stage in [SetupStage::Python, SetupStage::Venv, SetupStage::Dependencies] {
        run.inspected(stage, false, false, "2");
        run.stage_ended(stage, None, false, "3");
    }
    run.models_inspected(false, None, false, "4");
    run.take_events();
    run.validating("f");
    run.probe_ended(Probe::PythonImport, None);
    run.probe_ended(Probe::Tokenizer, Some("no tokenizer".to_string()));
    run.probe_ended(Probe::Embedding, Some("no model".to_string()));
    assert_eq!(run.point(), SetupPoint::Failed);
    assert_eq!(
        run.state().last_error.as_deref(),
        Some("runtime validation failed: no tokenizer; no model")
    );
    let events = run.take_events();
    assert_eq!(events[3].status, "error");
    assert_eq!(events[3].error.as_deref(), Some("no tokenizer"));
    assert_eq!(events[3].message, None);
}

#[test]
fn a_setup_without_terms_stays_pending() {
    let mut run = SetupRun::new(prepared_state(), Vec::new());
    run.started(false, "1");
    assert_eq!(run.point(), SetupPoint::Shown);
    assert_eq!(run.state().current_stage, SetupStage::Pending);
}

#[test]
fn failures_and_cancellations_end_a_setup() {
    let mut run = SetupRun::new(prepared_state(), Vec::new());
    run.started(true, "1");
    run.inspected(SetupStage::Python, false, false, "2");
    run.stage_ended(SetupStage::Python, Some("uv failed"), false, "3");
    assert_eq!(run.point(), SetupPoint::Failed);
    assert_eq!(run.state().last_error.as_deref(), Some("uv failed"));
    let events = run.take_events();
    assert_eq!(events[1].status, "error");
    assert_eq!(events[1].error.as_deref(), Some("uv failed"));

    let mut run = SetupRun::new(prepared_state(), words(&["m"]));
    run.started(true, "1");
    run.inspected(SetupStage::Python, false, false, "2");
    run.stage_ended(SetupStage::Python, None, true, "3");
    assert_eq!(run.point(), SetupPoint::Failed);
    assert!(run.state().stage_completed(SetupStage::Python));
    assert_eq!(
        run.state().last_error.as_deref(),
        Some("setup cancelled; run setup again to resume")
    );
    let events = run.take_events();
    assert_eq!(events.last().map(|event| event.status), Some("cancelled"));
}

#[test]
fn models_that_stay_incomplete_fail_the_setup() {
    let mut run = SetupRun::new(prepared_state(), words(&["m"]));
    run.started(true, "1");
    for stage in [SetupStage::Python, SetupStage::Venv, SetupStage::Dependencies] {
        run.inspected(stage, false, false, "2");
        run.stage_ended(stage, None, false, "3");
    }
    run.models_inspected(false, None, false, "4");
    run.model_scanned(0, false, false, "5");
    run.model_downloaded(0, None, false, "6");
    run.model_rescanned(0, false, false, "7");
    assert_eq!(run.point(), SetupPoint::Failed);
    assert_eq!(
        run.state().last_error.as_deref(),
        Some("model download completed without all expected files: m")
    );
}

#[test]
fn scripts_on_disk_are_held_to_those_of_the_program() {
    let asr = Some(sha256_hex(b"asr"));
    let vits2 = Some(sha256_hex(b"vits2"));
    assert!(scripts_present(&asr, &vits2, b"asr", b"vits2"));
    assert!(!scripts_present(&vits2, &asr, b"asr", b"vits2"));
    assert!(!scripts_present(&asr, &None, b"asr", b"vits2"));
    assert!(!scripts_present(&None, &vits2, b"asr", b"vits2"));
}

#[test]
fn dependencies_are_present_where_marker_and_lock_agree() {
    let hash = Some("h".to_string());
    let marker = Some(" h\n".to_string());
    assert!(dependencies_present(true, &hash, &marker, "h"));
    assert!(!dependencies_present(false, &hash, &marker, "h"));
    assert!(!dependencies_present(true, &hash, &marker, "g"));
    assert!(!dependencies_present(true, &hash, &None, "h"));
    assert!(!dependencies_present(true, &None, &marker, "h"));
    assert!(dependencies_present(true, &None, &Some(String::new()), ""));
}

#[test]
fn processes_of_the_setup_get_their_variables() {
    let shown = |list: Vec<gameassistant::setup_tools::EnvVariable>| -> Vec<(String, String)> {
        list.into_iter().map(|v| (v.name.to_string(), v.value)).collect()
    };
    let pair = |name: &str, value: &str| (name.to_string(), value.to_string());
    assert_eq!(
        shown(uv_environment("/r/.python", "/r/.uv-cache")),
        vec![
            pair("UV_PYTHON_INSTALL_DIR", "/r/.python"),
            pair("UV_CACHE_DIR", "/r/.uv-cache"),
            pair("UV_NO_CONFIG", "1"),
            pair("UV_NO_PROGRESS", "1"),
        ]
    );
    let probe = shown(probe_environment("/r", "/r/models", "/r/.uv-cache"));
    assert_eq!(probe.len(), 10);
    assert_eq!(probe[0], pair("RUNTIME_ROOT", "/r"));
    assert_eq!(probe[1], pair("MODELS_DIR", "/r/models"));
    assert_eq!(probe[7], pair("SENTENCE_TRANSFORMERS_HOME", "/r/.uv-cache"));
    assert_eq!(probe[9], pair("TRANSFORMERS_OFFLINE", "1"));
    assert!(check_uv(true, "/r/uv.exe").is_ok());
    assert_eq!(
        check_uv(false, "/r/uv.exe"),
        Err("uv.exe is missing at /r/uv.exe".to_string())
    );
    assert!(check_probe_python(true, "/p").is_ok());
    assert_eq!(
        check_probe_python(false, "/p"),
        Err("portable Python executable is missing at /p".to_string())
    );
}

#[test]
fn the_files_of_the_program_have_their_places() {
    let layout = RuntimeLayout::for_root(RuntimePath::from_root("/r"));
    let root = RuntimePath::from_root("/r");
    let targets = resource_targets(&layout);
    let names: Vec<&str> = targets.iter().map(|item| item.resource).collect();
    assert_eq!(names.len(), 12);
    assert_eq!(names[6], "uv.exe");
    assert_eq!(targets[0].target, root.join("scripts").join("asr_server.py"));
    assert_eq!(targets[4].target, root.join("requirements-gpu.txt"));
    assert_eq!(targets[6].target, layout.uv_path);
    assert_eq!(targets[10].target, root.join("wav/nod/4.wav"));
    assert_eq!(
        llama_runtime_target(&layout, "llama.dll"),
        Ok(root.join("runtime").join("llama").join("llama.dll"))
    );
    let directories = runtime_directories(&layout);
    assert_eq!(directories.len(), 7);
    assert_eq!(directories[5], layout.scripts_dir);
    assert_eq!(directories[6], root.join("runtime").join("llama"));
    assert_eq!(root.parent(), None);
}
