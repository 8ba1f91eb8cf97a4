use gameassistant::bootstrap::{Diagnostic, RuntimeLayout, SetupStage, SetupState};
use gameassistant::paths::RuntimePath;
use gameassistant::setup_status::{
    clear_setup_error, required_setup_stages_complete, runtime_is_ready, runtime_status,
    sync_state_metadata, CurrentMetadata, ModelArtifacts, RuntimeFacts,
    TermsRecord,
};
use gameassistant::setup_tools::{
    dependency_compile_args, dependency_sync_args, uv_command_args,
};

const NOW: &str = "1700000000";

fn metadata(requirements: &str) -> CurrentMetadata {
    CurrentMetadata {
        app_version: "1.0.0".to_string(),
        requirements_sha256: requirements.to_string(),
        requirements_bundle_sha256: "bundle".to_string(),
        uv_sha256: "uv".to_string(),
        scripts_sha256: "scripts".to_string(),
    }
}

fn layout() -> RuntimeLayout {
    RuntimeLayout::for_root(RuntimePath::from_root("/portable"))
}

fn bare_facts() -> RuntimeFacts {
    RuntimeFacts {
        gpu: false,
        manifests_current: true,
        required_models_missing: Vec::new(),
        terms_accepted: true,
        terms: TermsRecord {
            version: "2024-02".to_string(),
            model_sha256: "model".to_string(),
            source: "https://example.test/terms".to_string(),
        },
        uv_present: true,
        scripts_present: true,
        python_present: true,
        venv_present: true,
        llama_server_present: true,
        lock_is_file: true,
        lock_file_sha256: Some("lock".to_string()),
        lock_matches: true,
        marker: Some("lock".to_string()),
        fingerprint: "probe".to_string(),
        artifacts: ModelArtifacts {
            whisper_tokenizer: true,
            embedding_tokenizer_config: true,
            embedding_pytorch_weights: true,
            embedding_safetensors_weights: false,
            embedding_sentencepiece: true,
        },
        write_error: None,
        running: false,
    }
}

fn finished_state(current: &CurrentMetadata) -> SetupState {
    let mut state = SetupState::fresh(NOW);
    sync_state_metadata(&mut state, false, current, NOW);
    state.lock_sha256 = "lock".to_string();
    for stage in [
        SetupStage::Resources,
        SetupStage::Python,
        SetupStage::Venv,
        SetupStage::Dependencies,
        SetupStage::Models,
        SetupStage::Complete,
    ] {
        state.mark_completed(stage, NOW);
    }
    state.runtime_validation.fingerprint = "probe".to_string();
    state.runtime_validation.python_import_ready = true;
    state.runtime_validation.tokenizer_ready = true;
    state.runtime_validation.embedding_ready = true;
    state
}

fn diagnostic<'a>(list: &'a [Diagnostic], key: &str) -> Option<&'a str> {
    list.iter()
        .find(|entry| entry.key == key)
        .map(|entry| entry.value.as_str())
}

#[test]
fn release_layout_is_rooted_at_the_executable_directory() {
    let layout = RuntimeLayout::for_root(RuntimePath::from_root(r"C:\portable\GameAssistant"));
    assert_eq!(
        layout.root,
        RuntimePath::from_root(r"C:\portable\GameAssistant")
    );
    assert_eq!(layout.venv_dir, layout.root.join("venv"));
    assert_eq!(layout.models_dir, layout.root.join("models"));
    assert_eq!(layout.uv_cache_dir, layout.root.join(".uv-cache"));
}

#[test]
fn setup_state_only_skips_a_stage_when_its_marker_is_present() {
    let mut state = SetupState::fresh(NOW);
    assert!(!state.stage_completed(SetupStage::Python));
    state.mark_completed(SetupStage::Resources, NOW);
    assert!(state.stage_completed(SetupStage::Resources));
    assert!(!state.stage_completed(SetupStage::Python));
}

#[test]
fn setup_state_can_be_serialized_and_resumed() {
    let mut state = SetupState::fresh(NOW);
    state.mark_completed(SetupStage::Resources, NOW);
    state.mark_completed(SetupStage::Python, NOW);
    let json = serde_json::to_string(&state.completed_stages).expect("state must serialize");
    let mut restored = SetupState::fresh(NOW);
    restored.completed_stages = serde_json::from_str(&json).expect("state must deserialize");
    assert!(restored.stage_completed(SetupStage::Resources));
    assert!(restored.stage_completed(SetupStage::Python));
    assert!(!restored.stage_completed(SetupStage::Dependencies));
}

#[test]
fn metadata_change_invalidates_install_stages() {
    let mut state = SetupState::fresh(NOW);
    state.mark_completed(SetupStage::Resources, NOW);
    state.mark_completed(SetupStage::Python, NOW);
    state.mark_completed(SetupStage::Venv, NOW);
    state.mark_completed(SetupStage::Dependencies, NOW);
    state.gpu = true;
    sync_state_metadata(&mut state, false, &metadata("new-requirements"), NOW);
    assert!(!state.stage_completed(SetupStage::Python));
    assert!(!state.stage_completed(SetupStage::Dependencies));
}

#[test]
fn uv_invocation_pins_portable_cache_and_disables_external_config() {
    let cache = r"C:\portable\GameAssistant\.uv-cache";
    let args = uv_command_args(cache, &vec!["pip".to_string(), "compile".to_string()]);
    assert_eq!(args[0], "--no-config");
    assert_eq!(args[1], "--cache-dir");
    assert_eq!(args[2], cache);
    assert_eq!(&args[3..], &["pip".to_string(), "compile".to_string()]);
}

#[test]
fn gpu_dependency_compile_uses_the_cuda_backend() {
    let args = dependency_compile_args("python.exe", "generated.txt", "requirements-gpu.txt", true);
    assert!(args
        .windows(2)
        .any(|pair| { pair == ["--torch-backend".to_string(), "cu128".to_string()] }));
    assert!(!args.windows(2).any(|pair| {
        pair == [
            "--index-strategy".to_string(),
            "unsafe-best-match".to_string(),
        ]
    }));
}

#[test]
fn gpu_dependency_sync_uses_the_same_cuda_backend_as_compile() {
    let args = dependency_sync_args("python.exe", "uv.lock", true);
    assert!(args
        .windows(2)
        .any(|pair| { pair == ["--torch-backend".to_string(), "cu128".to_string()] }));
    assert_eq!(args.last(), Some(&"uv.lock".to_string()));
}

#[test]
fn cpu_dependency_sync_does_not_select_a_cuda_backend() {
    let args = dependency_sync_args("python.exe", "uv.lock", false);
    assert!(!args.iter().any(|arg| arg == "--torch-backend"));
}

#[test]
fn stale_requirements_metadata_is_not_reported_as_a_completed_runtime() {
    let current = metadata("requirements");
    let mut state = finished_state(&current);
    state.requirements_sha256 = "stale-requirements-hash".to_string();

    let status = runtime_status(&state, &bare_facts(), &current, &layout(), NOW);

    assert!(!status.setup_state.stage_completed(SetupStage::Dependencies));
    assert!(!status.setup_state.stage_completed(SetupStage::Complete));
    assert_eq!(status.current_stage.as_deref(), Some("pending"));
    assert_eq!(
        diagnostic(&status.diagnostics, "dependency"),
        Some("dependency_manifest_stale")
    );
}

#[test]
fn lockfile_with_a_stale_requirements_header_is_not_ready() {
    let current = metadata("requirements");
    let state = finished_state(&current);
    let mut facts = bare_facts();
    facts.lock_matches = false;

    let status = runtime_status(&state, &facts, &current, &layout(), NOW);

    assert!(!status.lock_present);
    assert!(!status.dependency_ready);
    assert_eq!(
        diagnostic(&status.diagnostics, "dependency"),
        Some("dependency_lock_stale")
    );
}

#[test]
fn runtime_diagnostics_keep_tokenizer_and_embedding_failures_distinct() {
    let current = metadata("requirements");
    let state = SetupState::fresh(NOW);
    let mut facts = bare_facts();
    facts.artifacts.embedding_pytorch_weights = false;
    facts.artifacts.embedding_sentencepiece = false;

    let status = runtime_status(&state, &facts, &current, &layout(), NOW);

    assert!(!status.readiness.tokenizer);
    assert!(!status.readiness.embedding);
    assert_eq!(
        diagnostic(&status.diagnostics, "tokenizer"),
        Some("tokenizer_runtime_unverified")
    );
    assert_eq!(
        diagnostic(&status.diagnostics, "embedding"),
        Some("embedding_model_missing")
    );
}

#[test]
fn missing_dependency_files_invalidate_each_runtime_layer_even_with_stale_probe_flags() {
    let current = metadata("requirements");
    let state = finished_state(&current);
    let mut facts = bare_facts();
    facts.venv_present = false;

    let status = runtime_status(&state, &facts, &current, &layout(), NOW);

    assert!(!status.dependency_ready);
    assert!(!status.readiness.python_import);
    assert!(!status.readiness.tokenizer);
    assert!(!status.readiness.embedding);
    assert_eq!(
        diagnostic(&status.diagnostics, "python_import"),
        Some("dependency_not_ready")
    );
}

#[test]
fn every_runtime_status_exposes_current_gemma_contract_metadata() {
    let facts = bare_facts();
    let status =
        runtime_status(&SetupState::fresh(NOW), &facts, &metadata("requirements"), &layout(), NOW);
    assert!(!status.ready);
    assert!(runtime_is_ready(&status).is_err());
    assert_eq!(status.terms.version, facts.terms.version);
    assert_eq!(status.terms.model_sha256, facts.terms.model_sha256);
    assert_eq!(status.terms.source, facts.terms.source);
    assert!(status.terms_accepted);
}

#[test]
fn a_runtime_status_says_what_was_found() {
    let mut facts = bare_facts();
    facts.required_models_missing = vec!["whisper".to_string()];
    facts.write_error = Some("no rights".to_string());
    facts.running = true;
    facts.uv_present = false;
    facts.python_present = false;
    let status =
        runtime_status(&SetupState::fresh(NOW), &facts, &metadata("requirements"), &layout(), NOW);
    assert!(status.running);
    assert_eq!(status.message, None);
    assert_eq!(status.required_models_missing, vec!["whisper"]);
    assert_eq!(status.elevation_message.as_deref(), Some("no rights"));
    assert!(!status.uv_present);
    assert!(!status.python_present);
    assert!(status.scripts_present);
    assert!(status.venv_present);
    assert!(status.llama_server_present);
    assert!(!status.asr_websocket_ready);
    assert_eq!(status.root_dir, layout().root);
    assert_eq!(status.python_dir, layout().python_dir);
    assert_eq!(status.venv_dir, layout().venv_dir);
    assert_eq!(status.models_dir, layout().models_dir);
    assert_eq!(status.uv_cache_dir, layout().uv_cache_dir);
    assert_eq!(status.logs_dir, layout().logs_dir);
}

#[test]
fn complete_marker_alone_cannot_authorize_session_start() {
    let current = metadata("requirements");
    let mut state = SetupState::fresh(NOW);
    state.mark_completed(SetupStage::Models, NOW);
    state.mark_completed(SetupStage::Complete, NOW);
    assert!(!required_setup_stages_complete(&state));
    let status = runtime_status(&state, &bare_facts(), &current, &layout(), NOW);
    assert!(runtime_is_ready(&status).is_err());
}

#[test]
fn cancellation_is_distinct_from_error_and_clears_stale_error_fields() {
    let current = metadata("requirements");
    let mut state = SetupState::fresh(NOW);
    state.current_stage = SetupStage::Models;
    state.last_error = Some("setup cancelled; run setup again to resume".to_string());
    let status = runtime_status(&state, &bare_facts(), &current, &layout(), NOW);
    assert!(status.cancelled);
    assert!(status.error.is_none());
    assert!(status.stages.iter().all(|step| step.status != "error"));
}

#[test]
fn accepting_gemma_terms_clears_a_stale_setup_error() {
    let mut state = SetupState::fresh(NOW);
    state.current_stage = SetupStage::Models;
    state.last_error = Some("previous setup failure".to_string());

    assert!(clear_setup_error(&mut state, NOW));

    assert_eq!(state.last_error, None);
}

#[test]
fn a_validated_runtime_is_ready() {
    let current = metadata("requirements");
    let state = finished_state(&current);
    let status = runtime_status(&state, &bare_facts(), &current, &layout(), NOW);
    assert!(status.dependency_ready);
    assert!(status.ready);
    assert!(runtime_is_ready(&status).is_ok());
    assert_eq!(status.progress, 100);
}

#[test]
fn the_layout_names_the_interpreter_and_the_requirements() {
    let layout = RuntimeLayout::for_root(RuntimePath::from_root("/r"));
    let root = RuntimePath::from_root("/r");
    assert_eq!(
        layout.python_executable(true),
        layout.venv_dir.join("Scripts").join("python.exe")
    );
    assert_eq!(layout.python_executable(false), layout.venv_dir.join("bin").join("python"));
    assert_eq!(layout.requirements_path(true), root.join("requirements-gpu.txt"));
    assert_eq!(layout.requirements_path(false), root.join("requirements-cpu.txt"));
}
