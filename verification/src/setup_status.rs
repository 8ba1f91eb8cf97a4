//! What is reported of the setup, and whether the runtime may be used.
use vstd::prelude::*;

use crate::bootstrap;
use crate::bootstrap::{
    Diagnostic, MetadataModel, RuntimeLayout, RuntimeValidationState, SetupModel, SetupStage, SetupState,
    ValidationModel,
};
use crate::digest;
use crate::lance_memory;
use crate::ordering;
use crate::paths::{PathModel, RuntimePath};
use crate::text;

verus! {

/// What the program that runs now is made of.
#[derive(Debug)]
pub struct CurrentMetadata {
    pub app_version: String,
    pub requirements_sha256: String,
    pub requirements_bundle_sha256: String,
    pub uv_sha256: String,
    pub scripts_sha256: String,
}

impl View for CurrentMetadata {
    type V = MetadataModel;

    open spec fn view(&self) -> MetadataModel {
        MetadataModel {
            state_version: bootstrap::SETUP_STATE_VERSION,
            app_version: self.app_version@,
            python_version: bootstrap::PYTHON_VERSION@,
            requirements_sha256: self.requirements_sha256@,
            requirements_bundle_sha256: self.requirements_bundle_sha256@,
            uv_sha256: self.uv_sha256@,
            scripts_sha256: self.scripts_sha256@,
        }
    }
}

/// Tells whether a setup was made for the program that runs now.
pub fn state_metadata_current(state: &SetupState, current: &CurrentMetadata) -> (res: bool)
    ensures
        res == (state@.metadata == current@),
{
    state.state_version == bootstrap::SETUP_STATE_VERSION && text::same_text(
        state.app_version.as_str(),
        current.app_version.as_str(),
    ) && text::same_text(state.python_version.as_str(), bootstrap::PYTHON_VERSION)
        && text::same_text(
        state.requirements_sha256.as_str(),
        current.requirements_sha256.as_str(),
    ) && text::same_text(
        state.requirements_bundle_sha256.as_str(),
        current.requirements_bundle_sha256.as_str(),
    ) && text::same_text(state.uv_sha256.as_str(), current.uv_sha256.as_str()) && text::same_text(
        state.scripts_sha256.as_str(),
        current.scripts_sha256.as_str(),
    )
}

/// The state brought to the program that runs now: everything is done again
/// after a change of the program, and everything that comes after the
/// dependencies after a change of the graphics card.
pub open spec fn synced(
    state: SetupModel,
    current: MetadataModel,
    gpu: bool,
    now: Seq<char>,
) -> SetupModel {
    let cleared = if state.metadata != current {
        SetupModel {
            completed: Set::empty(),
            current_stage: SetupStage::Pending,
            validation: bootstrap::no_validation(),
            ..state
        }
    } else if state.gpu != gpu {
        SetupModel {
            validation: bootstrap::no_validation(),
            ..state.cleared_from(SetupStage::Dependencies, now)
        }
    } else {
        state
    };
    SetupModel { metadata: current, gpu, updated_at: now, ..cleared }
}

/// Brings the state to the program that runs now.
pub fn sync_state_metadata(state: &mut SetupState, gpu: bool, current: &CurrentMetadata, now: &str)
    ensures
        final(state)@ == synced(old(state)@, current@, gpu, now@),
{
    if !state_metadata_current(state, current) {
        state.completed_stages = Vec::new();
        state.current_stage = SetupStage::Pending;
        state.runtime_validation = RuntimeValidationState::default();
        assert(bootstrap::text_set(state.completed_stages@) == Set::<Seq<char>>::empty());
    } else if state.gpu != gpu {
        state.clear_from(SetupStage::Dependencies, now);
        state.runtime_validation = RuntimeValidationState::default();
    }
    state.state_version = bootstrap::SETUP_STATE_VERSION;
    state.app_version = current.app_version.clone();
    state.python_version = bootstrap::PYTHON_VERSION.to_owned();
    state.requirements_sha256 = current.requirements_sha256.clone();
    state.requirements_bundle_sha256 = current.requirements_bundle_sha256.clone();
    state.uv_sha256 = current.uv_sha256.clone();
    state.scripts_sha256 = current.scripts_sha256.clone();
    state.gpu = gpu;
    state.updated_at = now.to_owned();
}

/// A state that was brought to the program is for it, and bringing it there a
/// second time changes nothing but the time.
pub proof fn law_syncing_twice_is_syncing_once(
    state: SetupModel,
    current: MetadataModel,
    gpu: bool,
    first: Seq<char>,
    second: Seq<char>,
)
    ensures
        synced(state, current, gpu, first).metadata == current,
        synced(synced(state, current, gpu, first), current, gpu, second) == (SetupModel {
            updated_at: second,
            ..synced(state, current, gpu, first)
        }),
{
}

/// A change of the program leaves nothing done.
pub proof fn law_a_changed_program_is_set_up_again(
    state: SetupModel,
    current: MetadataModel,
    gpu: bool,
    now: Seq<char>,
    stage: SetupStage,
)
    requires
        state.metadata != current,
    ensures
        !synced(state, current, gpu, now).is_completed(stage),
        synced(state, current, gpu, now).validation == bootstrap::no_validation(),
{
}

/// Whether an error tells that the user stopped the setup.
pub open spec fn is_cancellation(message: Seq<char>) -> bool {
    text::begins_with(message, "setup cancelled"@)
}

/// Tells whether an error tells that the user stopped the setup.
pub fn is_cancelled_error(message: &str) -> (res: bool)
    ensures
        res == is_cancellation(message@),
{
    text::text_begins_with(message, "setup cancelled")
}

/// How a lock file begins that was made for a list of dependencies.
pub open spec fn lock_header_text(requirements_hash: Seq<char>) -> Seq<char> {
    "# GameAssistant uv lock manifest\n# requirements-sha256: "@ + requirements_hash + "\n"@
}

/// How a lock file begins that was made for a list of dependencies.
pub fn lock_header(requirements_hash: &str) -> (res: String)
    ensures
        res@ == lock_header_text(requirements_hash@),
{
    let mut header = "# GameAssistant uv lock manifest\n# requirements-sha256: ".to_owned();
    text::append_text(&mut header, requirements_hash);
    text::append_text(&mut header, "\n");
    header
}

/// Tells whether a lock file was made for a list of dependencies. `None` is a
/// file that could not be read.
pub fn lockfile_requirements_match(contents: Option<&str>, requirements_hash: &str) -> (res: bool)
    ensures
        res == (contents is Some && text::begins_with(
            contents->0@,
            lock_header_text(requirements_hash@),
        )),
{
    match contents {
        Some(found) => text::text_begins_with(found, lock_header(requirements_hash).as_str()),
        None => false,
    }
}

/// Which model files are there and not empty.
#[derive(Debug, Clone, Copy)]
pub struct ModelArtifacts {
    pub whisper_tokenizer: bool,
    pub embedding_tokenizer_config: bool,
    pub embedding_pytorch_weights: bool,
    pub embedding_safetensors_weights: bool,
    pub embedding_sentencepiece: bool,
}

impl ModelArtifacts {
    /// The files of the tokenizers are there.
    pub open spec fn tokenizer(self) -> bool {
        self.whisper_tokenizer && self.embedding_tokenizer_config
    }

    /// The files of the embedding model are there, with weights of one kind.
    pub open spec fn embedding(self) -> bool {
        (self.embedding_pytorch_weights || self.embedding_safetensors_weights)
            && self.embedding_sentencepiece
    }
}

/// What was found of the installed dependencies.
#[derive(Debug, Clone, Copy)]
pub struct DependencyFacts {
    pub metadata_current: bool,
    pub backend_current: bool,
    pub venv_present: bool,
    pub lock_present: bool,
    pub marker_present: bool,
}

impl DependencyFacts {
    /// Everything is installed as it should be.
    pub open spec fn files_ready(self) -> bool {
        self.lock_present && self.venv_present && self.marker_present
    }
}

/// Which layers of the runtime are ready.
#[derive(Debug, Clone, Copy, PartialEq, Eq, Structural)]
pub struct RuntimeReadiness {
    pub python_import: bool,
    pub tokenizer: bool,
    pub embedding: bool,
}

/// Which layers are ready: the files are there, and a probe has shown it.
pub open spec fn readiness(
    facts: DependencyFacts,
    artifacts: ModelArtifacts,
    validation: Option<ValidationModel>,
) -> RuntimeReadiness {
    RuntimeReadiness {
        python_import: facts.files_ready() && validation is Some
            && validation->0.python_import_ready,
        tokenizer: artifacts.tokenizer() && facts.files_ready() && validation is Some
            && validation->0.tokenizer_ready,
        embedding: artifacts.embedding() && facts.files_ready() && validation is Some
            && validation->0.embedding_ready,
    }
}

/// What is said of the dependencies.
pub open spec fn dependency_code(
    facts: DependencyFacts,
    artifacts: ModelArtifacts,
    validation: Option<ValidationModel>,
) -> Seq<char> {
    if !facts.metadata_current {
        "dependency_manifest_stale"@
    } else if !facts.backend_current {
        "dependency_backend_changed"@
    } else if !facts.venv_present {
        "dependency_venv_missing"@
    } else if !facts.lock_present {
        "dependency_lock_stale"@
    } else if !facts.marker_present {
        "dependency_marker_missing"@
    } else if validation is None {
        "dependency_runtime_unverified"@
    } else if !readiness(facts, artifacts, validation).python_import {
        "python_import_failed"@
    } else {
        "dependency_ready"@
    }
}

/// What is said of a layer of the runtime.
pub open spec fn layer_code(
    blocked: bool,
    blocked_code: Seq<char>,
    unverified: bool,
    unverified_code: Seq<char>,
    ready: bool,
    ready_code: Seq<char>,
    failed_code: Seq<char>,
) -> Seq<char> {
    if blocked {
        blocked_code
    } else if unverified {
        unverified_code
    } else if ready {
        ready_code
    } else {
        failed_code
    }
}

/// What is said of all layers: the codes, and over them what the probes said.
pub open spec fn diagnostics_of(
    facts: DependencyFacts,
    artifacts: ModelArtifacts,
    validation: Option<ValidationModel>,
    probed: Seq<Diagnostic>,
) -> Map<Seq<char>, Seq<char>> {
    let ready = readiness(facts, artifacts, validation);
    bootstrap::overlaid(
        Map::<Seq<char>, Seq<char>>::empty().insert(
            "dependency"@,
            dependency_code(facts, artifacts, validation),
        ).insert(
            "python_import"@,
            layer_code(
                !facts.files_ready(),
                "dependency_not_ready"@,
                validation is None,
                "python_import_unverified"@,
                ready.python_import,
                "python_import_ready"@,
                "python_import_failed"@,
            ),
        ).insert(
            "tokenizer"@,
            layer_code(
                !artifacts.tokenizer(),
                "tokenizer_missing"@,
                validation is None,
                "tokenizer_runtime_unverified"@,
                ready.tokenizer,
                "tokenizer_ready"@,
                "tokenizer_initialization_failed"@,
            ),
        ).insert(
            "embedding"@,
            layer_code(
                !artifacts.embedding(),
                "embedding_model_missing"@,
                validation is None,
                "embedding_runtime_unverified"@,
                ready.embedding,
                "embedding_ready"@,
                "embedding_initialization_failed"@,
            ),
        ),
        probed,
    )
}

fn choose_code(
    blocked: bool,
    blocked_code: &'static str,
    unverified: bool,
    unverified_code: &'static str,
    ready: bool,
    ready_code: &'static str,
    failed_code: &'static str,
) -> (res: &'static str)
    ensures
        res@ == layer_code(
            blocked,
            blocked_code@,
            unverified,
            unverified_code@,
            ready,
            ready_code@,
            failed_code@,
        ),
{
    if blocked {
        blocked_code
    } else if unverified {
        unverified_code
    } else if ready {
        ready_code
    } else {
        failed_code
    }
}

pub open spec fn opt_validation(validation: Option<&RuntimeValidationState>) -> Option<
    ValidationModel,
> {
    match validation {
        Some(found) => Some(found@),
        None => None,
    }
}

/// What the probes said, where they ran.
pub open spec fn probed_diagnostics(validation: Option<&RuntimeValidationState>) -> Seq<Diagnostic> {
    match validation {
        Some(found) => found.diagnostics@,
        None => Seq::empty(),
    }
}

/// Tells which layers of the runtime are ready, and what is said of them.
/// `validation` are the results of the probes, where they are for this runtime.
pub fn runtime_diagnostics(
    facts: DependencyFacts,
    artifacts: ModelArtifacts,
    validation: Option<&RuntimeValidationState>,
) -> (res: (RuntimeReadiness, Vec<Diagnostic>))
    ensures
        res.0 == readiness(facts, artifacts, opt_validation(validation)),
        bootstrap::diagnostic_map(res.1@) == diagnostics_of(
            facts,
            artifacts,
            opt_validation(validation),
            probed_diagnostics(validation),
        ),
{
    let files_ready = facts.lock_present && facts.venv_present && facts.marker_present;
    let tokenizer_present = artifacts.whisper_tokenizer && artifacts.embedding_tokenizer_config;
    let embedding_present = (artifacts.embedding_pytorch_weights
        || artifacts.embedding_safetensors_weights) && artifacts.embedding_sentencepiece;
    let (python_shown, tokenizer_shown, embedding_shown) = match validation {
        Some(found) => (found.python_import_ready, found.tokenizer_ready, found.embedding_ready),
        None => (false, false, false),
    };
    let unverified = validation.is_none();
    let ready = RuntimeReadiness {
        python_import: files_ready && python_shown,
        tokenizer: tokenizer_present && files_ready && tokenizer_shown,
        embedding: embedding_present && files_ready && embedding_shown,
    };
    let dependency = if !facts.metadata_current {
        "dependency_manifest_stale"
    } else if !facts.backend_current {
        "dependency_backend_changed"
    } else if !facts.venv_present {
        "dependency_venv_missing"
    } else if !facts.lock_present {
        "dependency_lock_stale"
    } else if !facts.marker_present {
        "dependency_marker_missing"
    } else if unverified {
        "dependency_runtime_unverified"
    } else if !ready.python_import {
        "python_import_failed"
    } else {
        "dependency_ready"
    };
    let python_import = choose_code(
        !files_ready,
        "dependency_not_ready",
        unverified,
        "python_import_unverified",
        ready.python_import,
        "python_import_ready",
        "python_import_failed",
    );
    let tokenizer = choose_code(
        !tokenizer_present,
        "tokenizer_missing",
        unverified,
        "tokenizer_runtime_unverified",
        ready.tokenizer,
        "tokenizer_ready",
        "tokenizer_initialization_failed",
    );
    let embedding = choose_code(
        !embedding_present,
        "embedding_model_missing",
        unverified,
        "embedding_runtime_unverified",
        ready.embedding,
        "embedding_ready",
        "embedding_initialization_failed",
    );
    let mut list: Vec<Diagnostic> = Vec::new();
    assert(bootstrap::diagnostic_map(list@) == Map::<Seq<char>, Seq<char>>::empty());
    bootstrap::add_diagnostic(&mut list, "dependency", dependency);
    bootstrap::add_diagnostic(&mut list, "python_import", python_import);
    bootstrap::add_diagnostic(&mut list, "tokenizer", tokenizer);
    bootstrap::add_diagnostic(&mut list, "embedding", embedding);
    match validation {
        Some(found) => {
            bootstrap::append_diagnostics(&mut list, &found.diagnostics);
        },
        None => {},
    }
    (ready, list)
}

/// The state as far as it can still be relied on.
pub open spec fn projected(
    state: SetupModel,
    metadata_current: bool,
    gpu: bool,
    dependency_ready: bool,
    models_incomplete: bool,
    now: Seq<char>,
) -> SetupModel {
    let first = if !metadata_current {
        SetupModel { completed: Set::empty(), current_stage: SetupStage::Pending, ..state }
    } else if state.gpu != gpu {
        state.cleared_from(SetupStage::Dependencies, now)
    } else {
        state
    };
    let second = if !dependency_ready && first.is_completed(SetupStage::Dependencies) {
        first.cleared_from(SetupStage::Dependencies, now)
    } else {
        first
    };
    let third = if models_incomplete && second.is_completed(SetupStage::Models) {
        second.cleared_from(SetupStage::Models, now)
    } else {
        second
    };
    SetupModel { last_error: state.last_error, ..third }
}

/// The state as far as it can still be relied on. An error that it holds stays
/// visible.
pub fn status_state_for_readiness(
    state: &SetupState,
    metadata_current: bool,
    gpu: bool,
    dependency_ready: bool,
    models_missing: bool,
    ready: RuntimeReadiness,
    now: &str,
) -> (res: SetupState)
    ensures
        res@ == projected(
            state@,
            metadata_current,
            gpu,
            dependency_ready,
            models_missing || !ready.python_import || !ready.tokenizer || !ready.embedding,
            now@,
        ),
{
    let mut shown = state.duplicate();
    if !metadata_current {
        shown.completed_stages = Vec::new();
        shown.current_stage = SetupStage::Pending;
        assert(bootstrap::text_set(shown.completed_stages@) == Set::<Seq<char>>::empty());
    } else if state.gpu != gpu {
        shown.clear_from(SetupStage::Dependencies, now);
    }
    if !dependency_ready && shown.stage_completed(SetupStage::Dependencies) {
        shown.clear_from(SetupStage::Dependencies, now);
    }
    let models_incomplete = models_missing || !ready.python_import || !ready.tokenizer
        || !ready.embedding;
    if models_incomplete && shown.stage_completed(SetupStage::Models) {
        shown.clear_from(SetupStage::Models, now);
    }
    shown.last_error = lance_memory::duplicate_option(&state.last_error);
    shown
}

/// All stages are done.
pub open spec fn all_stages_done(state: SetupModel) -> bool {
    &&& state.is_completed(SetupStage::Resources)
    &&& state.is_completed(SetupStage::Python)
    &&& state.is_completed(SetupStage::Venv)
    &&& state.is_completed(SetupStage::Dependencies)
    &&& state.is_completed(SetupStage::Models)
    &&& state.is_completed(SetupStage::Complete)
}

/// Tells whether all stages are done.
pub fn required_setup_stages_complete(state: &SetupState) -> (res: bool)
    ensures
        res == all_stages_done(state@),
{
    state.stage_completed(SetupStage::Resources) && state.stage_completed(SetupStage::Python)
        && state.stage_completed(SetupStage::Venv) && state.stage_completed(
        SetupStage::Dependencies,
    ) && state.stage_completed(SetupStage::Models) && state.stage_completed(SetupStage::Complete)
}

/// The name under which a stage is shown.
pub open spec fn shown_name(stage: SetupStage) -> Seq<char> {
    match stage {
        SetupStage::Resources => "scripts"@,
        SetupStage::Dependencies => "packages"@,
        other => other.name(),
    }
}

/// The name under which a stage is shown.
pub fn exposed_stage(stage: SetupStage) -> (res: &'static str)
    ensures
        res@ == shown_name(stage),
{
    match stage {
        SetupStage::Resources => "scripts",
        SetupStage::Dependencies => "packages",
        other => other.as_str(),
    }
}

/// The stages in the order in which they are shown.
pub open spec fn shown_stages() -> Seq<SetupStage> {
    seq![
        SetupStage::Python,
        SetupStage::Venv,
        SetupStage::Dependencies,
        SetupStage::Resources,
        SetupStage::Models,
        SetupStage::Complete,
    ]
}

fn stages_shown() -> (res: Vec<SetupStage>)
    ensures
        res@ == shown_stages(),
{
    let res: Vec<SetupStage> = vec![
        SetupStage::Python,
        SetupStage::Venv,
        SetupStage::Dependencies,
        SetupStage::Resources,
        SetupStage::Models,
        SetupStage::Complete,
    ];
    assert(res@ == shown_stages());
    res
}

/// Which of the stages shown are done.
pub open spec fn shown_done(state: SetupModel) -> Seq<bool> {
    shown_stages().map_values(|stage: SetupStage| state.is_completed(stage))
}

/// The names of the stages that are done, in the order in which they are shown.
pub open spec fn done_names(state: SetupModel) -> Seq<Seq<char>> {
    ordering::places(shown_done(state)).map_values(|i: int| shown_name(shown_stages()[i]))
}

/// The names of the stages that are done.
pub fn exposed_completed_stages(state: &SetupState) -> (res: Vec<String>)
    ensures
        text::views(res@) == done_names(state@),
{
    let stages = stages_shown();
    let ghost flags = shown_done(state@);
    let ghost name = |i: int| shown_name(shown_stages()[i]);
    let mut res: Vec<String> = Vec::new();
    let mut i: usize = 0;
    while i < stages.len()
        invariant
            i <= stages@.len(),
            stages@ == shown_stages(),
            flags == shown_done(state@),
            name == (|i: int| shown_name(shown_stages()[i])),
            text::views(res@) == ordering::places(flags.take(i as int)).map_values(name),
        decreases stages@.len() - i,
    {
        let ghost before = res@;
        let ghost places = ordering::places(flags.take(i as int));
        if state.stage_completed(stages[i]) {
            res.push(exposed_stage(stages[i]).to_owned());
            assert(text::views(res@) == text::views(before).push(name(i as int)));
            assert(places.push(i as int).map_values(name) == places.map_values(name).push(
                name(i as int),
            ));
        }
        i += 1;
        assert(flags.take(i as int).drop_last() == flags.take(i - 1));
        assert(flags.take(i as int).last() == flags[i - 1]);
    }
    assert(flags.take(i as int) == flags);
    res
}

pub open spec fn one_if(flag: bool) -> int {
    if flag {
        1
    } else {
        0
    }
}

/// How far the setup has come, in percent.
pub open spec fn progress_of(state: SetupModel) -> int {
    if state.is_completed(SetupStage::Complete) {
        100
    } else {
        25 * (one_if(state.is_completed(SetupStage::Python)) + one_if(
            state.is_completed(SetupStage::Venv),
        ) + one_if(state.is_completed(SetupStage::Dependencies)) + one_if(
            state.is_completed(SetupStage::Models),
        ))
    }
}

fn count_one(flag: bool) -> (res: u32)
    ensures
        res == one_if(flag),
        res <= 1,
{
    if flag {
        1
    } else {
        0
    }
}

/// How far the setup has come, in percent: a quarter for each of the four long
/// stages.
pub fn setup_progress(state: &SetupState) -> (res: u32)
    ensures
        res == progress_of(state@),
        res <= 100,
{
    if state.stage_completed(SetupStage::Complete) {
        return 100;
    }
    let python: u32 = count_one(state.stage_completed(SetupStage::Python));
    let venv: u32 = count_one(state.stage_completed(SetupStage::Venv));
    let dependencies: u32 = count_one(state.stage_completed(SetupStage::Dependencies));
    let models: u32 = count_one(state.stage_completed(SetupStage::Models));
    25 * (python + venv + dependencies + models)
}

/// What is shown of a stage.
#[derive(Debug)]
pub struct SetupStepStatus {
    pub id: String,
    pub status: String,
    pub progress: u32,
    pub message: Option<String>,
    pub error: Option<String>,
}

/// What is shown of a stage.
pub struct StepModel {
    pub id: Seq<char>,
    pub status: Seq<char>,
    pub progress: u32,
    pub message: Option<Seq<char>>,
    pub error: Option<Seq<char>>,
}

impl View for SetupStepStatus {
    type V = StepModel;

    open spec fn view(&self) -> StepModel {
        StepModel {
            id: self.id@,
            status: self.status@,
            progress: self.progress,
            message: text::opt_view(self.message),
            error: text::opt_view(self.error),
        }
    }
}

/// What is shown of a stage. An error belongs to the stage under way, and only
/// while the setup runs.
pub open spec fn step_of(state: SetupModel, stage: SetupStage, running: bool) -> StepModel {
    let active = !state.is_completed(stage) && state.current_stage == stage && running;
    let failed = active && state.last_error is Some && !is_cancellation(state.last_error->0);
    StepModel {
        id: shown_name(stage),
        status: if state.is_completed(stage) {
            "completed"@
        } else if !active {
            "pending"@
        } else if state.last_error is None {
            "running"@
        } else if failed {
            "error"@
        } else {
            "cancelled"@
        },
        progress: if state.is_completed(stage) {
            100
        } else {
            0
        },
        message: None,
        error: if failed {
            state.last_error
        } else {
            None
        },
    }
}

fn setup_step(state: &SetupState, stage: SetupStage, running: bool) -> (res: SetupStepStatus)
    ensures
        res@ == step_of(state@, stage, running),
{
    let id = exposed_stage(stage).to_owned();
    if state.stage_completed(stage) {
        return SetupStepStatus {
            id,
            status: "completed".to_owned(),
            progress: 100,
            message: None,
            error: None,
        };
    }
    if !(state.current_stage == stage && running) {
        return SetupStepStatus {
            id,
            status: "pending".to_owned(),
            progress: 0,
            message: None,
            error: None,
        };
    }
    match &state.last_error {
        None => SetupStepStatus {
            id,
            status: "running".to_owned(),
            progress: 0,
            message: None,
            error: None,
        },
        Some(error) => {
            if is_cancelled_error(error.as_str()) {
                SetupStepStatus {
                    id,
                    status: "cancelled".to_owned(),
                    progress: 0,
                    message: None,
                    error: None,
                }
            } else {
                SetupStepStatus {
                    id,
                    status: "error".to_owned(),
                    progress: 0,
                    message: None,
                    error: Some(error.clone()),
                }
            }
        },
    }
}

pub open spec fn step_views(steps: Seq<SetupStepStatus>) -> Seq<StepModel> {
    steps.map_values(|step: SetupStepStatus| step@)
}

/// What is shown of the five stages that take time.
pub open spec fn steps_of(state: SetupModel, running: bool) -> Seq<StepModel> {
    seq![
        step_of(state, SetupStage::Python, running),
        step_of(state, SetupStage::Venv, running),
        step_of(state, SetupStage::Dependencies, running),
        step_of(state, SetupStage::Resources, running),
        step_of(state, SetupStage::Models, running),
    ]
}

/// What is shown of the stages.
pub fn setup_steps(state: &SetupState, running: bool) -> (res: Vec<SetupStepStatus>)
    ensures
        step_views(res@) == steps_of(state@, running),
{
    let mut steps: Vec<SetupStepStatus> = Vec::new();
    steps.push(setup_step(state, SetupStage::Python, running));
    steps.push(setup_step(state, SetupStage::Venv, running));
    steps.push(setup_step(state, SetupStage::Dependencies, running));
    steps.push(setup_step(state, SetupStage::Resources, running));
    steps.push(setup_step(state, SetupStage::Models, running));
    assert(step_views(steps@) == steps_of(state@, running));
    steps
}

/// The terms of the summary model: their version, the fingerprint of the model
/// that they are for, and where they stand.
#[derive(Debug)]
pub struct TermsRecord {
    pub version: String,
    pub model_sha256: String,
    pub source: String,
}

impl TermsRecord {
    pub fn duplicate(&self) -> (res: TermsRecord)
        ensures
            res == *self,
    {
        TermsRecord {
            version: self.version.clone(),
            model_sha256: self.model_sha256.clone(),
            source: self.source.clone(),
        }
    }
}

/// What was found of the runtime.
#[derive(Debug)]
pub struct RuntimeFacts {
    /// Whether the graphics card of the machine can be used.
    pub gpu: bool,
    /// Whether the lists of dependencies on disk are those of the program.
    pub manifests_current: bool,
    pub required_models_missing: Vec<String>,
    pub terms_accepted: bool,
    /// The terms that are to be accepted.
    pub terms: TermsRecord,
    pub uv_present: bool,
    /// Whether the scripts on disk are those of the program.
    pub scripts_present: bool,
    pub python_present: bool,
    pub venv_present: bool,
    /// Whether the server for the summaries is there.
    pub llama_server_present: bool,
    pub lock_is_file: bool,
    /// The fingerprint of the lock file, where it could be read.
    pub lock_file_sha256: Option<String>,
    /// Whether the lock file was made for the list of dependencies in use.
    pub lock_matches: bool,
    /// What stands in the file that marks installed dependencies.
    pub marker: Option<String>,
    /// The fingerprint of the runtime as it is now.
    pub fingerprint: String,
    pub artifacts: ModelArtifacts,
    /// Why the root cannot be written to, where it cannot.
    pub write_error: Option<String>,
    /// Whether a setup is under way.
    pub running: bool,
}

/// Whether the setup, as far as files go, is for the program that runs now.
pub open spec fn facts_current(
    state: SetupModel,
    facts: RuntimeFacts,
    current: MetadataModel,
) -> bool {
    state.metadata == current && facts.manifests_current
}

/// What was found of the dependencies.
pub open spec fn dependency_facts(
    state: SetupModel,
    facts: RuntimeFacts,
    current: MetadataModel,
) -> DependencyFacts {
    DependencyFacts {
        metadata_current: facts_current(state, facts, current),
        backend_current: state.gpu == facts.gpu,
        venv_present: facts.venv_present,
        lock_present: facts_current(state, facts, current) && state.gpu == facts.gpu
            && facts.lock_is_file && state.lock_sha256.len() > 0 && text::opt_view(
            facts.lock_file_sha256,
        ) == Some(state.lock_sha256) && facts.lock_matches,
        marker_present: facts.marker is Some && text::trimmed(facts.marker->0@)
            == state.lock_sha256,
    }
}

/// The results of the probes, where they are for the runtime as it is now.
pub open spec fn valid_probes(
    state: SetupModel,
    facts: RuntimeFacts,
    current: MetadataModel,
) -> Option<ValidationModel> {
    if state.validation.fingerprint == facts.fingerprint@ && facts_current(state, facts, current) {
        Some(state.validation)
    } else {
        None
    }
}

/// What is said of the runtime.
pub struct StatusModel {
    pub root_dir: PathModel,
    pub python_dir: PathModel,
    pub venv_dir: PathModel,
    pub models_dir: PathModel,
    pub uv_cache_dir: PathModel,
    pub logs_dir: PathModel,
    pub running: bool,
    pub message: Option<Seq<char>>,
    pub required_models_missing: Seq<Seq<char>>,
    pub elevation_message: Option<Seq<char>>,
    pub uv_present: bool,
    pub scripts_present: bool,
    pub python_present: bool,
    pub venv_present: bool,
    pub asr_websocket_ready: bool,
    pub llama_server_present: bool,
    pub terms_accepted: bool,
    pub terms: TermsRecord,
    pub setup_state: SetupModel,
    pub ready: bool,
    pub setup_required: bool,
    pub required_models_ready: bool,
    pub writable: bool,
    pub readiness: RuntimeReadiness,
    pub dependency_ready: bool,
    pub lock_present: bool,
    pub current_stage: Option<Seq<char>>,
    pub progress: int,
    pub error: Option<Seq<char>>,
    pub status: Seq<char>,
    pub cancelled: bool,
    pub completed_stages: Seq<Seq<char>>,
    pub stages: Seq<StepModel>,
    pub diagnostics: Map<Seq<char>, Seq<char>>,
    pub elevation_required: bool,
}

/// The state that is shown, before a cancellation is taken out of it.
pub open spec fn shown_state(
    state: SetupModel,
    facts: RuntimeFacts,
    current: MetadataModel,
    now: Seq<char>,
) -> SetupModel {
    let found = dependency_facts(state, facts, current);
    let ready = readiness(found, facts.artifacts, valid_probes(state, facts, current));
    projected(
        state,
        facts_current(state, facts, current),
        facts.gpu,
        found.files_ready() && ready.python_import,
        facts.required_models_missing@.len() > 0 || !ready.python_import || !ready.tokenizer
            || !ready.embedding,
        now,
    )
}

/// Whether the runtime may be used: every stage is done, everything is there,
/// the probes have shown it, and the terms are accepted.
pub open spec fn is_ready(
    state: SetupModel,
    facts: RuntimeFacts,
    current: MetadataModel,
    now: Seq<char>,
) -> bool {
    let found = dependency_facts(state, facts, current);
    let ready = readiness(found, facts.artifacts, valid_probes(state, facts, current));
    &&& all_stages_done(shown_state(state, facts, current, now))
    &&& facts.scripts_present && facts.python_present
    &&& found.files_ready() && ready.python_import
    &&& ready.tokenizer && ready.embedding
    &&& facts.required_models_missing@.len() == 0
    &&& facts.terms_accepted
}

/// Whether the setup was stopped by the user.
pub open spec fn was_cancelled(state: SetupModel) -> bool {
    state.last_error is Some && is_cancellation(state.last_error->0)
}

/// What is said of the runtime. `probed` is what the probes said.
pub open spec fn status_of(
    state: SetupModel,
    facts: RuntimeFacts,
    current: MetadataModel,
    layout: RuntimeLayout,
    probed: Seq<Diagnostic>,
    now: Seq<char>,
) -> StatusModel {
    let found = dependency_facts(state, facts, current);
    let probes = valid_probes(state, facts, current);
    let ready = readiness(found, facts.artifacts, probes);
    let shown = shown_state(state, facts, current, now);
    let usable = is_ready(state, facts, current, now);
    let cancelled = was_cancelled(state);
    StatusModel {
        root_dir: layout.root@,
        python_dir: layout.python_dir@,
        venv_dir: layout.venv_dir@,
        models_dir: layout.models_dir@,
        uv_cache_dir: layout.uv_cache_dir@,
        logs_dir: layout.logs_dir@,
        running: facts.running,
        message: None,
        required_models_missing: text::views(facts.required_models_missing@),
        elevation_message: text::opt_view(facts.write_error),
        uv_present: facts.uv_present,
        scripts_present: facts.scripts_present,
        python_present: facts.python_present,
        venv_present: facts.venv_present,
        asr_websocket_ready: false,
        llama_server_present: facts.llama_server_present,
        terms_accepted: facts.terms_accepted,
        terms: facts.terms,
        setup_state: if cancelled {
            SetupModel { last_error: None, ..shown }
        } else {
            shown
        },
        ready: usable,
        setup_required: !usable || facts.required_models_missing@.len() > 0,
        required_models_ready: facts.required_models_missing@.len() == 0,
        writable: facts.write_error is None,
        readiness: ready,
        dependency_ready: found.files_ready() && ready.python_import,
        lock_present: found.lock_present,
        current_stage: Some(
            if usable {
                "complete"@
            } else if shown.is_completed(SetupStage::Complete) {
                "models"@
            } else {
                shown_name(shown.current_stage)
            },
        ),
        progress: progress_of(shown),
        error: if cancelled {
            None
        } else {
            state.last_error
        },
        status: if usable {
            "ready"@
        } else if cancelled {
            "cancelled"@
        } else if state.last_error is Some {
            "error"@
        } else if facts.running {
            "running"@
        } else {
            "pending"@
        },
        cancelled,
        completed_stages: done_names(shown),
        stages: steps_of(shown, facts.running),
        diagnostics: diagnostics_of(
            found,
            facts.artifacts,
            probes,
            if probes is Some {
                probed
            } else {
                Seq::empty()
            },
        ),
        elevation_required: facts.write_error is Some && text::begins_with(
            facts.write_error->0@,
            "elevation_required:"@,
        ),
    }
}

/// What is said of the runtime.
#[derive(Debug)]
pub struct RuntimeStatus {
    pub root_dir: RuntimePath,
    pub python_dir: RuntimePath,
    pub venv_dir: RuntimePath,
    pub models_dir: RuntimePath,
    pub uv_cache_dir: RuntimePath,
    pub logs_dir: RuntimePath,
    pub running: bool,
    pub message: Option<String>,
    pub required_models_missing: Vec<String>,
    pub elevation_message: Option<String>,
    pub uv_present: bool,
    pub scripts_present: bool,
    pub python_present: bool,
    pub venv_present: bool,
    /// Whether the speech worker is connected. The setup cannot tell: whoever
    /// holds the worker enters it.
    pub asr_websocket_ready: bool,
    pub llama_server_present: bool,
    pub terms_accepted: bool,
    pub terms: TermsRecord,
    pub setup_state: SetupState,
    pub ready: bool,
    pub setup_required: bool,
    pub required_models_ready: bool,
    pub writable: bool,
    pub readiness: RuntimeReadiness,
    pub dependency_ready: bool,
    pub lock_present: bool,
    pub current_stage: Option<String>,
    pub progress: u32,
    pub error: Option<String>,
    pub status: String,
    pub cancelled: bool,
    pub completed_stages: Vec<String>,
    pub stages: Vec<SetupStepStatus>,
    pub diagnostics: Vec<Diagnostic>,
    pub elevation_required: bool,
}

impl View for RuntimeStatus {
    type V = StatusModel;

    open spec fn view(&self) -> StatusModel {
        StatusModel {
            root_dir: self.root_dir@,
            python_dir: self.python_dir@,
            venv_dir: self.venv_dir@,
            models_dir: self.models_dir@,
            uv_cache_dir: self.uv_cache_dir@,
            logs_dir: self.logs_dir@,
            running: self.running,
            message: text::opt_view(self.message),
            required_models_missing: text::views(self.required_models_missing@),
            elevation_message: text::opt_view(self.elevation_message),
            uv_present: self.uv_present,
            scripts_present: self.scripts_present,
            python_present: self.python_present,
            venv_present: self.venv_present,
            asr_websocket_ready: self.asr_websocket_ready,
            llama_server_present: self.llama_server_present,
            terms_accepted: self.terms_accepted,
            terms: self.terms,
            setup_state: self.setup_state@,
            ready: self.ready,
            setup_required: self.setup_required,
            required_models_ready: self.required_models_ready,
            writable: self.writable,
            readiness: self.readiness,
            dependency_ready: self.dependency_ready,
            lock_present: self.lock_present,
            current_stage: text::opt_view(self.current_stage),
            progress: self.progress as int,
            error: text::opt_view(self.error),
            status: self.status@,
            cancelled: self.cancelled,
            completed_stages: text::views(self.completed_stages@),
            stages: step_views(self.stages@),
            diagnostics: bootstrap::diagnostic_map(self.diagnostics@),
            elevation_required: self.elevation_required,
        }
    }
}

fn find_dependency_facts(state: &SetupState, facts: &RuntimeFacts, current: &CurrentMetadata) -> (res:
    DependencyFacts)
    ensures
        res == dependency_facts(state@, *facts, current@),
{
    let metadata_current = state_metadata_current(state, current) && facts.manifests_current;
    let backend_current = state.gpu == facts.gpu;
    let lock_present = metadata_current && backend_current && facts.lock_is_file
        && !state.lock_sha256.as_str().is_empty() && text::is_text(
        &facts.lock_file_sha256,
        state.lock_sha256.as_str(),
    ) && facts.lock_matches;
    let marker_present = match &facts.marker {
        Some(value) => text::same_text(
            text::trim_text(value.as_str()).as_str(),
            state.lock_sha256.as_str(),
        ),
        None => false,
    };
    DependencyFacts {
        metadata_current,
        backend_current,
        venv_present: facts.venv_present,
        lock_present,
        marker_present,
    }
}

/// Says what is to be said of the runtime, given what the setup remembers and
/// what was found.
pub fn runtime_status(
    state: &SetupState,
    facts: &RuntimeFacts,
    current: &CurrentMetadata,
    layout: &RuntimeLayout,
    now: &str,
) -> (res: RuntimeStatus)
    ensures
        res@ == status_of(
            state@,
            *facts,
            current@,
            *layout,
            state.runtime_validation.diagnostics@,
            now@,
        ),
{
    let found = find_dependency_facts(state, facts, current);
    let validation: Option<&RuntimeValidationState> = if text::same_text(
        state.runtime_validation.fingerprint.as_str(),
        facts.fingerprint.as_str(),
    ) && found.metadata_current {
        Some(&state.runtime_validation)
    } else {
        None
    };
    let (readiness, diagnostics) = runtime_diagnostics(found, facts.artifacts, validation);
    let files_ready = found.lock_present && found.venv_present && found.marker_present;
    let dependency_ready = files_ready && readiness.python_import;
    let models_missing = facts.required_models_missing.len() > 0;
    let shown = status_state_for_readiness(
        state,
        found.metadata_current,
        facts.gpu,
        dependency_ready,
        models_missing,
        readiness,
        now,
    );
    let ready = required_setup_stages_complete(&shown) && facts.scripts_present
        && facts.python_present && dependency_ready && readiness.tokenizer && readiness.embedding
        && !models_missing && facts.terms_accepted;
    let cancelled = match &state.last_error {
        Some(error) => is_cancelled_error(error.as_str()),
        None => false,
    };
    let completed_stages = exposed_completed_stages(&shown);
    let current_stage = if ready {
        "complete"
    } else if shown.stage_completed(SetupStage::Complete) {
        "models"
    } else {
        exposed_stage(shown.current_stage)
    };
    let status = if ready {
        "ready"
    } else if cancelled {
        "cancelled"
    } else if state.last_error.is_some() {
        "error"
    } else if facts.running {
        "running"
    } else {
        "pending"
    };
    let progress = setup_progress(&shown);
    let stages = setup_steps(&shown, facts.running);
    let error = if cancelled {
        None
    } else {
        lance_memory::duplicate_option(&state.last_error)
    };
    let elevation_required = match &facts.write_error {
        Some(message) => text::text_begins_with(message.as_str(), "elevation_required:"),
        None => false,
    };
    let mut setup_state = shown;
    if cancelled {
        setup_state.last_error = None;
    }
    RuntimeStatus {
        root_dir: layout.root.duplicate(),
        python_dir: layout.python_dir.duplicate(),
        venv_dir: layout.venv_dir.duplicate(),
        models_dir: layout.models_dir.duplicate(),
        uv_cache_dir: layout.uv_cache_dir.duplicate(),
        logs_dir: layout.logs_dir.duplicate(),
        running: facts.running,
        message: None,
        required_models_missing: bootstrap::duplicate_names(&facts.required_models_missing),
        elevation_message: lance_memory::duplicate_option(&facts.write_error),
        uv_present: facts.uv_present,
        scripts_present: facts.scripts_present,
        python_present: facts.python_present,
        venv_present: facts.venv_present,
        asr_websocket_ready: false,
        llama_server_present: facts.llama_server_present,
        terms_accepted: facts.terms_accepted,
        terms: facts.terms.duplicate(),
        setup_state,
        ready,
        setup_required: !ready || models_missing,
        required_models_ready: !models_missing,
        writable: facts.write_error.is_none(),
        readiness,
        dependency_ready,
        lock_present: found.lock_present,
        current_stage: Some(current_stage.to_owned()),
        progress,
        error,
        status: status.to_owned(),
        cancelled,
        completed_stages,
        stages,
        diagnostics,
        elevation_required,
    }
}

/// The runtime is ready only when every layer was shown to work for the program
/// and the files as they are now, and the terms are accepted.
pub proof fn law_ready_means_validated(
    state: SetupModel,
    facts: RuntimeFacts,
    current: MetadataModel,
    now: Seq<char>,
)
    requires
        is_ready(state, facts, current, now),
    ensures
        state.metadata == current,
        state.gpu == facts.gpu,
        state.validation.fingerprint == facts.fingerprint@,
        state.validation.python_import_ready,
        state.validation.tokenizer_ready,
        state.validation.embedding_ready,
        facts.terms_accepted,
        facts.required_models_missing@.len() == 0,
{
}

/// A cancellation is never shown as an error.
pub proof fn law_cancellations_are_no_errors(
    state: SetupModel,
    facts: RuntimeFacts,
    current: MetadataModel,
    layout: RuntimeLayout,
    probed: Seq<Diagnostic>,
    now: Seq<char>,
)
    requires
        was_cancelled(state),
    ensures
        status_of(state, facts, current, layout, probed, now).error is None,
        status_of(state, facts, current, layout, probed, now).cancelled,
        status_of(state, facts, current, layout, probed, now).setup_state.last_error is None,
{
}

/// Refuses the use of a runtime that is not ready.
pub fn runtime_is_ready(status: &RuntimeStatus) -> (res: Result<(), String>)
    ensures
        status.ready ==> res is Ok,
        !status.ready ==> res is Err && res->Err_0@ == "runtime setup is not ready (status: "@
            + status.status@ + ")"@,
{
    if status.ready {
        return Ok(());
    }
    let mut message = "runtime setup is not ready (status: ".to_owned();
    text::append_text(&mut message, status.status.as_str());
    text::append_text(&mut message, ")");
    Err(message)
}

/// Whether the model server may be started: it was installed by the setup, and
/// is the one that the program carries.
pub open spec fn server_is_valid(
    state: Option<SetupModel>,
    present: bool,
    embedded: Option<Seq<u8>>,
    file_sha256: Option<Seq<char>>,
) -> bool {
    &&& state is Some && state->0.is_completed(SetupStage::Resources)
    &&& present
    &&& embedded is Some && file_sha256 == Some(digest::fingerprint(embedded->0))
}

pub open spec fn opt_state(state: Option<&SetupState>) -> Option<SetupModel> {
    match state {
        Some(found) => Some(found@),
        None => None,
    }
}

pub open spec fn opt_bytes(bytes: Option<&[u8]>) -> Option<Seq<u8>> {
    match bytes {
        Some(found) => Some(found@),
        None => None,
    }
}

/// The path of the model server, where it may be started. `embedded` is the
/// server that the program carries, `file_sha256` the fingerprint of the one on
/// disk.
pub fn validated_llama_server_path(
    layout: &bootstrap::RuntimeLayout,
    state: Option<&SetupState>,
    present: bool,
    embedded: Option<&[u8]>,
    file_sha256: &Option<String>,
) -> (res: Option<crate::paths::RuntimePath>)
    ensures
        server_is_valid(opt_state(state), present, opt_bytes(embedded), text::opt_view(*file_sha256))
            ==> res is Some && res->0@ == layout.llama_server_path@,
        !server_is_valid(
            opt_state(state),
            present,
            opt_bytes(embedded),
            text::opt_view(*file_sha256),
        ) ==> res is None,
{
    let installed = match state {
        Some(found) => found.stage_completed(SetupStage::Resources),
        None => false,
    };
    if !installed || !present {
        return None;
    }
    match embedded {
        Some(bytes) => {
            let expected = digest::sha256_hex(bytes);
            if text::is_text(file_sha256, expected.as_str()) {
                Some(layout.llama_server_path.duplicate())
            } else {
                None
            }
        },
        None => None,
    }
}

/// The state after the files of the program were written out.
pub open spec fn prepared(
    state: SetupModel,
    current: MetadataModel,
    gpu: bool,
    terms_accepted: bool,
    now: Seq<char>,
) -> SetupModel {
    let ready = synced(state, current, gpu, now);
    let marked = if ready.is_completed(SetupStage::Resources) {
        ready
    } else {
        ready.completing(SetupStage::Resources, now)
    };
    if terms_accepted {
        marked
    } else {
        SetupModel { current_stage: SetupStage::Pending, last_error: None, ..marked }
    }
}

/// The files of the program were written out. A finished setup stays finished,
/// and before the terms are accepted the setup stays pending.
pub fn prepare_runtime(
    state: &mut SetupState,
    current: &CurrentMetadata,
    gpu: bool,
    terms_accepted: bool,
    now: &str,
)
    ensures
        final(state)@ == prepared(old(state)@, current@, gpu, terms_accepted, now@),
{
    sync_state_metadata(state, gpu, current, now);
    if !state.stage_completed(SetupStage::Resources) {
        state.mark_completed(SetupStage::Resources, now);
    }
    if !terms_accepted {
        state.current_stage = SetupStage::Pending;
        state.last_error = None;
    }
}

/// A setup that was finished for the program that runs now is still finished
/// after the files were written out again.
pub proof fn law_preparing_keeps_a_finished_setup(
    state: SetupModel,
    current: MetadataModel,
    terms_accepted: bool,
    now: Seq<char>,
)
    requires
        state.metadata == current,
        all_stages_done(state),
    ensures
        all_stages_done(prepared(state, current, state.gpu, terms_accepted, now)),
        prepared(state, current, state.gpu, true, now).current_stage == state.current_stage,
{
}

/// Clears an error that an earlier attempt left. Tells whether there was one.
pub fn clear_setup_error(state: &mut SetupState, now: &str) -> (res: bool)
    ensures
        res == (old(state)@.last_error is Some),
        res ==> final(state)@ == (SetupModel {
            last_error: None,
            updated_at: now@,
            ..old(state)@
        }),
        !res ==> final(state)@ == old(state)@,
{
    if state.last_error.is_none() {
        return false;
    }
    state.last_error = None;
    state.updated_at = now.to_owned();
    true
}

/// Whether a setup is under way, and whether it was asked to stop.
pub struct SetupControl {
    cancelled: bool,
    running: bool,
}

impl SetupControl {
    pub closed spec fn is_cancelled(self) -> bool {
        self.cancelled
    }

    pub closed spec fn is_running(self) -> bool {
        self.running
    }

    pub fn new() -> (res: SetupControl)
        ensures
            !res.is_cancelled(),
            !res.is_running(),
    {
        SetupControl { cancelled: false, running: false }
    }

    /// A setup begins. A wish to stop that came before is forgotten.
    pub fn begin(&mut self)
        ensures
            !final(self).is_cancelled(),
            final(self).is_running(),
    {
        self.cancelled = false;
        self.running = true;
    }

    /// The setup is over.
    pub fn end(&mut self)
        ensures
            final(self).is_cancelled() == old(self).is_cancelled(),
            !final(self).is_running(),
    {
        self.running = false;
    }

    /// Tells whether a setup is under way.
    pub fn running(&self) -> (res: bool)
        ensures
            res == self.is_running(),
    {
        self.running
    }
}

/// Asks the setup to stop.
pub fn cancel_setup(control: &mut SetupControl)
    ensures
        final(control).is_cancelled(),
        final(control).is_running() == old(control).is_running(),
{
    control.cancelled = true;
}

/// Tells whether the setup was asked to stop.
pub fn setup_in_progress_cancelled(control: &SetupControl) -> (res: bool)
    ensures
        res == control.is_cancelled(),
{
    control.cancelled
}

/// What came of the wish to run the setup with more rights.
#[derive(Debug)]
pub struct ElevationRequestResult {
    pub launched: bool,
    pub message: String,
}

/// What came of the wish to run the setup with more rights, given the number
/// that the system answered with: up to thirty-two it is a refusal.
pub fn relaunch_setup_elevated(windows: bool, answer: usize) -> (res: Result<
    ElevationRequestResult,
    String,
>)
    ensures
        !windows ==> res is Err && res->Err_0@
            == "elevation is only supported on Windows; choose a writable folder"@,
        windows && answer <= 32 ==> res is Err && res->Err_0@
            == "elevation_required: UAC request was rejected or could not be started"@,
        windows && answer > 32 ==> res is Ok && res->Ok_0.launched && res->Ok_0.message@
            == "Elevated setup process started; this process remains standard-user."@,
{
    if !windows {
        return Err(
            "elevation is only supported on Windows; choose a writable folder".to_owned(),
        );
    }
    if answer <= 32 {
        return Err(
            "elevation_required: UAC request was rejected or could not be started".to_owned(),
        );
    }
    Ok(
        ElevationRequestResult {
            launched: true,
            message: "Elevated setup process started; this process remains standard-user.".to_owned(),
        },
    )
}

/// Where the program is the same and so is the graphics card, syncing changes
/// nothing but the time; a changed card alone takes back the stages after the
/// packages, and what was validated.
pub proof fn law_syncing_takes_back_what_no_longer_holds(
    state: SetupModel,
    gpu: bool,
    now: Seq<char>,
    stage: SetupStage,
)
    ensures
        ({
            let same = synced(state, state.metadata, state.gpu, now);
            let other = synced(state, state.metadata, gpu, now);
            &&& same == (SetupModel { updated_at: now, ..state })
            &&& other.gpu == gpu
            &&& gpu != state.gpu ==> other.validation == bootstrap::no_validation()
            &&& gpu != state.gpu ==> other.is_completed(SetupStage::Python) == state.is_completed(
                SetupStage::Python,
            )
            &&& gpu != state.gpu ==> other.is_completed(SetupStage::Dependencies)
                == state.is_completed(SetupStage::Dependencies)
            &&& gpu != state.gpu && (stage == SetupStage::Models || stage == SetupStage::Complete)
                ==> !other.is_completed(stage)
        }),
{
    bootstrap::law_completed_stages_are_kept(state, SetupStage::Dependencies, stage, now);
    bootstrap::law_completed_stages_are_kept(
        state,
        SetupStage::Dependencies,
        SetupStage::Python,
        now,
    );
    bootstrap::law_completed_stages_are_kept(
        state,
        SetupStage::Dependencies,
        SetupStage::Dependencies,
        now,
    );
}

/// A layer is ready exactly where its files are there and a probe that still
/// holds has shown it to work.
pub proof fn law_layers_are_ready_when_probed(
    facts: DependencyFacts,
    artifacts: ModelArtifacts,
    validation: ValidationModel,
)
    ensures
        ({
            let ready = readiness(facts, artifacts, Some(validation));
            let none = readiness(facts, artifacts, None);
            let files = facts.lock_present && facts.venv_present && facts.marker_present;
            &&& ready.python_import == (files && validation.python_import_ready)
            &&& ready.tokenizer == (files && artifacts.whisper_tokenizer
                && artifacts.embedding_tokenizer_config && validation.tokenizer_ready)
            &&& ready.embedding == (files && (artifacts.embedding_pytorch_weights
                || artifacts.embedding_safetensors_weights) && artifacts.embedding_sentencepiece
                && validation.embedding_ready)
            &&& !none.python_import && !none.tokenizer && !none.embedding
        }),
{
}

/// The first thing that is wrong with the packages is named.
pub proof fn law_the_first_problem_of_the_packages_is_named(
    facts: DependencyFacts,
    artifacts: ModelArtifacts,
    validation: Option<ValidationModel>,
)
    ensures
        ({
            let code = dependency_code(facts, artifacts, validation);
            let current = facts.metadata_current && facts.backend_current;
            let files = facts.venv_present && facts.lock_present && facts.marker_present;
            &&& !facts.metadata_current ==> code == "dependency_manifest_stale"@
            &&& facts.metadata_current && !facts.backend_current ==> code
                == "dependency_backend_changed"@
            &&& current && !facts.venv_present ==> code == "dependency_venv_missing"@
            &&& current && facts.venv_present && !facts.lock_present ==> code
                == "dependency_lock_stale"@
            &&& current && facts.venv_present && facts.lock_present && !facts.marker_present ==> code
                == "dependency_marker_missing"@
            &&& current && files && validation is None ==> code == "dependency_runtime_unverified"@
            &&& current && files && validation is Some && !validation->0.python_import_ready ==> code
                == "python_import_failed"@
            &&& current && files && validation is Some && validation->0.python_import_ready ==> code
                == "dependency_ready"@
        }),
{
}

/// What is shown of each layer: what is in its way, that it was not probed yet,
/// that it is ready, or that it failed, in this order.
pub proof fn law_findings_name_each_layer(
    facts: DependencyFacts,
    artifacts: ModelArtifacts,
    validation: Option<ValidationModel>,
)
    ensures
        ({
            let found = diagnostics_of(facts, artifacts, validation, Seq::empty());
            let files = facts.lock_present && facts.venv_present && facts.marker_present;
            &&& found["dependency"@] == dependency_code(facts, artifacts, validation)
            &&& !files ==> found["python_import"@] == "dependency_not_ready"@
            &&& files && validation is None ==> found["python_import"@]
                == "python_import_unverified"@
            &&& files && validation is Some ==> found["python_import"@]
                == if validation->0.python_import_ready {
                "python_import_ready"@
            } else {
                "python_import_failed"@
            }
            &&& !(artifacts.whisper_tokenizer && artifacts.embedding_tokenizer_config)
                ==> found["tokenizer"@] == "tokenizer_missing"@
            &&& artifacts.whisper_tokenizer && artifacts.embedding_tokenizer_config
                && validation is None ==> found["tokenizer"@] == "tokenizer_runtime_unverified"@
            &&& !(artifacts.embedding_sentencepiece) ==> found["embedding"@]
                == "embedding_model_missing"@
            &&& artifacts.embedding_sentencepiece && artifacts.embedding_pytorch_weights
                && validation is None ==> found["embedding"@] == "embedding_runtime_unverified"@
            &&& files && artifacts.embedding_sentencepiece && artifacts.embedding_pytorch_weights
                && validation is Some && validation->0.embedding_ready ==> found["embedding"@]
                == "embedding_ready"@
        }),
{
    reveal_strlit("dependency");
    reveal_strlit("python_import");
    reveal_strlit("tokenizer");
    reveal_strlit("embedding");
    assert("dependency"@[0] == 'd' && "python_import"@[0] == 'p' && "tokenizer"@[0] == 't'
        && "embedding"@[0] == 'e');
}

/// The stages as they are shown: what still holds stays done, the last error is
/// kept, and a stage is taken back where its result is gone.
pub proof fn law_shown_stages_still_hold(state: SetupModel, now: Seq<char>, stage: SetupStage)
    ensures
        projected(state, true, state.gpu, true, false, now) == state,
        projected(state, false, state.gpu, true, false, now).completed == Set::<
            Seq<char>,
        >::empty(),
        projected(state, true, state.gpu, true, true, now).last_error == state.last_error,
        projected(state, true, state.gpu, true, true, now).is_completed(SetupStage::Models)
            == state.is_completed(SetupStage::Models),
        state.is_completed(SetupStage::Models) ==> !projected(
            state,
            true,
            state.gpu,
            true,
            true,
            now,
        ).is_completed(SetupStage::Complete),
        state.is_completed(SetupStage::Dependencies) ==> !projected(
            state,
            true,
            state.gpu,
            false,
            false,
            now,
        ).is_completed(SetupStage::Models),
{
    bootstrap::law_completed_stages_are_kept(
        state,
        SetupStage::Models,
        SetupStage::Complete,
        now,
    );
    bootstrap::law_completed_stages_are_kept(state, SetupStage::Models, SetupStage::Models, now);
    bootstrap::law_completed_stages_are_kept(
        state,
        SetupStage::Dependencies,
        SetupStage::Models,
        now,
    );
}

/// A setup counts as done exactly where each of its six stages is.
pub proof fn law_all_six_stages_are_needed(state: SetupModel, stage: SetupStage)
    ensures
        all_stages_done(state) && stage != SetupStage::Pending ==> state.is_completed(stage),
        (forall|s: SetupStage| s != SetupStage::Pending ==> #[trigger] state.is_completed(s))
            ==> all_stages_done(state),
{
}

/// The stages are shown under their names, two of them under names of their
/// own.
pub proof fn law_two_stages_are_shown_otherwise(stage: SetupStage)
    ensures
        shown_name(stage) == match stage {
            SetupStage::Pending => "pending"@,
            SetupStage::Resources => "scripts"@,
            SetupStage::Python => "python"@,
            SetupStage::Venv => "venv"@,
            SetupStage::Dependencies => "packages"@,
            SetupStage::Models => "models"@,
            SetupStage::Complete => "complete"@,
        },
{
}

/// A stage is among those shown as done exactly where it is done.
pub proof fn law_done_stages_are_shown(state: SetupModel, i: int)
    requires
        0 <= i < shown_stages().len(),
    ensures
        shown_stages().len() == 6,
        state.is_completed(shown_stages()[i]) ==> done_names(state).contains(
            shown_name(shown_stages()[i]),
        ),
        shown_stages().contains(SetupStage::Python),
        shown_stages().contains(SetupStage::Venv),
        shown_stages().contains(SetupStage::Dependencies),
        shown_stages().contains(SetupStage::Resources),
        shown_stages().contains(SetupStage::Models),
        shown_stages().contains(SetupStage::Complete),
        done_names(state).len() <= 6,
{
    let flags = shown_done(state);
    let places = ordering::places(flags);
    ordering::lemma_places(flags);
    assert(shown_stages()[0] == SetupStage::Python && shown_stages()[1] == SetupStage::Venv
        && shown_stages()[2] == SetupStage::Dependencies && shown_stages()[3]
        == SetupStage::Resources && shown_stages()[4] == SetupStage::Models && shown_stages()[5]
        == SetupStage::Complete);
    if state.is_completed(shown_stages()[i]) {
        assert(flags[i]);
        assert(places.contains(i));
        let k = places.index_of(i);
        assert(done_names(state)[k] == shown_name(shown_stages()[i]));
    }
}

/// Each of the four stages that take time is a quarter of the progress, and a
/// setup that is done is all of it.
pub proof fn law_four_stages_make_the_progress(state: SetupModel)
    ensures
        state.is_completed(SetupStage::Complete) ==> progress_of(state) == 100,
        !state.is_completed(SetupStage::Complete) ==> ({
            let python: int = if state.is_completed(SetupStage::Python) {
                25
            } else {
                0
            };
            let venv: int = if state.is_completed(SetupStage::Venv) {
                25
            } else {
                0
            };
            let packages: int = if state.is_completed(SetupStage::Dependencies) {
                25
            } else {
                0
            };
            let models: int = if state.is_completed(SetupStage::Models) {
                25
            } else {
                0
            };
            progress_of(state) == python + venv + packages + models
        }),
        0 <= progress_of(state) <= 100,
{
}

/// A step is shown as completed where it is done, and with its error or as
/// cancelled only while the setup is at it; the others wait.
pub proof fn law_steps_are_shown_as_they_stand(state: SetupModel, stage: SetupStage, running: bool)
    ensures
        ({
            let step = step_of(state, stage, running);
            let at_it = !state.is_completed(stage) && state.current_stage == stage && running;
            &&& step.id == shown_name(stage)
            &&& state.is_completed(stage) ==> step.status == "completed"@ && step.progress == 100
                && step.error is None
            &&& !state.is_completed(stage) ==> step.progress == 0
            &&& !state.is_completed(stage) && !at_it ==> step.status == "pending"@
                && step.error is None
            &&& at_it && state.last_error is None ==> step.status == "running"@
            &&& at_it && state.last_error is Some && !text::begins_with(
                state.last_error->0,
                "setup cancelled"@,
            ) ==> step.status == "error"@ && step.error == state.last_error
            &&& at_it && state.last_error is Some && text::begins_with(
                state.last_error->0,
                "setup cancelled"@,
            ) ==> step.status == "cancelled"@ && step.error is None
        }),
        steps_of(state, running).len() == 5,
        steps_of(state, running)[0] == step_of(state, SetupStage::Python, running),
        steps_of(state, running)[1] == step_of(state, SetupStage::Venv, running),
        steps_of(state, running)[2] == step_of(state, SetupStage::Dependencies, running),
        steps_of(state, running)[3] == step_of(state, SetupStage::Resources, running),
        steps_of(state, running)[4] == step_of(state, SetupStage::Models, running),
{
}

/// The lock file holds for the program and the card it was made for, while it
/// is the file that was remembered; the mark of the packages names it.
pub proof fn law_the_lock_is_the_one_remembered(
    state: SetupModel,
    facts: RuntimeFacts,
    current: MetadataModel,
)
    ensures
        dependency_facts(state, facts, current).lock_present == (state.metadata == current
            && facts.manifests_current && state.gpu == facts.gpu && facts.lock_is_file
            && state.lock_sha256.len() > 0 && facts.lock_file_sha256 is Some
            && facts.lock_file_sha256->0@ == state.lock_sha256 && facts.lock_matches),
        dependency_facts(state, facts, current).marker_present == (facts.marker is Some
            && text::trimmed(facts.marker->0@) == state.lock_sha256),
        dependency_facts(state, facts, current).backend_current == (state.gpu == facts.gpu),
        dependency_facts(state, facts, current).metadata_current == (state.metadata == current
            && facts.manifests_current),
        dependency_facts(state, facts, current).venv_present == facts.venv_present,
        (valid_probes(state, facts, current) is Some) == (state.validation.fingerprint
            == facts.fingerprint@ && state.metadata == current && facts.manifests_current),
{
}

/// A runtime in which everything is there, validated and accepted is ready, and
/// shown so.
pub proof fn law_a_sound_runtime_is_ready(
    state: SetupModel,
    facts: RuntimeFacts,
    current: MetadataModel,
    layout: RuntimeLayout,
    probed: Seq<Diagnostic>,
    now: Seq<char>,
)
    requires
        forall|stage: SetupStage| #[trigger] state.is_completed(stage),
        state.metadata == current,
        facts.manifests_current,
        state.gpu == facts.gpu,
        facts.venv_present,
        facts.lock_is_file,
        state.lock_sha256.len() > 0,
        text::opt_view(facts.lock_file_sha256) == Some(state.lock_sha256),
        facts.lock_matches,
        facts.marker is Some,
        text::trimmed(facts.marker->0@) == state.lock_sha256,
        state.validation.fingerprint == facts.fingerprint@,
        state.validation.python_import_ready,
        state.validation.tokenizer_ready,
        state.validation.embedding_ready,
        facts.artifacts.whisper_tokenizer,
        facts.artifacts.embedding_tokenizer_config,
        facts.artifacts.embedding_pytorch_weights || facts.artifacts.embedding_safetensors_weights,
        facts.artifacts.embedding_sentencepiece,
        facts.scripts_present,
        facts.python_present,
        facts.required_models_missing@.len() == 0,
        facts.terms_accepted,
    ensures
        is_ready(state, facts, current, now),
        status_of(state, facts, current, layout, probed, now).ready,
        status_of(state, facts, current, layout, probed, now).status == "ready"@,
        status_of(state, facts, current, layout, probed, now).current_stage == Some("complete"@),
        !status_of(state, facts, current, layout, probed, now).setup_required,
        status_of(state, facts, current, layout, probed, now).progress == 100,
{
    assert(state.is_completed(SetupStage::Complete) && state.is_completed(SetupStage::Models)
        && state.is_completed(SetupStage::Dependencies) && state.is_completed(SetupStage::Venv)
        && state.is_completed(SetupStage::Python) && state.is_completed(SetupStage::Resources));
    assert(shown_state(state, facts, current, now) == state);
}

/// What is shown of a runtime that is not ready: a stop by the user comes
/// first, then the error, then that the setup runs.
pub proof fn law_the_status_names_what_is_going_on(
    state: SetupModel,
    facts: RuntimeFacts,
    current: MetadataModel,
    layout: RuntimeLayout,
    probed: Seq<Diagnostic>,
    now: Seq<char>,
)
    ensures
        ({
            let shown = status_of(state, facts, current, layout, probed, now);
            let stopped = state.last_error is Some && text::begins_with(
                state.last_error->0,
                "setup cancelled"@,
            );
            &&& shown.ready == is_ready(state, facts, current, now)
            &&& !shown.ready && stopped ==> shown.status == "cancelled"@ && shown.error is None
            &&& !shown.ready && !stopped && state.last_error is Some ==> shown.status == "error"@
                && shown.error == state.last_error
            &&& !shown.ready && state.last_error is None && facts.running ==> shown.status
                == "running"@
            &&& !shown.ready && state.last_error is None && !facts.running ==> shown.status
                == "pending"@
            &&& !shown.ready ==> shown.setup_required
            &&& shown.required_models_ready == (facts.required_models_missing@.len() == 0)
            &&& shown.writable == (facts.write_error is None)
            &&& shown.elevation_required == (facts.write_error is Some && text::begins_with(
                facts.write_error->0@,
                "elevation_required:"@,
            ))
            &&& shown.terms_accepted == facts.terms_accepted
            &&& shown.root_dir == layout.root@
            &&& shown.models_dir == layout.models_dir@
            &&& shown.running == facts.running
        }),
{
}

/// The server is used only where its installation is done and its file is the
/// one that belongs to the program.
pub proof fn law_only_the_own_server_is_used(
    state: SetupModel,
    present: bool,
    embedded: Seq<u8>,
    file_sha256: Option<Seq<char>>,
)
    ensures
        server_is_valid(Some(state), present, Some(embedded), file_sha256) == (state.is_completed(
            SetupStage::Resources,
        ) && present && file_sha256 == Some(digest::fingerprint(embedded))),
        !server_is_valid(None, present, Some(embedded), file_sha256),
        !server_is_valid(Some(state), present, None, file_sha256),
{
}

/// Preparing marks the resources as there, and without the terms the setup
/// waits at its beginning with nothing wrong.
pub proof fn law_preparing_marks_the_resources(
    state: SetupModel,
    current: MetadataModel,
    gpu: bool,
    terms_accepted: bool,
    now: Seq<char>,
)
    ensures
        prepared(state, current, gpu, terms_accepted, now).is_completed(SetupStage::Resources),
        prepared(state, current, gpu, terms_accepted, now).metadata == current,
        prepared(state, current, gpu, terms_accepted, now).gpu == gpu,
        !terms_accepted ==> prepared(state, current, gpu, terms_accepted, now).current_stage
            == SetupStage::Pending,
        !terms_accepted ==> prepared(state, current, gpu, terms_accepted, now).last_error is None,
        state.metadata != current ==> !prepared(
            state,
            current,
            gpu,
            terms_accepted,
            now,
        ).is_completed(SetupStage::Python),
{
    let ready = synced(state, current, gpu, now);
    bootstrap::law_a_finished_stage_leads_to_the_next(
        ready,
        SetupStage::Resources,
        SetupStage::Python,
        now,
    );
}

/// A lock file that was made for one list of dependencies is not taken for one
/// of another list, and whatever follows its head is of no account.
pub proof fn law_lock_files_belong_to_their_list(a: Seq<char>, b: Seq<char>, rest: Seq<char>)
    requires
        a.len() == b.len(),
    ensures
        text::begins_with(lock_header_text(a) + rest, lock_header_text(b)) == (a == b),
        text::contains_text(lock_header_text(a), "requirements-sha256: "@ + a + "\n"@),
{
    let head = "# GameAssistant uv lock manifest\n# requirements-sha256: "@;
    let label = "requirements-sha256: "@;
    reveal_strlit("# GameAssistant uv lock manifest\n# requirements-sha256: ");
    reveal_strlit("requirements-sha256: ");
    let all = lock_header_text(a) + rest;
    let n = head.len() as int;
    let line = label + a + "\n"@;
    let at = n - label.len();
    assert(all.subrange(n, n + a.len()) == a);
    assert(lock_header_text(b).subrange(n, n + b.len()) == b);
    let start = all.take(lock_header_text(b).len() as int);
    if start == lock_header_text(b) {
        assert(start.subrange(n, n + a.len()) == a);
    }
    assert(a == b ==> start == lock_header_text(b));
    assert(head.subrange(at, n) == label);
    assert(lock_header_text(a).subrange(at, at + line.len()) == line);
    assert(text::occurs_at(lock_header_text(a), line, at));
}

/// What the probes found counts as long as the runtime is the one that they
/// ran in: with the same fingerprint, for the same program, from the same
/// lists.
pub proof fn law_findings_count_for_one_runtime(
    state: SetupModel,
    facts: RuntimeFacts,
    current: MetadataModel,
)
    ensures
        state.validation.fingerprint != facts.fingerprint@ ==> valid_probes(
            state,
            facts,
            current,
        ) is None,
        state.metadata != current ==> valid_probes(state, facts, current) is None,
        !facts.manifests_current ==> valid_probes(state, facts, current) is None,
        state.validation.fingerprint == facts.fingerprint@ && state.metadata == current
            && facts.manifests_current ==> valid_probes(state, facts, current) == Some(
            state.validation,
        ),
{
}

/// A setup is not shown as complete, with its models, while a model is missing
/// or a probe has not shown that the runtime works.
pub proof fn law_missing_models_are_shown(
    state: SetupModel,
    facts: RuntimeFacts,
    current: MetadataModel,
    now: Seq<char>,
)
    requires
        facts.required_models_missing@.len() > 0 || valid_probes(state, facts, current) is None
            || !valid_probes(state, facts, current)->0.python_import_ready || !valid_probes(
            state,
            facts,
            current,
        )->0.tokenizer_ready || !valid_probes(state, facts, current)->0.embedding_ready,
    ensures
        !(shown_state(state, facts, current, now).is_completed(SetupStage::Models) && shown_state(
            state,
            facts,
            current,
            now,
        ).is_completed(SetupStage::Complete)),
{
    let found = dependency_facts(state, facts, current);
    let ready = readiness(found, facts.artifacts, valid_probes(state, facts, current));
    let first = if !facts_current(state, facts, current) {
        SetupModel { completed: Set::empty(), current_stage: SetupStage::Pending, ..state }
    } else if state.gpu != facts.gpu {
        state.cleared_from(SetupStage::Dependencies, now)
    } else {
        state
    };
    let second = if !(found.files_ready() && ready.python_import) && first.is_completed(
        SetupStage::Dependencies,
    ) {
        first.cleared_from(SetupStage::Dependencies, now)
    } else {
        first
    };
    bootstrap::law_completed_stages_are_kept(
        second,
        SetupStage::Models,
        SetupStage::Complete,
        now,
    );
}

/// What the probes said is shown where it counts, over the plain codes, and is
/// of no account where it does not.
pub proof fn law_findings_of_the_probes_are_shown(
    state: SetupModel,
    facts: RuntimeFacts,
    current: MetadataModel,
    layout: RuntimeLayout,
    probed: Seq<Diagnostic>,
    now: Seq<char>,
)
    ensures
        valid_probes(state, facts, current) is None ==> status_of(
            state,
            facts,
            current,
            layout,
            probed,
            now,
        ) == status_of(state, facts, current, layout, Seq::empty(), now),
        valid_probes(state, facts, current) is Some && probed.len() > 0 ==> {
            let shown = status_of(state, facts, current, layout, probed, now).diagnostics;
            &&& shown.dom().contains(probed.last().key@)
            &&& shown[probed.last().key@] == probed.last().value@
        },
{
}

} // verus!
