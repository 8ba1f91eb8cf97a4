//! The setup of the portable runtime: its stages, its files, and what it
//! remembers from one start to the next.
use vstd::prelude::*;

use crate::lance_memory;
use crate::paths;
use crate::paths::{PathModel, RuntimePath};
use crate::text;

verus! {

pub const PYTHON_VERSION: &'static str = "3.12";

pub const SETUP_STATE_VERSION: u32 = 1;

pub const GPU_TORCH_BACKEND: &'static str = "cu128";

/// For how many seconds a probe may run.
pub const RUNTIME_PROBE_TIMEOUT_SECS: u64 = 180;

/// The stages of the setup, in order.
#[derive(Debug, Clone, Copy, PartialEq, Eq, Structural)]
pub enum SetupStage {
    Pending,
    Resources,
    Python,
    Venv,
    Dependencies,
    Models,
    Complete,
}

impl SetupStage {
    /// The place of the stage in the order.
    pub open spec fn rank(self) -> int {
        match self {
            SetupStage::Pending => 0,
            SetupStage::Resources => 1,
            SetupStage::Python => 2,
            SetupStage::Venv => 3,
            SetupStage::Dependencies => 4,
            SetupStage::Models => 5,
            SetupStage::Complete => 6,
        }
    }

    /// The name of the stage.
    pub open spec fn name(self) -> Seq<char> {
        match self {
            SetupStage::Pending => "pending"@,
            SetupStage::Resources => "resources"@,
            SetupStage::Python => "python"@,
            SetupStage::Venv => "venv"@,
            SetupStage::Dependencies => "dependencies"@,
            SetupStage::Models => "models"@,
            SetupStage::Complete => "complete"@,
        }
    }

    /// The stage after this one.
    pub open spec fn next(self) -> SetupStage {
        match self {
            SetupStage::Pending => SetupStage::Resources,
            SetupStage::Resources => SetupStage::Python,
            SetupStage::Python => SetupStage::Venv,
            SetupStage::Venv => SetupStage::Dependencies,
            SetupStage::Dependencies => SetupStage::Models,
            SetupStage::Models => SetupStage::Complete,
            SetupStage::Complete => SetupStage::Complete,
        }
    }

    /// The name of the stage.
    pub fn as_str(self) -> (res: &'static str)
        ensures
            res@ == self.name(),
    {
        match self {
            SetupStage::Pending => "pending",
            SetupStage::Resources => "resources",
            SetupStage::Python => "python",
            SetupStage::Venv => "venv",
            SetupStage::Dependencies => "dependencies",
            SetupStage::Models => "models",
            SetupStage::Complete => "complete",
        }
    }

    /// The stages after this one, in order.
    pub fn downstream(self) -> (res: Vec<SetupStage>)
        ensures
            forall|stage: SetupStage|
                #[trigger] res@.contains(stage) <==> stage.rank() > self.rank(),
            forall|i: int, j: int|
                0 <= i < j < res@.len() ==> (#[trigger] res@[i]).rank() < (
                #[trigger] res@[j]).rank(),
    {
        let all: Vec<SetupStage> = vec![
            SetupStage::Pending,
            SetupStage::Resources,
            SetupStage::Python,
            SetupStage::Venv,
            SetupStage::Dependencies,
            SetupStage::Models,
            SetupStage::Complete,
        ];
        assert(forall|i: int| 0 <= i < all@.len() ==> (#[trigger] all@[i]).rank() == i);
        let first: usize = match self {
            SetupStage::Pending => 1,
            SetupStage::Resources => 2,
            SetupStage::Python => 3,
            SetupStage::Venv => 4,
            SetupStage::Dependencies => 5,
            SetupStage::Models => 6,
            SetupStage::Complete => 7,
        };
        let mut res: Vec<SetupStage> = Vec::new();
        let mut i: usize = first;
        while i < all.len()
            invariant
                first <= i <= all@.len() == 7,
                first == self.rank() + 1,
                res@ == all@.subrange(first as int, i as int),
            decreases all@.len() - i,
        {
            res.push(all[i]);
            i += 1;
            assert(all@.subrange(first as int, i as int) == all@.subrange(
                first as int,
                i - 1,
            ).push(all@[i - 1]));
        }
        proof {
            assert forall|stage: SetupStage| #[trigger]
                res@.contains(stage) <==> stage.rank() > self.rank() by {
                let at = stage.rank();
                assert(all@[at].rank() == at);
                assert(all@[at] == stage);
                if at > self.rank() {
                    assert(res@[at - first] == stage);
                }
                if res@.contains(stage) {
                    let k = res@.index_of(stage);
                    assert(all@[first + k] == stage);
                }
            }
        }
        res
    }
}

/// Different stages have different names.
pub proof fn law_stage_names_differ(a: SetupStage, b: SetupStage)
    requires
        a.name() == b.name(),
    ensures
        a == b,
{
    reveal_strlit("pending");
    reveal_strlit("resources");
    reveal_strlit("python");
    reveal_strlit("venv");
    reveal_strlit("dependencies");
    reveal_strlit("models");
    reveal_strlit("complete");
    assert("pending"@[0] == 'p' && "pending"@[1] == 'e');
    assert("resources"@[0] == 'r');
    assert("python"@[0] == 'p' && "python"@[1] == 'y');
    assert("venv"@[0] == 'v');
    assert("dependencies"@[0] == 'd');
    assert("models"@[0] == 'm');
    assert("complete"@[0] == 'c');
}

/// What a probe found, by its name.
#[derive(Debug)]
pub struct Diagnostic {
    pub key: String,
    pub value: String,
}

/// The findings, by their names.
pub open spec fn diagnostic_map(list: Seq<Diagnostic>) -> Map<Seq<char>, Seq<char>>
    decreases list.len(),
{
    if list.len() == 0 {
        Map::empty()
    } else {
        diagnostic_map(list.drop_last()).insert(list.last().key@, list.last().value@)
    }
}

/// Appends a finding. A later one of the same name takes the place of an
/// earlier one.
pub fn add_diagnostic(list: &mut Vec<Diagnostic>, key: &str, value: &str)
    ensures
        diagnostic_map(final(list)@) == diagnostic_map(old(list)@).insert(key@, value@),
{
    let ghost before = list@;
    list.push(Diagnostic { key: key.to_owned(), value: value.to_owned() });
    assert(list@.drop_last() == before);
}

fn duplicate_diagnostics(list: &Vec<Diagnostic>) -> (res: Vec<Diagnostic>)
    ensures
        diagnostic_map(res@) == diagnostic_map(list@),
{
    let mut res: Vec<Diagnostic> = Vec::new();
    append_diagnostics(&mut res, list);
    proof {
        lemma_union_from_empty(list@);
    }
    res
}

/// The findings of a list over those of a map.
pub open spec fn overlaid(base: Map<Seq<char>, Seq<char>>, list: Seq<Diagnostic>) -> Map<
    Seq<char>,
    Seq<char>,
>
    decreases list.len(),
{
    if list.len() == 0 {
        base
    } else {
        overlaid(base, list.drop_last()).insert(list.last().key@, list.last().value@)
    }
}

proof fn lemma_union_from_empty(list: Seq<Diagnostic>)
    ensures
        overlaid(Map::empty(), list) == diagnostic_map(list),
    decreases list.len(),
{
    if list.len() > 0 {
        lemma_union_from_empty(list.drop_last());
    }
}

/// Puts the findings of a list over those of another.
pub fn append_diagnostics(target: &mut Vec<Diagnostic>, list: &Vec<Diagnostic>)
    ensures
        diagnostic_map(final(target)@) == overlaid(diagnostic_map(old(target)@), list@),
{
    let ghost base = diagnostic_map(target@);
    let mut i: usize = 0;
    while i < list.len()
        invariant
            i <= list@.len(),
            diagnostic_map(target@) == overlaid(base, list@.take(i as int)),
        decreases list@.len() - i,
    {
        add_diagnostic(target, list[i].key.as_str(), list[i].value.as_str());
        i += 1;
        assert(list@.take(i as int).drop_last() == list@.take(i - 1));
        assert(list@.take(i as int).last() == list@[i - 1]);
    }
    assert(list@.take(i as int) == list@);
}

/// What the probes of the runtime found, and for which runtime.
#[derive(Debug)]
pub struct RuntimeValidationState {
    pub fingerprint: String,
    pub python_import_ready: bool,
    pub tokenizer_ready: bool,
    pub embedding_ready: bool,
    pub diagnostics: Vec<Diagnostic>,
}

/// What the probes of the runtime found.
pub struct ValidationModel {
    pub fingerprint: Seq<char>,
    pub python_import_ready: bool,
    pub tokenizer_ready: bool,
    pub embedding_ready: bool,
    pub diagnostics: Map<Seq<char>, Seq<char>>,
}

impl View for RuntimeValidationState {
    type V = ValidationModel;

    open spec fn view(&self) -> ValidationModel {
        ValidationModel {
            fingerprint: self.fingerprint@,
            python_import_ready: self.python_import_ready,
            tokenizer_ready: self.tokenizer_ready,
            embedding_ready: self.embedding_ready,
            diagnostics: diagnostic_map(self.diagnostics@),
        }
    }
}

/// Nothing was found yet.
pub open spec fn no_validation() -> ValidationModel {
    ValidationModel {
        fingerprint: Seq::empty(),
        python_import_ready: false,
        tokenizer_ready: false,
        embedding_ready: false,
        diagnostics: Map::empty(),
    }
}

impl Default for RuntimeValidationState {
    fn default() -> (res: RuntimeValidationState)
        ensures
            res@ == no_validation(),
    {
        let res = RuntimeValidationState {
            fingerprint: String::new(),
            python_import_ready: false,
            tokenizer_ready: false,
            embedding_ready: false,
            diagnostics: Vec::new(),
        };
        assert(diagnostic_map(res.diagnostics@) == Map::<Seq<char>, Seq<char>>::empty());
        res
    }
}

impl RuntimeValidationState {
    fn duplicate(&self) -> (res: RuntimeValidationState)
        ensures
            res@ == self@,
    {
        RuntimeValidationState {
            fingerprint: self.fingerprint.clone(),
            python_import_ready: self.python_import_ready,
            tokenizer_ready: self.tokenizer_ready,
            embedding_ready: self.embedding_ready,
            diagnostics: duplicate_diagnostics(&self.diagnostics),
        }
    }
}

/// What the setup remembers. The names of the stages that are done stand in
/// `completed_stages`.
#[derive(Debug)]
pub struct SetupState {
    pub state_version: u32,
    pub app_version: String,
    pub python_version: String,
    pub requirements_sha256: String,
    pub requirements_bundle_sha256: String,
    pub uv_sha256: String,
    pub scripts_sha256: String,
    pub lock_sha256: String,
    pub runtime_validation: RuntimeValidationState,
    pub gpu: bool,
    pub current_stage: SetupStage,
    pub completed_stages: Vec<String>,
    pub last_error: Option<String>,
    pub updated_at: String,
}

/// What a setup was made for.
pub struct MetadataModel {
    pub state_version: u32,
    pub app_version: Seq<char>,
    pub python_version: Seq<char>,
    pub requirements_sha256: Seq<char>,
    pub requirements_bundle_sha256: Seq<char>,
    pub uv_sha256: Seq<char>,
    pub scripts_sha256: Seq<char>,
}

/// What the setup remembers.
pub struct SetupModel {
    pub metadata: MetadataModel,
    pub lock_sha256: Seq<char>,
    pub validation: ValidationModel,
    pub gpu: bool,
    pub current_stage: SetupStage,
    pub completed: Set<Seq<char>>,
    pub last_error: Option<Seq<char>>,
    pub updated_at: Seq<char>,
}

/// The texts of a list, without order.
pub open spec fn text_set(list: Seq<String>) -> Set<Seq<char>> {
    text::views(list).to_set()
}

impl View for SetupState {
    type V = SetupModel;

    open spec fn view(&self) -> SetupModel {
        SetupModel {
            metadata: MetadataModel {
                state_version: self.state_version,
                app_version: self.app_version@,
                python_version: self.python_version@,
                requirements_sha256: self.requirements_sha256@,
                requirements_bundle_sha256: self.requirements_bundle_sha256@,
                uv_sha256: self.uv_sha256@,
                scripts_sha256: self.scripts_sha256@,
            },
            lock_sha256: self.lock_sha256@,
            validation: self.runtime_validation@,
            gpu: self.gpu,
            current_stage: self.current_stage,
            completed: text_set(self.completed_stages@),
            last_error: text::opt_view(self.last_error),
            updated_at: self.updated_at@,
        }
    }
}

impl SetupModel {
    /// Whether a stage is done.
    pub open spec fn is_completed(self, stage: SetupStage) -> bool {
        self.completed.contains(stage.name())
    }

    /// The state after a stage was done.
    pub open spec fn completing(self, stage: SetupStage, now: Seq<char>) -> SetupModel {
        SetupModel {
            completed: self.completed.insert(stage.name()),
            current_stage: stage.next(),
            last_error: None,
            updated_at: now,
            ..self
        }
    }

    /// The state in which everything after a stage has to be done again.
    pub open spec fn cleared_from(self, stage: SetupStage, now: Seq<char>) -> SetupModel {
        SetupModel {
            completed: without_later(self.completed, stage),
            current_stage: stage,
            last_error: None,
            updated_at: now,
            ..self
        }
    }

    /// The state in which a stage is under way.
    pub open spec fn entering(self, stage: SetupStage, now: Seq<char>) -> SetupModel {
        SetupModel { current_stage: stage, last_error: None, updated_at: now, ..self }
    }

    /// The state after a stage failed.
    pub open spec fn failing(self, stage: SetupStage, error: Seq<char>, now: Seq<char>) -> SetupModel {
        SetupModel { current_stage: stage, last_error: Some(error), updated_at: now, ..self }
    }
}

/// The names of a set without those of the stages after a stage.
pub open spec fn without_later(names: Set<Seq<char>>, stage: SetupStage) -> Set<Seq<char>> {
    names.filter(|name: Seq<char>| !is_later_name(stage, name))
}

/// Whether a name is that of a stage after a stage.
pub open spec fn is_later_name(stage: SetupStage, name: Seq<char>) -> bool {
    exists|later: SetupStage| later.rank() > stage.rank() && #[trigger] later.name() == name
}

/// What the setup remembers before it ever ran.
pub open spec fn fresh_setup(now: Seq<char>) -> SetupModel {
    SetupModel {
        metadata: MetadataModel {
            state_version: SETUP_STATE_VERSION,
            app_version: Seq::empty(),
            python_version: PYTHON_VERSION@,
            requirements_sha256: Seq::empty(),
            requirements_bundle_sha256: Seq::empty(),
            uv_sha256: Seq::empty(),
            scripts_sha256: Seq::empty(),
        },
        lock_sha256: Seq::empty(),
        validation: no_validation(),
        gpu: false,
        current_stage: SetupStage::Pending,
        completed: Set::empty(),
        last_error: None,
        updated_at: now,
    }
}

fn contains_name(list: &Vec<String>, name: &str) -> (res: bool)
    ensures
        res == text_set(list@).contains(name@),
{
    let ghost all = text::views(list@);
    let mut i: usize = 0;
    while i < list.len()
        invariant
            i <= list@.len(),
            all == text::views(list@),
            forall|k: int| 0 <= k < i ==> #[trigger] all[k] != name@,
        decreases list@.len() - i,
    {
        assert(all[i as int] == list@[i as int]@);
        if text::same_text(list[i].as_str(), name) {
            assert(all.contains(name@));
            return true;
        }
        i += 1;
    }
    false
}

pub(crate) fn duplicate_names(list: &Vec<String>) -> (res: Vec<String>)
    ensures
        res@ == list@,
{
    let mut res: Vec<String> = Vec::new();
    let mut i: usize = 0;
    while i < list.len()
        invariant
            i <= list@.len(),
            res@ == list@.take(i as int),
        decreases list@.len() - i,
    {
        res.push(list[i].clone());
        i += 1;
        assert(list@.take(i as int) == list@.take(i - 1).push(list@[i - 1]));
    }
    assert(list@.take(i as int) == list@);
    res
}

fn is_later(stage: SetupStage, name: &str) -> (res: bool)
    ensures
        res == is_later_name(stage, name@),
{
    let later = stage.downstream();
    let mut i: usize = 0;
    while i < later.len()
        invariant
            i <= later@.len(),
            forall|s: SetupStage| #[trigger] later@.contains(s) <==> s.rank() > stage.rank(),
            forall|k: int| 0 <= k < i ==> (#[trigger] later@[k]).name() != name@,
        decreases later@.len() - i,
    {
        assert(later@.contains(later@[i as int]));
        if text::same_text(later[i].as_str(), name) {
            return true;
        }
        i += 1;
    }
    proof {
        if is_later_name(stage, name@) {
            let s = choose|s: SetupStage| s.rank() > stage.rank() && #[trigger] s.name() == name@;
            assert(later@.contains(s));
            assert(later@[later@.index_of(s)].name() != name@);
        }
    }
    false
}

impl SetupState {
    /// What the setup remembers before it ever ran.
    pub fn fresh(now: &str) -> (res: SetupState)
        ensures
            res@ == fresh_setup(now@),
    {
        let res = SetupState {
            state_version: SETUP_STATE_VERSION,
            app_version: String::new(),
            python_version: PYTHON_VERSION.to_owned(),
            requirements_sha256: String::new(),
            requirements_bundle_sha256: String::new(),
            uv_sha256: String::new(),
            scripts_sha256: String::new(),
            lock_sha256: String::new(),
            runtime_validation: RuntimeValidationState::default(),
            gpu: false,
            current_stage: SetupStage::Pending,
            completed_stages: Vec::new(),
            last_error: None,
            updated_at: now.to_owned(),
        };
        assert(text_set(res.completed_stages@) == Set::<Seq<char>>::empty());
        res
    }

    /// The state once more.
    pub fn duplicate(&self) -> (res: SetupState)
        ensures
            res@ == self@,
    {
        SetupState {
            state_version: self.state_version,
            app_version: self.app_version.clone(),
            python_version: self.python_version.clone(),
            requirements_sha256: self.requirements_sha256.clone(),
            requirements_bundle_sha256: self.requirements_bundle_sha256.clone(),
            uv_sha256: self.uv_sha256.clone(),
            scripts_sha256: self.scripts_sha256.clone(),
            lock_sha256: self.lock_sha256.clone(),
            runtime_validation: self.runtime_validation.duplicate(),
            gpu: self.gpu,
            current_stage: self.current_stage,
            completed_stages: duplicate_names(&self.completed_stages),
            last_error: lance_memory::duplicate_option(&self.last_error),
            updated_at: self.updated_at.clone(),
        }
    }

    /// Tells whether a stage is done.
    pub fn stage_completed(&self, stage: SetupStage) -> (res: bool)
        ensures
            res == self@.is_completed(stage),
    {
        contains_name(&self.completed_stages, stage.as_str())
    }

    /// A stage is done.
    pub fn mark_completed(&mut self, stage: SetupStage, now: &str)
        ensures
            final(self)@ == old(self)@.completing(stage, now@),
    {
        let ghost before = self.completed_stages@;
        let ghost names = text::views(before);
        if !contains_name(&self.completed_stages, stage.as_str()) {
            self.completed_stages.push(stage.as_str().to_owned());
            proof {
                assert(text::views(self.completed_stages@) == names.push(stage.name()));
                lemma_set_push(names, stage.name());
            }
        } else {
            assert(text_set(before) == text_set(before).insert(stage.name()));
        }
        self.current_stage = match stage {
            SetupStage::Pending => SetupStage::Resources,
            SetupStage::Resources => SetupStage::Python,
            SetupStage::Python => SetupStage::Venv,
            SetupStage::Venv => SetupStage::Dependencies,
            SetupStage::Dependencies => SetupStage::Models,
            SetupStage::Models => SetupStage::Complete,
            SetupStage::Complete => SetupStage::Complete,
        };
        self.last_error = None;
        self.updated_at = now.to_owned();
    }

    /// Everything after a stage has to be done again.
    pub fn clear_from(&mut self, stage: SetupStage, now: &str)
        ensures
            final(self)@ == old(self)@.cleared_from(stage, now@),
    {
        let ghost names = text::views(self.completed_stages@);
        let mut kept: Vec<String> = Vec::new();
        let mut i: usize = 0;
        proof {
            assert(names.take(0) == Seq::<Seq<char>>::empty());
            assert(text_set(kept@) == without_later(names.take(0).to_set(), stage));
        }
        while i < self.completed_stages.len()
            invariant
                i <= self.completed_stages@.len(),
                names == text::views(self.completed_stages@),
                text_set(kept@) == without_later(names.take(i as int).to_set(), stage),
            decreases self.completed_stages@.len() - i,
        {
            let ghost earlier = kept@;
            let later = is_later(stage, self.completed_stages[i].as_str());
            if !later {
                kept.push(self.completed_stages[i].clone());
            }
            i += 1;
            proof {
                let name = names[i - 1];
                assert(names.take(i as int) == names.take(i - 1).push(name));
                lemma_set_push(names.take(i - 1), name);
                if !later {
                    assert(text::views(kept@) == text::views(earlier).push(name));
                    lemma_set_push(text::views(earlier), name);
                }
                assert(text_set(kept@) == without_later(names.take(i as int).to_set(), stage));
            }
        }
        assert(names.take(i as int) == names);
        self.completed_stages = kept;
        self.current_stage = stage;
        self.last_error = None;
        self.updated_at = now.to_owned();
    }

    /// A stage is under way.
    pub fn enter_stage(&mut self, stage: SetupStage, now: &str)
        ensures
            final(self)@ == old(self)@.entering(stage, now@),
    {
        self.current_stage = stage;
        self.last_error = None;
        self.updated_at = now.to_owned();
    }

    /// A stage failed.
    pub fn fail_stage(&mut self, stage: SetupStage, error: &str, now: &str)
        ensures
            final(self)@ == old(self)@.failing(stage, error@, now@),
    {
        self.current_stage = stage;
        self.last_error = Some(error.to_owned());
        self.updated_at = now.to_owned();
    }
}

proof fn lemma_set_push(names: Seq<Seq<char>>, name: Seq<char>)
    ensures
        names.push(name).to_set() == names.to_set().insert(name),
{
    let longer = names.push(name);
    assert forall|t: Seq<char>| longer.to_set().contains(t) == names.to_set().insert(
        name,
    ).contains(t) by {
        if names.contains(t) {
            let i = names.index_of(t);
            assert(longer[i] == t);
        }
        if t == name {
            assert(longer[names.len() as int] == t);
        }
        if longer.contains(t) {
            let i = longer.index_of(t);
            if i < names.len() {
                assert(names[i] == t);
            }
        }
    }
    assert(longer.to_set() =~= names.to_set().insert(name));
}

/// What is done stays done while later stages are done, and clearing from a
/// stage keeps that stage and all before it.
pub proof fn law_completed_stages_are_kept(
    state: SetupModel,
    stage: SetupStage,
    other: SetupStage,
    now: Seq<char>,
)
    ensures
        state.is_completed(other) ==> state.completing(stage, now).is_completed(other),
        state.completing(stage, now).is_completed(stage),
        state.cleared_from(stage, now).is_completed(other) == (state.is_completed(other)
            && other.rank() <= stage.rank()),
{
    let name = other.name();
    if is_later_name(stage, name) {
        let later = choose|s: SetupStage| s.rank() > stage.rank() && #[trigger] s.name() == name;
        law_stage_names_differ(later, other);
    }
    if other.rank() > stage.rank() {
        assert(is_later_name(stage, name));
    }
}

/// The files and directories of the runtime.
#[derive(Debug)]
pub struct RuntimeLayout {
    pub root: RuntimePath,
    pub python_dir: RuntimePath,
    pub venv_dir: RuntimePath,
    pub models_dir: RuntimePath,
    pub uv_cache_dir: RuntimePath,
    pub logs_dir: RuntimePath,
    pub scripts_dir: RuntimePath,
    pub state_path: RuntimePath,
    pub uv_path: RuntimePath,
    pub lock_path: RuntimePath,
    pub dependencies_marker_path: RuntimePath,
    pub llama_server_path: RuntimePath,
}

/// Whether a layout is the one below a root.
pub open spec fn is_layout(layout: RuntimeLayout, root: PathModel) -> bool {
    &&& layout.root@ == root
    &&& layout.python_dir@ == root.join(".python"@)
    &&& layout.venv_dir@ == root.join("venv"@)
    &&& layout.models_dir@ == root.join("models"@)
    &&& layout.uv_cache_dir@ == root.join(".uv-cache"@)
    &&& layout.logs_dir@ == root.join("logs"@)
    &&& layout.scripts_dir@ == root.join("scripts"@)
    &&& layout.state_path@ == root.join("setup-state.json"@)
    &&& layout.uv_path@ == root.join("uv.exe"@)
    &&& layout.lock_path@ == root.join("uv.lock"@)
    &&& layout.dependencies_marker_path@ == root.join(".dependencies-complete"@)
    &&& layout.llama_server_path@ == root.join("runtime"@).join("llama"@).join(
        "llama-server.exe"@,
    )
}

impl RuntimeLayout {
    /// The layout below a root.
    pub fn for_root(root: RuntimePath) -> (res: RuntimeLayout)
        ensures
            is_layout(res, root@),
    {
        RuntimeLayout {
            python_dir: root.join(".python"),
            venv_dir: root.join("venv"),
            models_dir: root.join("models"),
            uv_cache_dir: root.join(".uv-cache"),
            logs_dir: root.join("logs"),
            scripts_dir: root.join("scripts"),
            state_path: root.join("setup-state.json"),
            uv_path: root.join("uv.exe"),
            lock_path: root.join("uv.lock"),
            dependencies_marker_path: root.join(".dependencies-complete"),
            llama_server_path: root.join("runtime").join("llama").join("llama-server.exe"),
            root,
        }
    }

    /// The interpreter of the environment.
    pub fn python_executable(&self, windows: bool) -> (res: RuntimePath)
        ensures
            res@ == if windows {
                self.venv_dir@.join("Scripts"@).join("python.exe"@)
            } else {
                self.venv_dir@.join("bin"@).join("python"@)
            },
    {
        if windows {
            self.venv_dir.join("Scripts").join("python.exe")
        } else {
            self.venv_dir.join("bin").join("python")
        }
    }

    /// The list of dependencies in use.
    pub fn requirements_path(&self, gpu: bool) -> (res: RuntimePath)
        ensures
            res@ == self.root@.join(
                if gpu {
                    "requirements-gpu.txt"@
                } else {
                    "requirements-cpu.txt"@
                },
            ),
    {
        if gpu {
            self.root.join("requirements-gpu.txt")
        } else {
            self.root.join("requirements-cpu.txt")
        }
    }
}

/// Everything that changes stands below the root.
pub proof fn law_the_layout_stays_below_its_root(layout: RuntimeLayout, root: PathModel)
    requires
        is_layout(layout, root),
    ensures
        layout.python_dir@.is_below(root),
        layout.venv_dir@.is_below(root),
        layout.models_dir@.is_below(root),
        layout.uv_cache_dir@.is_below(root),
        layout.logs_dir@.is_below(root),
        layout.scripts_dir@.is_below(root),
        layout.state_path@.is_below(root),
        layout.uv_path@.is_below(root),
        layout.lock_path@.is_below(root),
        layout.dependencies_marker_path@.is_below(root),
        layout.llama_server_path@.is_below(root),
{
    let n = root.parts.len() as int;
    assert(layout.python_dir@.parts.take(n) == root.parts);
    assert(layout.venv_dir@.parts.take(n) == root.parts);
    assert(layout.models_dir@.parts.take(n) == root.parts);
    assert(layout.uv_cache_dir@.parts.take(n) == root.parts);
    assert(layout.logs_dir@.parts.take(n) == root.parts);
    assert(layout.scripts_dir@.parts.take(n) == root.parts);
    assert(layout.state_path@.parts.take(n) == root.parts);
    assert(layout.uv_path@.parts.take(n) == root.parts);
    assert(layout.lock_path@.parts.take(n) == root.parts);
    assert(layout.dependencies_marker_path@.parts.take(n) == root.parts);
    assert(layout.llama_server_path@.parts.take(n) == root.parts);
}

/// The stages follow one another in this order, and the last one stays.
pub proof fn law_stages_follow_one_another(stage: SetupStage)
    ensures
        stage != SetupStage::Complete ==> stage.next().rank() == stage.rank() + 1,
        stage == SetupStage::Complete ==> stage.next() == stage,
        stage == SetupStage::Pending ==> stage.next() == SetupStage::Resources,
        stage == SetupStage::Resources ==> stage.next() == SetupStage::Python,
        stage == SetupStage::Python ==> stage.next() == SetupStage::Venv,
        stage == SetupStage::Venv ==> stage.next() == SetupStage::Dependencies,
        stage == SetupStage::Dependencies ==> stage.next() == SetupStage::Models,
        stage == SetupStage::Models ==> stage.next() == SetupStage::Complete,
        0 <= stage.rank() <= 6,
{
}

/// A stage that is done is remembered as done, the error before it is
/// forgotten, and the next stage is the current one; nothing else changes.
pub proof fn law_a_finished_stage_leads_to_the_next(
    state: SetupModel,
    stage: SetupStage,
    other: SetupStage,
    now: Seq<char>,
)
    ensures
        ({
            let done = state.completing(stage, now);
            &&& done.is_completed(stage)
            &&& other != stage ==> done.is_completed(other) == state.is_completed(other)
            &&& done.current_stage == stage.next()
            &&& done.last_error is None
            &&& done.updated_at == now
            &&& done.metadata == state.metadata
            &&& done.validation == state.validation
            &&& done.lock_sha256 == state.lock_sha256
            &&& done.gpu == state.gpu
        }),
{
    if other.name() == stage.name() {
        law_stage_names_differ(other, stage);
    }
}

/// Entering a stage forgets the error before it, and failing in one remembers
/// the error; neither changes what is done.
pub proof fn law_stages_are_entered_and_left(
    state: SetupModel,
    stage: SetupStage,
    error: Seq<char>,
    now: Seq<char>,
)
    ensures
        state.entering(stage, now).current_stage == stage,
        state.entering(stage, now).last_error is None,
        state.entering(stage, now).completed == state.completed,
        state.entering(stage, now).validation == state.validation,
        state.failing(stage, error, now).current_stage == stage,
        state.failing(stage, error, now).last_error == Some(error),
        state.failing(stage, error, now).completed == state.completed,
        state.failing(stage, error, now).validation == state.validation,
        state.cleared_from(stage, now).current_stage == stage,
        state.cleared_from(stage, now).last_error is None,
        state.cleared_from(stage, now).validation == state.validation,
{
}

/// A new setup has nothing done and nothing validated.
pub proof fn law_new_setups_have_nothing_done(now: Seq<char>, stage: SetupStage)
    ensures
        !fresh_setup(now).is_completed(stage),
        fresh_setup(now).current_stage == SetupStage::Pending,
        fresh_setup(now).last_error is None,
        !fresh_setup(now).validation.python_import_ready,
        !fresh_setup(now).validation.tokenizer_ready,
        !fresh_setup(now).validation.embedding_ready,
        fresh_setup(now).metadata.python_version == "3.12"@,
        fresh_setup(now).metadata.state_version == 1,
        !fresh_setup(now).gpu,
{
}

/// Of two findings under one name the later counts, and findings that are laid
/// over others replace those of the same name only.
pub proof fn law_later_findings_count(
    base: Map<Seq<char>, Seq<char>>,
    list: Seq<Diagnostic>,
    finding: Diagnostic,
    name: Seq<char>,
)
    ensures
        diagnostic_map(list.push(finding)).dom().contains(finding.key@),
        diagnostic_map(list.push(finding))[finding.key@] == finding.value@,
        name != finding.key@ ==> diagnostic_map(list.push(finding)).dom().contains(name)
            == diagnostic_map(list).dom().contains(name),
        name != finding.key@ ==> diagnostic_map(list.push(finding))[name] == diagnostic_map(
            list,
        )[name],
        overlaid(base, Seq::empty()) == base,
        overlaid(base, list.push(finding))[finding.key@] == finding.value@,
        name != finding.key@ ==> overlaid(base, list.push(finding))[name] == overlaid(
            base,
            list,
        )[name],
{
    assert(list.push(finding).drop_last() == list);
    assert(list.push(finding).last() == finding);
}

/// The parts of a runtime have names of their own below the root, so that no
/// two of them share a place.
pub proof fn law_the_parts_of_a_layout_are_apart(layout: RuntimeLayout, root: PathModel)
    requires
        is_layout(layout, root),
    ensures
        layout.root@ == root,
        layout.python_dir@.parts == root.parts.push(".python"@),
        layout.venv_dir@.parts == root.parts.push("venv"@),
        layout.models_dir@.parts == root.parts.push("models"@),
        layout.uv_cache_dir@.parts == root.parts.push(".uv-cache"@),
        layout.logs_dir@.parts == root.parts.push("logs"@),
        layout.scripts_dir@.parts == root.parts.push("scripts"@),
        layout.state_path@.parts == root.parts.push("setup-state.json"@),
        layout.uv_path@.parts == root.parts.push("uv.exe"@),
        layout.lock_path@.parts == root.parts.push("uv.lock"@),
        layout.dependencies_marker_path@.parts == root.parts.push(".dependencies-complete"@),
        layout.llama_server_path@.parts.last() == "llama-server.exe"@,
        layout.llama_server_path@.parent().parts == root.parts.push("runtime"@).push("llama"@),
{
    assert(layout.llama_server_path@.parent().parts == root.parts.push("runtime"@).push("llama"@));
}

} // verus!
