//! The initialization of the engines after the setup: speech recognition,
//! embeddings and memory.
use vstd::prelude::*;

use crate::text;

verus! {

/// What is known of one engine.
#[derive(Debug)]
pub struct RuntimeInitializationStage {
    pub id: String,
    pub label: String,
    pub status: String,
    /// In percent.
    pub progress: u32,
    pub elapsed_ms: u64,
    pub error: Option<String>,
}

/// What is known of one engine.
pub struct EngineModel {
    pub id: Seq<char>,
    pub label: Seq<char>,
    pub status: Seq<char>,
    pub progress: u32,
    pub elapsed_ms: u64,
    pub error: Option<Seq<char>>,
}

impl View for RuntimeInitializationStage {
    type V = EngineModel;

    open spec fn view(&self) -> EngineModel {
        EngineModel {
            id: self.id@,
            label: self.label@,
            status: self.status@,
            progress: self.progress,
            elapsed_ms: self.elapsed_ms,
            error: text::opt_view(self.error),
        }
    }
}

pub open spec fn engine_views(stages: Seq<RuntimeInitializationStage>) -> Seq<EngineModel> {
    stages.map_values(|s: RuntimeInitializationStage| s@)
}

/// What is known of the initialization.
#[derive(Debug)]
pub struct RuntimeInitializationStatus {
    pub status: String,
    /// In percent.
    pub progress: u32,
    pub current_stage: Option<String>,
    pub message: Option<String>,
    pub elapsed_ms: u64,
    pub started_at: Option<String>,
    pub completed_at: Option<String>,
    pub stages: Vec<RuntimeInitializationStage>,
    pub asr_ready: bool,
    pub embedding_ready: bool,
    pub memory_v2_ready: bool,
    pub error: Option<String>,
}

/// What is known of the initialization.
pub struct InitModel {
    pub status: Seq<char>,
    pub progress: u32,
    pub current_stage: Option<Seq<char>>,
    pub message: Option<Seq<char>>,
    pub elapsed_ms: u64,
    pub started_at: Option<Seq<char>>,
    pub completed_at: Option<Seq<char>>,
    pub stages: Seq<EngineModel>,
    pub asr_ready: bool,
    pub embedding_ready: bool,
    pub memory_v2_ready: bool,
    pub error: Option<Seq<char>>,
}

impl View for RuntimeInitializationStatus {
    type V = InitModel;

    open spec fn view(&self) -> InitModel {
        InitModel {
            status: self.status@,
            progress: self.progress,
            current_stage: text::opt_view(self.current_stage),
            message: text::opt_view(self.message),
            elapsed_ms: self.elapsed_ms,
            started_at: text::opt_view(self.started_at),
            completed_at: text::opt_view(self.completed_at),
            stages: engine_views(self.stages@),
            asr_ready: self.asr_ready,
            embedding_ready: self.embedding_ready,
            memory_v2_ready: self.memory_v2_ready,
            error: text::opt_view(self.error),
        }
    }
}

/// An engine that was not touched yet.
pub open spec fn pending_engine(id: Seq<char>, label: Seq<char>) -> EngineModel {
    EngineModel { id, label, status: "pending"@, progress: 0, elapsed_ms: 0, error: None }
}

/// The three engines before anything began.
pub open spec fn pending_engines() -> Seq<EngineModel> {
    seq![
        pending_engine("asr"@, "ASR / Faster-Whisper"@),
        pending_engine("embedding"@, "GLuCoSE-base-ja"@),
        pending_engine("memory_v2"@, "memory-v2"@),
    ]
}

/// Nothing began yet.
pub open spec fn idle_init() -> InitModel {
    InitModel {
        status: "idle"@,
        progress: 0,
        current_stage: None,
        message: Some("初期化を開始する準備をしています。"@),
        elapsed_ms: 0,
        started_at: None,
        completed_at: None,
        stages: pending_engines(),
        asr_ready: false,
        embedding_ready: false,
        memory_v2_ready: false,
        error: None,
    }
}

/// The stages with the first one of an identifier changed.
pub open spec fn with_engine(
    stages: Seq<EngineModel>,
    id: Seq<char>,
    status: Seq<char>,
    progress: u32,
    elapsed_ms: u64,
    error: Option<Seq<char>>,
) -> Seq<EngineModel>
    decreases stages.len(),
{
    if stages.len() == 0 {
        stages
    } else if stages[0].id == id {
        stages.update(
            0,
            EngineModel { status, progress, elapsed_ms, error, ..stages[0] },
        )
    } else {
        seq![stages[0]] + with_engine(
            stages.drop_first(),
            id,
            status,
            progress,
            elapsed_ms,
            error,
        )
    }
}

/// Whether an engine of an identifier is done.
pub open spec fn engine_done(stages: Seq<EngineModel>, id: Seq<char>) -> bool {
    exists|i: int|
        0 <= i < stages.len() && (#[trigger] stages[i]).id == id && stages[i].status
            == "completed"@
}

/// How far the engines are, in percent.
pub open spec fn engines_progress(stages: Seq<EngineModel>) -> u32 {
    ((if engine_done(stages, "asr"@) {
        34int
    } else {
        0
    }) + (if engine_done(stages, "embedding"@) {
        33int
    } else {
        0
    }) + (if engine_done(stages, "memory_v2"@) {
        33int
    } else {
        0
    })) as u32
}

impl InitModel {
    pub open spec fn engine(
        self,
        id: Seq<char>,
        status: Seq<char>,
        progress: u32,
        elapsed_ms: u64,
        error: Option<Seq<char>>,
    ) -> InitModel {
        InitModel {
            stages: with_engine(self.stages, id, status, progress, elapsed_ms, error),
            ..self
        }
    }

    pub open spec fn progressed(self) -> InitModel {
        InitModel { progress: engines_progress(self.stages), ..self }
    }

    /// Everything was initialized before.
    pub open spec fn is_complete(self) -> bool {
        self.status == "completed"@ && self.asr_ready && self.embedding_ready
            && self.memory_v2_ready
    }

    /// The setup of the runtime is not done.
    pub open spec fn blocked(self, error: Seq<char>) -> InitModel {
        InitModel {
            status: "error"@,
            message: Some("ランタイムセットアップが完了していません。"@),
            error: Some(error),
            current_stage: None,
            elapsed_ms: 0,
            ..self
        }
    }

    /// The memory is there, or is not.
    pub open spec fn memory_ended(
        self,
        error: Option<Seq<char>>,
        elapsed_ms: u64,
        quiet: bool,
    ) -> InitModel {
        match error {
            None => InitModel {
                memory_v2_ready: true,
                ..self.engine("memory_v2"@, "completed"@, 100, elapsed_ms, None)
            }.progressed(),
            Some(message) => {
                let failed = self.engine("memory_v2"@, "error"@, 0, elapsed_ms, Some(message));
                if quiet {
                    failed.progressed()
                } else {
                    InitModel {
                        message: Some("memory-v2の初期化に失敗しました。"@),
                        error: Some(message),
                        ..failed
                    }.progressed()
                }
            },
        }
    }

    /// The speech recognition failed.
    pub open spec fn asr_failed(
        self,
        error: Seq<char>,
        asr_elapsed_ms: u64,
        elapsed_ms: u64,
    ) -> InitModel {
        InitModel {
            message: Some("ASRの初期化に失敗しました。"@),
            error: Some(error),
            status: "error"@,
            current_stage: Some("asr"@),
            elapsed_ms,
            ..self.engine("asr"@, "error"@, 0, asr_elapsed_ms, Some(error))
        }
    }

    /// The speech recognition is there; the embeddings are next.
    pub open spec fn asr_done(self, asr_elapsed_ms: u64) -> InitModel {
        InitModel {
            current_stage: Some("embedding"@),
            message: Some("ASR接続完了。GLuCoSE-base-jaを読み込んでいます。"@),
            ..(InitModel {
                asr_ready: true,
                ..self.engine("asr"@, "completed"@, 100, asr_elapsed_ms, None)
            }.progressed())
        }
    }

    /// The embeddings are there, or are not.
    pub open spec fn embedding_ended(self, error: Option<Seq<char>>, elapsed_ms: u64) -> InitModel {
        match error {
            None => InitModel {
                embedding_ready: true,
                ..self.engine("embedding"@, "completed"@, 100, elapsed_ms, None)
            }.progressed(),
            Some(message) => InitModel {
                message: Some("GLuCoSEの初期化に失敗しました。"@),
                error: Some(message),
                ..self.engine("embedding"@, "error"@, 0, elapsed_ms, Some(message))
            }.progressed(),
        }
    }

    /// An engine failed after the speech recognition was there.
    pub open spec fn failed(self, error: Seq<char>, elapsed_ms: u64) -> InitModel {
        InitModel {
            status: "error"@,
            current_stage: Some(
                if self.embedding_ready {
                    "memory_v2"@
                } else {
                    "embedding"@
                },
            ),
            message: Some("ローカルエンジンの初期化に失敗しました。"@),
            error: Some(error),
            elapsed_ms,
            ..self
        }
    }

    /// Everything is there.
    pub open spec fn completed(self, elapsed_ms: u64, completed_at: Seq<char>) -> InitModel {
        InitModel {
            progress: 100,
            status: "completed"@,
            current_stage: Some("complete"@),
            message: Some("ASR、GLuCoSE、memory-v2の初期化が完了しました。"@),
            error: None,
            elapsed_ms,
            completed_at: Some(completed_at),
            ..self
        }
    }
}

/// The initialization begins.
pub open spec fn begun(started_at: Seq<char>) -> InitModel {
    InitModel {
        status: "running"@,
        message: Some("ASR、GLuCoSE、memory-v2を初期化しています。"@),
        started_at: Some(started_at),
        ..idle_init()
    }
}

/// The two engines that do not depend on one another begin.
pub open spec fn lanes_begun(status: InitModel) -> InitModel {
    InitModel {
        current_stage: Some("asr"@),
        message: Some("ASR と memory-v2を並列で初期化しています。"@),
        ..status
    }.engine("asr"@, "running"@, 0, 0, None).engine("memory_v2"@, "running"@, 0, 0, None)
}

fn new_stage(id: &str, label: &str) -> (res: RuntimeInitializationStage)
    ensures
        res@ == pending_engine(id@, label@),
{
    RuntimeInitializationStage {
        id: id.to_owned(),
        label: label.to_owned(),
        status: "pending".to_owned(),
        progress: 0,
        elapsed_ms: 0,
        error: None,
    }
}

impl RuntimeInitializationStatus {
    /// The three engines before anything began.
    pub fn default_stages() -> (res: Vec<RuntimeInitializationStage>)
        ensures
            engine_views(res@) == pending_engines(),
    {
        let mut stages: Vec<RuntimeInitializationStage> = Vec::new();
        stages.push(new_stage("asr", "ASR / Faster-Whisper"));
        stages.push(new_stage("embedding", "GLuCoSE-base-ja"));
        stages.push(new_stage("memory_v2", "memory-v2"));
        assert(engine_views(stages@) == pending_engines());
        stages
    }

    /// Nothing began yet.
    pub fn idle() -> (res: RuntimeInitializationStatus)
        ensures
            res@ == idle_init(),
    {
        RuntimeInitializationStatus {
            status: "idle".to_owned(),
            progress: 0,
            current_stage: None,
            message: Some("初期化を開始する準備をしています。".to_owned()),
            elapsed_ms: 0,
            started_at: None,
            completed_at: None,
            stages: Self::default_stages(),
            asr_ready: false,
            embedding_ready: false,
            memory_v2_ready: false,
            error: None,
        }
    }
}

proof fn lemma_engine_step(
    stages: Seq<EngineModel>,
    n: int,
    id: Seq<char>,
    status: Seq<char>,
    progress: u32,
    elapsed_ms: u64,
    error: Option<Seq<char>>,
)
    requires
        0 <= n <= stages.len(),
        forall|k: int| 0 <= k < n ==> (#[trigger] stages[k]).id != id,
    ensures
        n == stages.len() ==> with_engine(stages, id, status, progress, elapsed_ms, error)
            == stages,
        n < stages.len() && stages[n].id == id ==> with_engine(
            stages,
            id,
            status,
            progress,
            elapsed_ms,
            error,
        ) == stages.update(n, EngineModel { status, progress, elapsed_ms, error, ..stages[n] }),
    decreases n,
{
    if n > 0 {
        let rest = stages.drop_first();
        assert forall|k: int| 0 <= k < n - 1 implies (#[trigger] rest[k]).id != id by {
            assert(rest[k] == stages[k + 1]);
        }
        assert(stages[0].id != id);
        lemma_engine_step(rest, n - 1, id, status, progress, elapsed_ms, error);
        if n == stages.len() {
            assert(seq![stages[0]] + rest == stages);
        } else if stages[n].id == id {
            assert(rest[n - 1] == stages[n]);
            let changed = EngineModel { status, progress, elapsed_ms, error, ..stages[n] };
            assert(seq![stages[0]] + rest.update(n - 1, changed) == stages.update(n, changed));
        }
    }
}

/// A progress, no more than all.
pub open spec fn at_most_all(progress: u32) -> u32 {
    if progress > 100 {
        100
    } else {
        progress
    }
}

/// Changes what is known of one engine.
pub fn set_runtime_initialization_stage(
    status: &mut RuntimeInitializationStatus,
    id: &str,
    stage_status: &str,
    progress: u32,
    elapsed_ms: u64,
    error: Option<String>,
)
    ensures
        final(status)@ == old(status)@.engine(
            id@,
            stage_status@,
            at_most_all(progress),
            elapsed_ms,
            text::opt_view(error),
        ),
{
    let progress: u32 = if progress > 100 {
        100
    } else {
        progress
    };
    let ghost all = engine_views(status.stages@);
    let ghost err = text::opt_view(error);
    let i = find_stage(&status.stages, id);
    proof {
        lemma_engine_step(all, i as int, id@, stage_status@, progress, elapsed_ms, err);
    }
    if i < status.stages.len() {
        let changed = RuntimeInitializationStage {
            id: status.stages[i].id.clone(),
            label: status.stages[i].label.clone(),
            status: stage_status.to_owned(),
            progress,
            elapsed_ms,
            error,
        };
        let ghost model = changed@;
        status.stages.set(i, changed);
        assert(engine_views(status.stages@) == all.update(i as int, model));
    }
}

fn find_stage(stages: &Vec<RuntimeInitializationStage>, id: &str) -> (res: usize)
    ensures
        res <= stages@.len(),
        res < stages@.len() ==> engine_views(stages@)[res as int].id == id@,
        forall|k: int| 0 <= k < res ==> (#[trigger] engine_views(stages@)[k]).id != id@,
{
    let ghost all = engine_views(stages@);
    let mut i: usize = 0;
    while i < stages.len()
        invariant
            i <= stages@.len(),
            all == engine_views(stages@),
            forall|k: int| 0 <= k < i ==> (#[trigger] all[k]).id != id@,
        decreases stages@.len() - i,
    {
        assert(all[i as int] == stages@[i as int]@);
        if text::same_text(stages[i].id.as_str(), id) {
            return i;
        }
        i += 1;
    }
    i
}

fn stage_done(stages: &Vec<RuntimeInitializationStage>, id: &str) -> (res: bool)
    ensures
        res == engine_done(engine_views(stages@), id@),
{
    let ghost all = engine_views(stages@);
    let mut i: usize = 0;
    while i < stages.len()
        invariant
            i <= stages@.len(),
            all == engine_views(stages@),
            forall|k: int|
                0 <= k < i ==> !((#[trigger] all[k]).id == id@ && all[k].status == "completed"@),
        decreases stages@.len() - i,
    {
        assert(all[i as int] == stages@[i as int]@);
        if text::same_text(stages[i].id.as_str(), id) && text::same_text(
            stages[i].status.as_str(),
            "completed",
        ) {
            return true;
        }
        i += 1;
    }
    false
}

/// Computes the progress from what is known of the engines, in whatever order
/// they end.
pub fn update_runtime_initialization_progress(status: &mut RuntimeInitializationStatus)
    ensures
        final(status)@ == old(status)@.progressed(),
        final(status)@.progress <= 100,
{
    let mut progress: u32 = 0;
    if stage_done(&status.stages, "asr") {
        progress += 34;
    }
    if stage_done(&status.stages, "embedding") {
        progress += 33;
    }
    if stage_done(&status.stages, "memory_v2") {
        progress += 33;
    }
    status.progress = progress;
}

/// What a task came to: its own result, or that it broke down.
pub fn join_runtime_initialization_task(
    result: Result<Option<String>, String>,
    stage: &str,
) -> (res: Option<String>)
    ensures
        match result {
            Ok(error) => res == error,
            Err(problem) => res is Some && res->0@ == stage@ + " initialization task failed: "@
                + problem@,
        },
{
    match result {
        Ok(error) => error,
        Err(problem) => {
            let mut message = stage.to_owned();
            text::append_text(&mut message, " initialization task failed: ");
            text::append_text(&mut message, problem.as_str());
            Some(message)
        },
    }
}

/// How many numbers an embedding has.
pub const EMBEDDING_DIMENSIONS: usize = 768;

/// Refuses the result of a trial embedding that is not one vector of the right
/// length.
pub fn check_probe_embedding(count: usize, first_length: usize) -> (res: Option<String>)
    ensures
        count == 1 && first_length == EMBEDDING_DIMENSIONS ==> res is None,
        !(count == 1 && first_length == EMBEDDING_DIMENSIONS) ==> res is Some && res->0@
            == "GLuCoSEの埋め込み結果が不正です（"@ + text::decimal(count as nat) + "件、"@
            + text::decimal(first_length as nat) + "次元）。"@,
{
    if count == 1 && first_length == EMBEDDING_DIMENSIONS {
        return None;
    }
    let mut message = "GLuCoSEの埋め込み結果が不正です（".to_owned();
    text::append_decimal(&mut message, count as u64);
    text::append_text(&mut message, "件、");
    text::append_decimal(&mut message, first_length as u64);
    text::append_text(&mut message, "次元）。");
    Some(message)
}

/// What the wish to initialize the engines comes to at first.
#[derive(Debug, Clone, Copy, PartialEq, Eq, Structural)]
pub enum InitEntry {
    /// Everything is there already.
    Done,
    /// The setup is not done; the status tells so.
    Blocked,
    /// The engines are started.
    Start,
}

/// Decides what the wish to initialize the engines comes to at first, and
/// changes the status where the setup is not done.
pub fn initialize_runtime(
    existing: &mut RuntimeInitializationStatus,
    runtime_error: Option<&str>,
) -> (res: InitEntry)
    ensures
        old(existing)@.is_complete() ==> res == InitEntry::Done && final(existing)@
            == old(existing)@,
        !old(existing)@.is_complete() && runtime_error is Some ==> res == InitEntry::Blocked
            && final(existing)@ == old(existing)@.blocked(runtime_error->0@),
        !old(existing)@.is_complete() && runtime_error is None ==> res == InitEntry::Start
            && final(existing)@ == old(existing)@,
{
    if text::same_text(existing.status.as_str(), "completed") && existing.asr_ready
        && existing.embedding_ready && existing.memory_v2_ready {
        return InitEntry::Done;
    }
    match runtime_error {
        Some(error) => {
            existing.status = "error".to_owned();
            existing.message = Some("ランタイムセットアップが完了していません。".to_owned());
            existing.error = Some(error.to_owned());
            existing.current_stage = None;
            existing.elapsed_ms = 0;
            InitEntry::Blocked
        },
        None => InitEntry::Start,
    }
}

/// What the initialization waits for.
#[derive(Debug, Clone, Copy, PartialEq, Eq, Structural)]
pub enum InitPhase {
    /// The start of the two engines.
    Begin,
    /// The speech recognition, and the memory if it is not there yet.
    Asr,
    /// The memory, after the speech recognition failed.
    MemoryAfterFailure,
    /// The embeddings and the memory, as far as they are not there yet.
    Others,
    /// Nothing: the result can be given.
    Ended,
}

/// The course of an initialization.
pub struct InitRun {
    status: RuntimeInitializationStatus,
    phase: InitPhase,
    memory_finished: bool,
    embedding_finished: bool,
    asr_error: Option<String>,
    memory_error: Option<String>,
    embedding_error: Option<String>,
}

/// The course of an initialization.
pub struct InitState {
    pub status: InitModel,
    pub phase: InitPhase,
    pub memory_finished: bool,
    pub embedding_finished: bool,
    pub asr_error: Option<Seq<char>>,
    pub memory_error: Option<Seq<char>>,
    pub embedding_error: Option<Seq<char>>,
}

impl View for InitRun {
    type V = InitState;

    closed spec fn view(&self) -> InitState {
        InitState {
            status: self.status@,
            phase: self.phase,
            memory_finished: self.memory_finished,
            embedding_finished: self.embedding_finished,
            asr_error: text::opt_view(self.asr_error),
            memory_error: text::opt_view(self.memory_error),
            embedding_error: text::opt_view(self.embedding_error),
        }
    }
}

impl InitState {
    /// The phase when the embeddings and the memory are as far as given.
    pub open spec fn others_phase(embedding_finished: bool, memory_finished: bool) -> InitPhase {
        if embedding_finished && memory_finished {
            InitPhase::Ended
        } else {
            InitPhase::Others
        }
    }

    /// The memory is there, or is not.
    pub open spec fn memory_ended(self, error: Option<Seq<char>>, elapsed_ms: u64) -> InitState {
        InitState {
            status: self.status.memory_ended(
                error,
                elapsed_ms,
                self.phase == InitPhase::MemoryAfterFailure,
            ),
            phase: match self.phase {
                InitPhase::MemoryAfterFailure => InitPhase::Ended,
                InitPhase::Others => Self::others_phase(self.embedding_finished, true),
                other => other,
            },
            memory_finished: true,
            memory_error: error,
            ..self
        }
    }

    /// The speech recognition is there, or is not.
    pub open spec fn asr_ended(
        self,
        error: Option<Seq<char>>,
        asr_elapsed_ms: u64,
        elapsed_ms: u64,
    ) -> InitState {
        match error {
            Some(message) => InitState {
                status: self.status.asr_failed(message, asr_elapsed_ms, elapsed_ms),
                phase: if self.memory_finished {
                    InitPhase::Ended
                } else {
                    InitPhase::MemoryAfterFailure
                },
                asr_error: Some(message),
                ..self
            },
            None => InitState {
                status: self.status.asr_done(asr_elapsed_ms),
                phase: InitPhase::Others,
                ..self
            },
        }
    }

    /// The embeddings are there, or are not.
    pub open spec fn embedding_ended(self, error: Option<Seq<char>>, elapsed_ms: u64) -> InitState {
        InitState {
            status: self.status.embedding_ended(error, elapsed_ms),
            phase: Self::others_phase(true, self.memory_finished),
            embedding_finished: true,
            embedding_error: error,
            ..self
        }
    }

    /// The error that the initialization ends with, where it has one: that of
    /// the speech recognition, else of the embeddings, else of the memory.
    pub open spec fn outcome(self) -> Option<Seq<char>> {
        if self.asr_error is Some {
            self.asr_error
        } else if self.embedding_error is Some {
            self.embedding_error
        } else {
            self.memory_error
        }
    }

    /// The status at the end.
    pub open spec fn final_status(self, elapsed_ms: u64, completed_at: Seq<char>) -> InitModel {
        if self.asr_error is Some {
            self.status
        } else {
            match self.outcome() {
                Some(error) => self.status.failed(error, elapsed_ms),
                None => self.status.completed(elapsed_ms, completed_at),
            }
        }
    }
}

impl InitRun {
    /// An initialization begins.
    pub fn new(started_at: &str) -> (res: InitRun)
        ensures
            res@ == (InitState {
                status: begun(started_at@),
                phase: InitPhase::Begin,
                memory_finished: false,
                embedding_finished: false,
                asr_error: None,
                memory_error: None,
                embedding_error: None,
            }),
    {
        let mut status = RuntimeInitializationStatus::idle();
        status.status = "running".to_owned();
        status.message = Some("ASR、GLuCoSE、memory-v2を初期化しています。".to_owned());
        status.started_at = Some(started_at.to_owned());
        InitRun {
            status,
            phase: InitPhase::Begin,
            memory_finished: false,
            embedding_finished: false,
            asr_error: None,
            memory_error: None,
            embedding_error: None,
        }
    }

    /// What is known so far.
    pub fn status(&self) -> (res: &RuntimeInitializationStatus)
        ensures
            res@ == self@.status,
    {
        &self.status
    }

    /// What the initialization waits for.
    pub fn phase(&self) -> (res: InitPhase)
        ensures
            res == self@.phase,
    {
        self.phase
    }

    /// Whether the memory is still awaited.
    pub fn awaits_memory(&self) -> (res: bool)
        ensures
            res == !self@.memory_finished,
    {
        !self.memory_finished
    }

    /// Whether the embeddings are still awaited.
    pub fn awaits_embedding(&self) -> (res: bool)
        ensures
            res == !self@.embedding_finished,
    {
        !self.embedding_finished
    }

    /// The two engines that do not depend on one another are started.
    pub fn lanes_started(&mut self)
        requires
            old(self)@.phase == InitPhase::Begin,
        ensures
            final(self)@ == (InitState {
                status: lanes_begun(old(self)@.status),
                phase: InitPhase::Asr,
                ..old(self)@
            }),
    {
        self.status.current_stage = Some("asr".to_owned());
        self.status.message = Some("ASR と memory-v2を並列で初期化しています。".to_owned());
        set_runtime_initialization_stage(&mut self.status, "asr", "running", 0, 0, None);
        set_runtime_initialization_stage(&mut self.status, "memory_v2", "running", 0, 0, None);
        self.phase = InitPhase::Asr;
    }

    /// The memory is there, or is not.
    pub fn memory_ended(&mut self, error: Option<String>, elapsed_ms: u64)
        requires
            !old(self)@.memory_finished,
        ensures
            final(self)@ == old(self)@.memory_ended(text::opt_view(error), elapsed_ms),
    {
        let quiet = self.phase == InitPhase::MemoryAfterFailure;
        match &error {
            None => {
                self.status.memory_v2_ready = true;
                set_runtime_initialization_stage(
                    &mut self.status,
                    "memory_v2",
                    "completed",
                    100,
                    elapsed_ms,
                    None,
                );
            },
            Some(message) => {
                set_runtime_initialization_stage(
                    &mut self.status,
                    "memory_v2",
                    "error",
                    0,
                    elapsed_ms,
                    Some(message.clone()),
                );
                if !quiet {
                    self.status.message = Some("memory-v2の初期化に失敗しました。".to_owned());
                    self.status.error = Some(message.clone());
                }
            },
        }
        update_runtime_initialization_progress(&mut self.status);
        self.phase = match self.phase {
            InitPhase::MemoryAfterFailure => InitPhase::Ended,
            InitPhase::Others => if self.embedding_finished {
                InitPhase::Ended
            } else {
                InitPhase::Others
            },
            other => other,
        };
        self.memory_finished = true;
        self.memory_error = error;
    }

    /// The speech recognition is there, or is not. Where it is not, the memory
    /// is still awaited: its recovery is not broken off.
    pub fn asr_ended(&mut self, error: Option<String>, asr_elapsed_ms: u64, elapsed_ms: u64)
        requires
            old(self)@.phase == InitPhase::Asr,
        ensures
            final(self)@ == old(self)@.asr_ended(
                text::opt_view(error),
                asr_elapsed_ms,
                elapsed_ms,
            ),
    {
        match error {
            Some(message) => {
                set_runtime_initialization_stage(
                    &mut self.status,
                    "asr",
                    "error",
                    0,
                    asr_elapsed_ms,
                    Some(message.clone()),
                );
                self.status.message = Some("ASRの初期化に失敗しました。".to_owned());
                self.status.error = Some(message.clone());
                self.status.status = "error".to_owned();
                self.status.current_stage = Some("asr".to_owned());
                self.status.elapsed_ms = elapsed_ms;
                self.phase = if self.memory_finished {
                    InitPhase::Ended
                } else {
                    InitPhase::MemoryAfterFailure
                };
                self.asr_error = Some(message);
            },
            None => {
                self.status.asr_ready = true;
                set_runtime_initialization_stage(
                    &mut self.status,
                    "asr",
                    "completed",
                    100,
                    asr_elapsed_ms,
                    None,
                );
                update_runtime_initialization_progress(&mut self.status);
                self.status.current_stage = Some("embedding".to_owned());
                self.status.message = Some(
                    "ASR接続完了。GLuCoSE-base-jaを読み込んでいます。".to_owned(),
                );
                self.phase = InitPhase::Others;
            },
        }
    }

    /// The embeddings are started.
    pub fn embedding_started(&mut self)
        requires
            old(self)@.phase == InitPhase::Others,
        ensures
            final(self)@ == (InitState {
                status: old(self)@.status.engine("embedding"@, "running"@, 0, 0, None),
                ..old(self)@
            }),
    {
        set_runtime_initialization_stage(&mut self.status, "embedding", "running", 0, 0, None);
    }

    /// The embeddings are there, or are not.
    pub fn embedding_ended(&mut self, error: Option<String>, elapsed_ms: u64)
        requires
            old(self)@.phase == InitPhase::Others,
            !old(self)@.embedding_finished,
        ensures
            final(self)@ == old(self)@.embedding_ended(text::opt_view(error), elapsed_ms),
    {
        match &error {
            None => {
                self.status.embedding_ready = true;
                set_runtime_initialization_stage(
                    &mut self.status,
                    "embedding",
                    "completed",
                    100,
                    elapsed_ms,
                    None,
                );
            },
            Some(message) => {
                set_runtime_initialization_stage(
                    &mut self.status,
                    "embedding",
                    "error",
                    0,
                    elapsed_ms,
                    Some(message.clone()),
                );
                self.status.message = Some("GLuCoSEの初期化に失敗しました。".to_owned());
                self.status.error = Some(message.clone());
            },
        }
        update_runtime_initialization_progress(&mut self.status);
        self.phase = if self.memory_finished {
            InitPhase::Ended
        } else {
            InitPhase::Others
        };
        self.embedding_finished = true;
        self.embedding_error = error;
    }

    /// The result: the status, and the error where there is one.
    pub fn finish(self, elapsed_ms: u64, completed_at: &str) -> (res: (
        RuntimeInitializationStatus,
        Option<String>,
    ))
        requires
            self@.phase == InitPhase::Ended,
        ensures
            res.0@ == self@.final_status(elapsed_ms, completed_at@),
            text::opt_view(res.1) == self@.outcome(),
    {
        let mut status = self.status;
        if self.asr_error.is_some() {
            return (status, self.asr_error);
        }
        let error = if self.embedding_error.is_some() {
            self.embedding_error
        } else {
            self.memory_error
        };
        match &error {
            Some(message) => {
                status.status = "error".to_owned();
                status.current_stage = if status.embedding_ready {
                    Some("memory_v2".to_owned())
                } else {
                    Some("embedding".to_owned())
                };
                status.message = Some("ローカルエンジンの初期化に失敗しました。".to_owned());
                status.error = Some(message.clone());
                status.elapsed_ms = elapsed_ms;
            },
            None => {
                status.progress = 100;
                status.status = "completed".to_owned();
                status.current_stage = Some("complete".to_owned());
                status.message = Some(
                    "ASR、GLuCoSE、memory-v2の初期化が完了しました。".to_owned(),
                );
                status.error = None;
                status.elapsed_ms = elapsed_ms;
                status.completed_at = Some(completed_at.to_owned());
            },
        }
        (status, error)
    }
}

proof fn lemma_engines_commute(
    stages: Seq<EngineModel>,
    a: Seq<char>,
    b: Seq<char>,
    a_elapsed: u64,
    b_elapsed: u64,
)
    requires
        a != b,
    ensures
        with_engine(
            with_engine(stages, a, "completed"@, 100, a_elapsed, None),
            b,
            "completed"@,
            100,
            b_elapsed,
            None,
        ) == with_engine(
            with_engine(stages, b, "completed"@, 100, b_elapsed, None),
            a,
            "completed"@,
            100,
            a_elapsed,
            None,
        ),
    decreases stages.len(),
{
    if stages.len() > 0 {
        let rest = stages.drop_first();
        lemma_engines_commute(rest, a, b, a_elapsed, b_elapsed);
        let first = with_engine(stages, a, "completed"@, 100, a_elapsed, None);
        let second = with_engine(stages, b, "completed"@, 100, b_elapsed, None);
        if stages[0].id == a {
            assert(first.drop_first() == rest);
            assert(second[0] == stages[0]);
            assert(second.drop_first() == with_engine(
                rest,
                b,
                "completed"@,
                100,
                b_elapsed,
                None,
            ));
        } else if stages[0].id == b {
            assert(second.drop_first() == rest);
            assert(first[0] == stages[0]);
            assert(first.drop_first() == with_engine(
                rest,
                a,
                "completed"@,
                100,
                a_elapsed,
                None,
            ));
        } else {
            assert(first.drop_first() == with_engine(
                rest,
                a,
                "completed"@,
                100,
                a_elapsed,
                None,
            ));
            assert(second.drop_first() == with_engine(
                rest,
                b,
                "completed"@,
                100,
                b_elapsed,
                None,
            ));
        }
        let both = with_engine(first, b, "completed"@, 100, b_elapsed, None);
        let also = with_engine(second, a, "completed"@, 100, a_elapsed, None);
        assert(both == also);
    }
}

/// It does not matter whether the embeddings or the memory are there first.
pub proof fn law_the_order_of_the_engines_does_not_matter(
    state: InitState,
    memory_elapsed: u64,
    embedding_elapsed: u64,
)
    requires
        state.phase == InitPhase::Others,
        !state.memory_finished,
        !state.embedding_finished,
    ensures
        state.memory_ended(None, memory_elapsed).embedding_ended(None, embedding_elapsed)
            == state.embedding_ended(None, embedding_elapsed).memory_ended(None, memory_elapsed),
{
    reveal_strlit("memory_v2");
    reveal_strlit("embedding");
    assert("memory_v2"@[0] == 'm');
    assert("embedding"@[0] == 'e');
    lemma_engines_commute(
        state.status.stages,
        "memory_v2"@,
        "embedding"@,
        memory_elapsed,
        embedding_elapsed,
    );
}

/// The progress is never more than all of it, and is all of it exactly when the
/// three engines are there.
pub proof fn law_progress_counts_the_engines(stages: Seq<EngineModel>)
    ensures
        engines_progress(stages) <= 100,
        engines_progress(stages) == 100 <==> engine_done(stages, "asr"@) && engine_done(
            stages,
            "embedding"@,
        ) && engine_done(stages, "memory_v2"@),
{
}

proof fn lemma_engine_changed(
    stages: Seq<EngineModel>,
    id: Seq<char>,
    status: Seq<char>,
    progress: u32,
    elapsed_ms: u64,
    error: Option<Seq<char>>,
    at: int,
)
    requires
        0 <= at < stages.len(),
        stages[at].id == id,
        forall|j: int| 0 <= j < at ==> (#[trigger] stages[j]).id != id,
    ensures
        with_engine(stages, id, status, progress, elapsed_ms, error) == stages.update(
            at,
            EngineModel { status, progress, elapsed_ms, error, ..stages[at] },
        ),
    decreases stages.len(),
{
    if at > 0 {
        let rest = stages.drop_first();
        assert forall|j: int| 0 <= j < at - 1 implies (#[trigger] rest[j]).id != id by {
            assert(rest[j] == stages[j + 1]);
        }
        lemma_engine_changed(rest, id, status, progress, elapsed_ms, error, at - 1);
        assert(with_engine(stages, id, status, progress, elapsed_ms, error) == stages.update(
            at,
            EngineModel { status, progress, elapsed_ms, error, ..stages[at] },
        ));
    }
}

/// A report on an engine changes that engine and no other, and keeps its name
/// and label.
pub proof fn law_reports_change_one_engine(
    status: InitModel,
    id: Seq<char>,
    told: Seq<char>,
    progress: u32,
    elapsed_ms: u64,
    error: Option<Seq<char>>,
    at: int,
    i: int,
)
    requires
        0 <= at < status.stages.len(),
        status.stages[at].id == id,
        forall|j: int| 0 <= j < at ==> (#[trigger] status.stages[j]).id != id,
        0 <= i < status.stages.len(),
    ensures
        ({
            let after = status.engine(id, told, progress, elapsed_ms, error);
            &&& after.stages.len() == status.stages.len()
            &&& i != at ==> after.stages[i] == status.stages[i]
            &&& after.stages[at].id == id
            &&& after.stages[at].label == status.stages[at].label
            &&& after.stages[at].status == told
            &&& after.stages[at].progress == progress
            &&& after.stages[at].elapsed_ms == elapsed_ms
            &&& after.stages[at].error == error
            &&& after.status == status.status
            &&& after.asr_ready == status.asr_ready
        }),
{
    lemma_engine_changed(status.stages, id, told, progress, elapsed_ms, error, at);
}

/// The three engines begin as pending, in this order, and nothing is ready.
pub proof fn law_engines_begin_pending(started_at: Seq<char>, i: int)
    requires
        0 <= i < 3,
    ensures
        begun(started_at).stages.len() == 3,
        begun(started_at).stages[0].id == "asr"@,
        begun(started_at).stages[1].id == "embedding"@,
        begun(started_at).stages[2].id == "memory_v2"@,
        begun(started_at).stages[i].status == "pending"@,
        begun(started_at).stages[i].error is None,
        begun(started_at).status == "running"@,
        begun(started_at).started_at == Some(started_at),
        !begun(started_at).asr_ready,
        !begun(started_at).embedding_ready,
        !begun(started_at).memory_v2_ready,
        begun(started_at).progress == 0,
        begun(started_at).error is None,
        idle_init().status == "idle"@,
        !begun(started_at).is_complete(),
{
    reveal_strlit("running");
    reveal_strlit("completed");
    assert("running"@.len() != "completed"@.len());
}

/// An engine is ready exactly from its success on: a success marks it, a
/// failure does not, and neither touches the others.
pub proof fn law_engines_are_ready_from_their_success(
    state: InitState,
    error: Option<Seq<char>>,
    elapsed_ms: u64,
    total_ms: u64,
)
    ensures
        ({
            let asr = state.asr_ended(error, elapsed_ms, total_ms).status;
            let memory = state.memory_ended(error, elapsed_ms).status;
            let embedding = state.embedding_ended(error, elapsed_ms).status;
            &&& asr.asr_ready == (error is None || state.status.asr_ready)
            &&& asr.embedding_ready == state.status.embedding_ready
            &&& asr.memory_v2_ready == state.status.memory_v2_ready
            &&& memory.memory_v2_ready == (error is None || state.status.memory_v2_ready)
            &&& memory.asr_ready == state.status.asr_ready
            &&& memory.embedding_ready == state.status.embedding_ready
            &&& embedding.embedding_ready == (error is None || state.status.embedding_ready)
            &&& embedding.asr_ready == state.status.asr_ready
            &&& embedding.memory_v2_ready == state.status.memory_v2_ready
            &&& error matches Some(message) ==> asr.status == "error"@ && asr.error == Some(message)
            &&& error matches Some(message) ==> embedding.error == Some(message)
            &&& error matches Some(message) ==> state.phase != InitPhase::MemoryAfterFailure
                ==> memory.error == Some(message)
        }),
{
}

/// The recogniser comes first: its failure ends the start, once the memory is
/// done; after its success the start ends when both others are done.
pub proof fn law_the_start_ends_when_all_are_done(
    state: InitState,
    message: Seq<char>,
    error: Option<Seq<char>>,
    elapsed_ms: u64,
    total_ms: u64,
)
    ensures
        state.asr_ended(None, elapsed_ms, total_ms).phase == InitPhase::Others,
        state.memory_finished ==> state.asr_ended(Some(message), elapsed_ms, total_ms).phase
            == InitPhase::Ended,
        !state.memory_finished ==> state.asr_ended(Some(message), elapsed_ms, total_ms).phase
            == InitPhase::MemoryAfterFailure,
        state.memory_ended(error, elapsed_ms).memory_finished,
        state.phase == InitPhase::MemoryAfterFailure ==> state.memory_ended(error, elapsed_ms).phase
            == InitPhase::Ended,
        state.phase == InitPhase::Asr ==> state.memory_ended(error, elapsed_ms).phase
            == InitPhase::Asr,
        state.phase == InitPhase::Others && state.embedding_finished ==> state.memory_ended(
            error,
            elapsed_ms,
        ).phase == InitPhase::Ended,
        state.phase == InitPhase::Others && !state.embedding_finished ==> state.memory_ended(
            error,
            elapsed_ms,
        ).phase == InitPhase::Others,
        state.memory_finished ==> state.embedding_ended(error, elapsed_ms).phase
            == InitPhase::Ended,
        !state.memory_finished ==> state.embedding_ended(error, elapsed_ms).phase
            == InitPhase::Others,
        state.embedding_ended(error, elapsed_ms).embedding_finished,
{
}

/// The start succeeds exactly where no engine failed. Of several failures that
/// of the recogniser is reported, then that of the embeddings, then that of the
/// memory.
pub proof fn law_the_first_failure_is_reported(
    state: InitState,
    elapsed_ms: u64,
    completed_at: Seq<char>,
)
    ensures
        ({
            let end = state.final_status(elapsed_ms, completed_at);
            let sound = state.asr_error is None && state.embedding_error is None
                && state.memory_error is None;
            &&& (state.outcome() is None) == sound
            &&& state.asr_error is Some ==> state.outcome() == state.asr_error && end
                == state.status
            &&& state.asr_error is None && state.embedding_error is Some ==> state.outcome()
                == state.embedding_error
            &&& state.asr_error is None && state.embedding_error is None ==> state.outcome()
                == state.memory_error
            &&& sound ==> end.status == "completed"@ && end.progress == 100 && end.completed_at
                == Some(completed_at) && end.error is None && end.elapsed_ms == elapsed_ms
            &&& !sound && state.asr_error is None ==> end.status == "error"@ && end.error
                == state.outcome() && end.elapsed_ms == elapsed_ms
            &&& !sound && state.asr_error is None && state.status.embedding_ready
                ==> end.current_stage == Some("memory_v2"@)
            &&& !sound && state.asr_error is None && !state.status.embedding_ready
                ==> end.current_stage == Some("embedding"@)
        }),
{
}

/// A start that is complete is not made again, and without a sound runtime none
/// is made; only a start with all engines ready is complete.
pub proof fn law_complete_starts_have_every_engine(status: InitModel, error: Seq<char>)
    ensures
        status.is_complete() == (status.status == "completed"@ && status.asr_ready
            && status.embedding_ready && status.memory_v2_ready),
        !status.blocked(error).is_complete(),
        status.blocked(error).status == "error"@,
        status.blocked(error).error == Some(error),
        status.blocked(error).current_stage is None,
{
    reveal_strlit("error");
    reveal_strlit("completed");
    assert("error"@.len() != "completed"@.len());
}

/// An engine that is done adds its share to the progress: a third each, the
/// recogniser one more.
pub proof fn law_every_engine_has_its_share(stages: Seq<EngineModel>)
    ensures
        engine_done(stages, "asr"@) && !engine_done(stages, "embedding"@) && !engine_done(
            stages,
            "memory_v2"@,
        ) ==> engines_progress(stages) == 34,
        !engine_done(stages, "asr"@) && engine_done(stages, "embedding"@) && !engine_done(
            stages,
            "memory_v2"@,
        ) ==> engines_progress(stages) == 33,
        !engine_done(stages, "asr"@) && !engine_done(stages, "embedding"@) && engine_done(
            stages,
            "memory_v2"@,
        ) ==> engines_progress(stages) == 33,
        engine_done(stages, "asr"@) && engine_done(stages, "embedding"@) && !engine_done(
            stages,
            "memory_v2"@,
        ) ==> engines_progress(stages) == 67,
        !engine_done(stages, "asr"@) && !engine_done(stages, "embedding"@) && !engine_done(
            stages,
            "memory_v2"@,
        ) ==> engines_progress(stages) == 0,
{
}

/// A progress is never more than all of it, and is kept where it is not.
pub proof fn law_progress_ends_at_all(progress: u32)
    ensures
        at_most_all(progress) <= 100,
        progress <= 100 ==> at_most_all(progress) == progress,
        progress > 100 ==> at_most_all(progress) == 100,
{
}

/// When both engines begin, both are shown as running from nothing on, and what
/// else is known of the initialisation stays as it was.
pub proof fn law_both_engines_begin_together(status: InitModel, a: int, b: int)
    requires
        0 <= a < status.stages.len(),
        0 <= b < status.stages.len(),
        status.stages[a].id == "asr"@,
        status.stages[b].id == "memory_v2"@,
        forall|k: int| 0 <= k < a ==> (#[trigger] status.stages[k]).id != "asr"@,
        forall|k: int| 0 <= k < b ==> (#[trigger] status.stages[k]).id != "memory_v2"@,
    ensures
        ({
            let begun = lanes_begun(status);
            &&& begun.stages.len() == status.stages.len()
            &&& begun.stages[a].id == "asr"@ && begun.stages[a].status == "running"@
            &&& begun.stages[a].progress == 0 && begun.stages[a].error is None
            &&& begun.stages[b].id == "memory_v2"@ && begun.stages[b].status == "running"@
            &&& begun.stages[b].progress == 0 && begun.stages[b].error is None
            &&& forall|k: int|
                0 <= k < status.stages.len() && k != a && k != b ==> begun.stages[k]
                    == #[trigger] status.stages[k]
            &&& begun.current_stage == Some("asr"@)
            &&& begun.status == status.status && begun.progress == status.progress
            &&& begun.asr_ready == status.asr_ready && begun.memory_v2_ready
                == status.memory_v2_ready
            &&& begun.error == status.error
        }),
{
    reveal_strlit("asr");
    reveal_strlit("memory_v2");
    assert("asr"@.len() != "memory_v2"@.len());
    let first = with_engine(status.stages, "asr"@, "running"@, 0, 0, None);
    lemma_with_engine_at(status.stages, "asr"@, "running"@, 0, 0, None, a);
    assert forall|k: int| 0 <= k < b implies (#[trigger] first[k]).id != "memory_v2"@ by {
        assert(status.stages[k].id != "memory_v2"@);
    }
    lemma_with_engine_at(first, "memory_v2"@, "running"@, 0, 0, None, b);
}

proof fn lemma_with_engine_at(
    stages: Seq<EngineModel>,
    id: Seq<char>,
    status: Seq<char>,
    progress: u32,
    elapsed_ms: u64,
    error: Option<Seq<char>>,
    at: int,
)
    requires
        0 <= at < stages.len(),
        stages[at].id == id,
        forall|k: int| 0 <= k < at ==> (#[trigger] stages[k]).id != id,
    ensures
        with_engine(stages, id, status, progress, elapsed_ms, error) == stages.update(
            at,
            EngineModel { status, progress, elapsed_ms, error, ..stages[at] },
        ),
    decreases at,
{
    if at > 0 {
        let rest = stages.drop_first();
        assert forall|k: int| 0 <= k < at - 1 implies (#[trigger] rest[k]).id != id by {
            assert(stages[k + 1].id != id);
        }
        assert(stages[0].id != id);
        lemma_with_engine_at(rest, id, status, progress, elapsed_ms, error, at - 1);
    }
}

/// The recogniser is shown as it ended: completed and whole, or failed with its
/// error; no other engine changes with it.
pub proof fn law_the_recogniser_is_shown_as_it_ended(
    status: InitModel,
    error: Seq<char>,
    asr_elapsed_ms: u64,
    elapsed_ms: u64,
    at: int,
)
    requires
        0 <= at < status.stages.len(),
        status.stages[at].id == "asr"@,
        forall|k: int| 0 <= k < at ==> (#[trigger] status.stages[k]).id != "asr"@,
    ensures
        ({
            let failed = status.asr_failed(error, asr_elapsed_ms, elapsed_ms);
            let done = status.asr_done(asr_elapsed_ms);
            &&& failed.stages.len() == status.stages.len()
            &&& failed.stages[at].status == "error"@ && failed.stages[at].progress == 0
            &&& failed.stages[at].error == Some(error)
            &&& failed.stages[at].elapsed_ms == asr_elapsed_ms
            &&& failed.status == "error"@ && failed.error == Some(error)
            &&& failed.current_stage == Some("asr"@) && failed.elapsed_ms == elapsed_ms
            &&& done.stages.len() == status.stages.len()
            &&& done.stages[at].status == "completed"@ && done.stages[at].progress == 100
            &&& done.stages[at].error is None
            &&& done.stages[at].elapsed_ms == asr_elapsed_ms
            &&& done.current_stage == Some("embedding"@) && done.status == status.status
            &&& forall|k: int|
                0 <= k < status.stages.len() && k != at ==> failed.stages[k]
                    == #[trigger] status.stages[k] && done.stages[k] == status.stages[k]
        }),
{
    lemma_with_engine_at(status.stages, "asr"@, "error"@, 0, asr_elapsed_ms, Some(error), at);
    lemma_with_engine_at(status.stages, "asr"@, "completed"@, 100, asr_elapsed_ms, None, at);
}

/// An engine is done where it is shown as completed, and not before.
pub proof fn law_engines_are_done_when_completed(stages: Seq<EngineModel>, i: int)
    requires
        0 <= i < stages.len(),
        forall|k: int|
            0 <= k < stages.len() && k != i ==> (#[trigger] stages[k]).id != stages[i].id,
    ensures
        engine_done(stages, stages[i].id) == (stages[i].status == "completed"@),
{
}

} // verus!
