//! The course of the setup: which work is done next, and what is remembered
//! of it.
use vstd::prelude::*;

use crate::bootstrap::{SetupModel, SetupStage, SetupState};
use crate::setup_status;
use crate::setup_tools;
use crate::setup_tools::Probe;
use crate::text;

verus! {

/// What the setup waits for.
#[derive(Debug, Clone, Copy, PartialEq, Eq, Structural)]
pub enum SetupPoint {
    /// Whether the terms are accepted.
    Start,
    /// What is there of a stage.
    Inspect(SetupStage),
    /// The work of a stage.
    Run(SetupStage),
    /// Whether a model is there.
    ScanModel(usize),
    /// A model to be downloaded.
    Download(usize),
    /// Whether a downloaded model is there.
    Rescan(usize),
    /// The fingerprint of the runtime, which is probed next.
    Validate,
    /// A probe of the runtime.
    Probing(Probe),
    /// Nothing: the status is to be shown.
    Shown,
    /// Nothing: the setup failed, and the state holds the error.
    Failed,
}

/// What is told of the setup while it runs: the name of a stage or a probe, as
/// it is shown, and how it stands. The progress is a part of a whole.
#[derive(Debug)]
pub struct SetupEvent {
    pub stage: &'static str,
    pub status: &'static str,
    pub done: usize,
    pub total: usize,
    pub message: Option<String>,
    pub error: Option<String>,
}

/// What is told of the setup.
pub struct EventModel {
    pub stage: Seq<char>,
    pub status: Seq<char>,
    pub done: int,
    pub total: int,
    pub message: Option<Seq<char>>,
    pub error: Option<Seq<char>>,
}

impl View for SetupEvent {
    type V = EventModel;

    open spec fn view(&self) -> EventModel {
        EventModel {
            stage: self.stage@,
            status: self.status@,
            done: self.done as int,
            total: self.total as int,
            message: text::opt_view(self.message),
            error: text::opt_view(self.error),
        }
    }
}

pub open spec fn event_views(events: Seq<SetupEvent>) -> Seq<EventModel> {
    events.map_values(|e: SetupEvent| e@)
}

/// A stage is under way.
pub open spec fn running_event(stage: SetupStage) -> EventModel {
    EventModel {
        stage: setup_status::shown_name(stage),
        status: "running"@,
        done: 0,
        total: 1,
        message: None,
        error: None,
    }
}

/// A stage is done.
pub open spec fn completed_event(stage: SetupStage) -> EventModel {
    EventModel {
        stage: setup_status::shown_name(stage),
        status: "completed"@,
        done: 1,
        total: 1,
        message: None,
        error: None,
    }
}

/// A stage failed, or was stopped.
pub open spec fn failed_event(stage: SetupStage, error: Seq<char>) -> EventModel {
    EventModel {
        stage: setup_status::shown_name(stage),
        status: if setup_status::is_cancellation(error) {
            "cancelled"@
        } else {
            "error"@
        },
        done: 0,
        total: 1,
        message: None,
        error: Some(error),
    }
}

/// A model is there.
pub open spec fn model_event(id: Seq<char>, done: int, total: int) -> EventModel {
    EventModel {
        stage: setup_status::shown_name(SetupStage::Models),
        status: "running"@,
        done,
        total,
        message: Some("Required model ready: "@ + id),
        error: None,
    }
}

/// A probe is under way.
pub open spec fn probing_event(probe: Probe) -> EventModel {
    EventModel {
        stage: setup_tools::probe_stage(probe),
        status: "running"@,
        done: 0,
        total: 1,
        message: Some("Validating "@ + setup_tools::probe_label(probe) + "…"@),
        error: None,
    }
}

/// A probe ended, with an error or without one.
pub open spec fn probed_event(probe: Probe, error: Option<Seq<char>>) -> EventModel {
    match error {
        Some(message) => EventModel {
            stage: setup_tools::probe_stage(probe),
            status: "error"@,
            done: 0,
            total: 1,
            message: None,
            error: Some(message),
        },
        None => EventModel {
            stage: setup_tools::probe_stage(probe),
            status: "completed"@,
            done: 1,
            total: 1,
            message: Some(setup_tools::probe_label(probe) + " is ready"@),
            error: None,
        },
    }
}

/// How far the setup has come: what it remembers, what it waits for, the models
/// that it needs, what it told, and what it knows of the probes so far.
pub struct RunState {
    pub state: SetupModel,
    pub point: SetupPoint,
    pub models: Seq<Seq<char>>,
    pub events: Seq<EventModel>,
    pub fingerprint: Seq<char>,
    pub python_import: Option<Seq<char>>,
    pub tokenizer: Option<Seq<char>>,
}

impl RunState {
    pub open spec fn at(self, point: SetupPoint) -> RunState {
        RunState { point, ..self }
    }

    pub open spec fn telling(self, event: EventModel) -> RunState {
        RunState { events: self.events.push(event), ..self }
    }

    /// The whole of the models, as far as the progress goes.
    pub open spec fn total(self) -> int {
        if self.models.len() == 0 {
            1
        } else {
            self.models.len() as int
        }
    }

    /// A stage fails.
    pub open spec fn failing(self, stage: SetupStage, error: Seq<char>, now: Seq<char>) -> RunState {
        RunState { state: self.state.failing(stage, error, now), ..self }.telling(
            failed_event(stage, error),
        ).at(SetupPoint::Failed)
    }

    /// The setup goes on, unless the user stopped it.
    pub open spec fn checked(self, cancelled: bool, now: Seq<char>) -> RunState {
        if cancelled {
            self.failing(self.state.current_stage, setup_tools::CANCELLED_MESSAGE@, now)
        } else {
            self
        }
    }

    /// The terms were looked for.
    pub open spec fn started(self, terms_accepted: bool, now: Seq<char>) -> RunState {
        if terms_accepted {
            self.at(SetupPoint::Inspect(SetupStage::Python))
        } else {
            RunState {
                state: self.state.entering(SetupStage::Pending, now),
                ..self.at(SetupPoint::Shown)
            }
        }
    }

    /// A stage is over.
    pub open spec fn after_stage(self, stage: SetupStage, cancelled: bool, now: Seq<char>) -> RunState {
        self.at(SetupPoint::Inspect(stage.next())).checked(cancelled, now)
    }

    /// A stage begins.
    pub open spec fn entering(self, stage: SetupStage, now: Seq<char>) -> RunState {
        RunState { state: self.state.entering(stage, now), ..self }.telling(running_event(stage))
    }

    /// One of the first three long stages was looked at.
    pub open spec fn inspected(
        self,
        stage: SetupStage,
        present: bool,
        cancelled: bool,
        now: Seq<char>,
    ) -> RunState {
        if !self.state.is_completed(stage) || !present {
            self.entering(stage, now).at(SetupPoint::Run(stage))
        } else {
            self.after_stage(stage, cancelled, now)
        }
    }

    /// The work of a stage is done.
    pub open spec fn stage_done(self, stage: SetupStage, now: Seq<char>) -> RunState {
        RunState { state: self.state.completing(stage, now), ..self }.telling(completed_event(stage))
    }

    /// The end: the last stage is marked, and the probes are next.
    pub open spec fn finishing(self, cancelled: bool, now: Seq<char>) -> RunState {
        let marked = if self.state.is_completed(SetupStage::Models) && !self.state.is_completed(
            SetupStage::Complete,
        ) {
            RunState { state: self.state.completing(SetupStage::Complete, now), ..self }
        } else {
            self
        };
        marked.at(SetupPoint::Validate).checked(cancelled, now)
    }

    /// The models from `i` on are next.
    pub open spec fn next_model(self, i: int, cancelled: bool, now: Seq<char>) -> RunState {
        if i < self.models.len() {
            self.at(SetupPoint::ScanModel(i as usize)).checked(cancelled, now)
        } else {
            RunState {
                state: self.state.completing(SetupStage::Models, now).completing(
                    SetupStage::Complete,
                    now,
                ),
                ..self
            }.telling(completed_event(SetupStage::Models)).finishing(cancelled, now)
        }
    }

    /// The models were looked at. `obstacle` is what stands in the way of
    /// downloads.
    pub open spec fn models_inspected(
        self,
        present: bool,
        obstacle: Option<Seq<char>>,
        cancelled: bool,
        now: Seq<char>,
    ) -> RunState {
        if !self.state.is_completed(SetupStage::Models) || !present {
            match obstacle {
                Some(error) => self.entering(SetupStage::Models, now).failing(
                    SetupStage::Models,
                    error,
                    now,
                ),
                None => self.entering(SetupStage::Models, now).next_model(0, cancelled, now),
            }
        } else {
            self.finishing(cancelled, now)
        }
    }

    /// A model is there.
    pub open spec fn model_ready(self, i: int, cancelled: bool, now: Seq<char>) -> RunState {
        self.telling(model_event(self.models[i], i + 1, self.total())).next_model(
            i + 1,
            cancelled,
            now,
        )
    }

    /// A probe begins.
    pub open spec fn probing(self, probe: Probe) -> RunState {
        self.telling(probing_event(probe)).at(SetupPoint::Probing(probe))
    }

    /// The probes begin, for a runtime with this fingerprint.
    pub open spec fn validating(self, fingerprint: Seq<char>) -> RunState {
        RunState { fingerprint, ..self }.probing(Probe::PythonImport)
    }

    /// A probe ended, with an error or without one. After the last one success
    /// and failure are remembered.
    pub open spec fn probe_ended(self, probe: Probe, error: Option<Seq<char>>) -> RunState {
        let told = self.telling(probed_event(probe, error));
        match probe {
            Probe::PythonImport => RunState { python_import: error, ..told }.probing(
                Probe::Tokenizer,
            ),
            Probe::Tokenizer => RunState { tokenizer: error, ..told }.probing(Probe::Embedding),
            Probe::Embedding => {
                let failures = setup_tools::probe_failures(
                    self.python_import,
                    self.tokenizer,
                    error,
                );
                let validation = setup_tools::validation_of(
                    self.fingerprint,
                    self.python_import,
                    self.tokenizer,
                    error,
                );
                RunState {
                    state: setup_tools::validated(self.state, validation, failures),
                    ..told
                }.at(
                    if failures.len() == 0 {
                        SetupPoint::Shown
                    } else {
                        SetupPoint::Failed
                    },
                )
            },
        }
    }
}

/// The course of the setup.
pub struct SetupRun {
    state: SetupState,
    point: SetupPoint,
    models: Vec<String>,
    events: Vec<SetupEvent>,
    fingerprint: String,
    python_import: Option<String>,
    tokenizer: Option<String>,
}

impl View for SetupRun {
    type V = RunState;

    closed spec fn view(&self) -> RunState {
        RunState {
            state: self.state@,
            point: self.point,
            models: text::views(self.models@),
            events: event_views(self.events@),
            fingerprint: self.fingerprint@,
            python_import: text::opt_view(self.python_import),
            tokenizer: text::opt_view(self.tokenizer),
        }
    }
}

/// Whether a stage is done by the package manager.
pub open spec fn is_package_stage(stage: SetupStage) -> bool {
    stage == SetupStage::Python || stage == SetupStage::Venv || stage == SetupStage::Dependencies
}

impl SetupRun {
    /// A setup begins with what is remembered, and with the models that are
    /// needed.
    pub fn new(state: SetupState, models: Vec<String>) -> (res: SetupRun)
        ensures
            res@ == (RunState {
                state: state@,
                point: SetupPoint::Start,
                models: text::views(models@),
                events: Seq::empty(),
                fingerprint: Seq::empty(),
                python_import: None,
                tokenizer: None,
            }),
    {
        let run = SetupRun {
            state,
            point: SetupPoint::Start,
            models,
            events: Vec::new(),
            fingerprint: String::new(),
            python_import: None,
            tokenizer: None,
        };
        assert(event_views(run.events@) == Seq::<EventModel>::empty());
        run
    }

    /// What the setup waits for.
    pub fn point(&self) -> (res: SetupPoint)
        ensures
            res == self@.point,
    {
        self.point
    }

    /// What is remembered so far.
    pub fn state(&self) -> (res: &SetupState)
        ensures
            res@ == self@.state,
    {
        &self.state
    }

    /// What was told since the last time.
    pub fn take_events(&mut self) -> (res: Vec<SetupEvent>)
        ensures
            event_views(res@) == old(self)@.events,
            final(self)@ == (RunState { events: Seq::empty(), ..old(self)@ }),
    {
        let mut taken: Vec<SetupEvent> = Vec::new();
        taken.append(&mut self.events);
        assert(event_views(self.events@) == Seq::<EventModel>::empty());
        taken
    }

    fn tell(
        &mut self,
        stage: &'static str,
        status: &'static str,
        done: usize,
        total: usize,
        message: Option<String>,
        error: Option<String>,
    )
        ensures
            final(self)@ == old(self)@.telling(
                (EventModel {
                    stage: stage@,
                    status: status@,
                    done: done as int,
                    total: total as int,
                    message: text::opt_view(message),
                    error: text::opt_view(error),
                }),
            ),
    {
        let ghost before = self.events@;
        let event = SetupEvent { stage, status, done, total, message, error };
        let ghost told = event@;
        self.events.push(event);
        assert(event_views(self.events@) == event_views(before).push(told));
    }

    fn fail(&mut self, stage: SetupStage, error: &str, now: &str)
        ensures
            final(self)@ == old(self)@.failing(stage, error@, now@),
    {
        self.state.fail_stage(stage, error, now);
        let status = if setup_status::is_cancelled_error(error) {
            "cancelled"
        } else {
            "error"
        };
        self.tell(setup_status::exposed_stage(stage), status, 0, 1, None, Some(error.to_owned()));
        self.point = SetupPoint::Failed;
    }

    fn check_cancelled(&mut self, cancelled: bool, now: &str)
        ensures
            final(self)@ == old(self)@.checked(cancelled, now@),
    {
        if cancelled {
            let stage = self.state.current_stage;
            self.fail(stage, setup_tools::CANCELLED_MESSAGE, now);
        }
    }

    fn enter(&mut self, stage: SetupStage, now: &str)
        ensures
            final(self)@ == old(self)@.entering(stage, now@),
    {
        self.state.enter_stage(stage, now);
        self.tell(setup_status::exposed_stage(stage), "running", 0, 1, None, None);
    }

    /// The terms were looked for. Without them the setup stays pending.
    pub fn started(&mut self, terms_accepted: bool, now: &str)
        requires
            old(self)@.point == SetupPoint::Start,
        ensures
            final(self)@ == old(self)@.started(terms_accepted, now@),
    {
        if terms_accepted {
            self.point = SetupPoint::Inspect(SetupStage::Python);
        } else {
            self.state.enter_stage(SetupStage::Pending, now);
            self.point = SetupPoint::Shown;
        }
    }

    fn stage_over(&mut self, stage: SetupStage, cancelled: bool, now: &str)
        requires
            is_package_stage(stage),
        ensures
            final(self)@ == old(self)@.after_stage(stage, cancelled, now@),
    {
        self.point = match stage {
            SetupStage::Python => SetupPoint::Inspect(SetupStage::Venv),
            SetupStage::Venv => SetupPoint::Inspect(SetupStage::Dependencies),
            _ => SetupPoint::Inspect(SetupStage::Models),
        };
        self.check_cancelled(cancelled, now);
    }

    /// A stage of the package manager was looked at: its work is done again
    /// where it was never finished or its result is gone.
    pub fn inspected(&mut self, stage: SetupStage, present: bool, cancelled: bool, now: &str)
        requires
            is_package_stage(stage),
            old(self)@.point == SetupPoint::Inspect(stage),
        ensures
            final(self)@ == old(self)@.inspected(stage, present, cancelled, now@),
    {
        if !self.state.stage_completed(stage) || !present {
            self.enter(stage, now);
            self.point = SetupPoint::Run(stage);
        } else {
            self.stage_over(stage, cancelled, now);
        }
    }

    /// The lock file of the dependencies was made.
    pub fn lock_written(&mut self, lock_sha256: &str)
        requires
            old(self)@.point == SetupPoint::Run(SetupStage::Dependencies),
        ensures
            final(self)@ == (RunState {
                state: SetupModel { lock_sha256: lock_sha256@, ..old(self)@.state },
                ..old(self)@
            }),
    {
        self.state.lock_sha256 = lock_sha256.to_owned();
    }

    /// The work of a stage of the package manager ended, with an error or
    /// without one.
    pub fn stage_ended(
        &mut self,
        stage: SetupStage,
        error: Option<&str>,
        cancelled: bool,
        now: &str,
    )
        requires
            is_package_stage(stage),
            old(self)@.point == SetupPoint::Run(stage),
        ensures
            final(self)@ == match error {
                Some(message) => old(self)@.failing(stage, message@, now@),
                None => old(self)@.stage_done(stage, now@).after_stage(stage, cancelled, now@),
            },
    {
        match error {
            Some(message) => {
                self.fail(stage, message, now);
            },
            None => {
                self.state.mark_completed(stage, now);
                self.tell(setup_status::exposed_stage(stage), "completed", 1, 1, None, None);
                self.stage_over(stage, cancelled, now);
            },
        }
    }

    fn finish(&mut self, cancelled: bool, now: &str)
        ensures
            final(self)@ == old(self)@.finishing(cancelled, now@),
    {
        if self.state.stage_completed(SetupStage::Models) && !self.state.stage_completed(
            SetupStage::Complete,
        ) {
            self.state.mark_completed(SetupStage::Complete, now);
        }
        self.point = SetupPoint::Validate;
        self.check_cancelled(cancelled, now);
    }

    fn next_model(&mut self, i: usize, cancelled: bool, now: &str)
        requires
            i <= old(self)@.models.len(),
        ensures
            final(self)@ == old(self)@.next_model(i as int, cancelled, now@),
    {
        if i < self.models.len() {
            self.point = SetupPoint::ScanModel(i);
            self.check_cancelled(cancelled, now);
        } else {
            self.state.mark_completed(SetupStage::Models, now);
            self.state.mark_completed(SetupStage::Complete, now);
            self.tell(setup_status::exposed_stage(SetupStage::Models), "completed", 1, 1, None, None);
            self.finish(cancelled, now);
        }
    }

    /// The models were looked at: they are taken up again where one is missing.
    /// `obstacle` is what stands in the way of downloads.
    pub fn models_inspected(
        &mut self,
        present: bool,
        obstacle: Option<&str>,
        cancelled: bool,
        now: &str,
    )
        requires
            old(self)@.point == SetupPoint::Inspect(SetupStage::Models),
        ensures
            final(self)@ == old(self)@.models_inspected(
                present,
                crate::lance_memory::opt_str_view(obstacle),
                cancelled,
                now@,
            ),
    {
        if !self.state.stage_completed(SetupStage::Models) || !present {
            self.enter(SetupStage::Models, now);
            match obstacle {
                Some(error) => {
                    self.fail(SetupStage::Models, error, now);
                },
                None => {
                    self.next_model(0, cancelled, now);
                },
            }
        } else {
            self.finish(cancelled, now);
        }
    }

    fn model_ready(&mut self, i: usize, cancelled: bool, now: &str)
        requires
            i < old(self)@.models.len(),
        ensures
            final(self)@ == old(self)@.model_ready(i as int, cancelled, now@),
    {
        let total: usize = self.models.len();
        let mut message = "Required model ready: ".to_owned();
        text::append_text(&mut message, self.models[i].as_str());
        self.tell(setup_status::exposed_stage(SetupStage::Models), "running", i + 1, total, Some(message), None);
        self.next_model(i + 1, cancelled, now);
    }

    /// A model was looked for: it is downloaded where it is not there.
    pub fn model_scanned(&mut self, i: usize, installed: bool, cancelled: bool, now: &str)
        requires
            old(self)@.point == SetupPoint::ScanModel(i),
            i < old(self)@.models.len(),
        ensures
            final(self)@ == if installed {
                old(self)@.model_ready(i as int, cancelled, now@)
            } else {
                old(self)@.at(SetupPoint::Download(i))
            },
    {
        if installed {
            self.model_ready(i, cancelled, now);
        } else {
            self.point = SetupPoint::Download(i);
        }
    }

    /// A download ended, with an error or without one.
    pub fn model_downloaded(
        &mut self,
        i: usize,
        error: Option<&str>,
        cancelled: bool,
        now: &str,
    )
        requires
            old(self)@.point == SetupPoint::Download(i),
        ensures
            final(self)@ == match error {
                Some(message) => old(self)@.failing(SetupStage::Models, message@, now@),
                None => old(self)@.at(SetupPoint::Rescan(i)).checked(cancelled, now@),
            },
    {
        match error {
            Some(message) => {
                self.fail(SetupStage::Models, message, now);
            },
            None => {
                self.point = SetupPoint::Rescan(i);
                self.check_cancelled(cancelled, now);
            },
        }
    }

    /// A downloaded model was looked for. One that is not complete is a failure.
    pub fn model_rescanned(&mut self, i: usize, installed: bool, cancelled: bool, now: &str)
        requires
            old(self)@.point == SetupPoint::Rescan(i),
            i < old(self)@.models.len(),
        ensures
            final(self)@ == if installed {
                old(self)@.model_ready(i as int, cancelled, now@)
            } else {
                old(self)@.failing(
                    SetupStage::Models,
                    "model download completed without all expected files: "@
                        + old(self)@.models[i as int],
                    now@,
                )
            },
    {
        if installed {
            self.model_ready(i, cancelled, now);
        } else {
            let mut message = "model download completed without all expected files: ".to_owned();
            text::append_text(&mut message, self.models[i].as_str());
            self.fail(SetupStage::Models, message.as_str(), now);
        }
    }

    fn begin_probe(&mut self, probe: Probe)
        ensures
            final(self)@ == old(self)@.probing(probe),
    {
        let mut message = "Validating ".to_owned();
        text::append_text(&mut message, probe.label());
        text::append_text(&mut message, "…");
        self.tell(probe.stage(), "running", 0, 1, Some(message), None);
        self.point = SetupPoint::Probing(probe);
    }

    /// The probes begin, for a runtime with this fingerprint.
    pub fn validating(&mut self, fingerprint: &str)
        requires
            old(self)@.point == SetupPoint::Validate,
        ensures
            final(self)@ == old(self)@.validating(fingerprint@),
    {
        self.fingerprint = fingerprint.to_owned();
        self.begin_probe(Probe::PythonImport);
    }

    /// A probe ended, with an error or without one. After the last one success
    /// and failure are remembered.
    pub fn probe_ended(&mut self, probe: Probe, error: Option<String>)
        requires
            old(self)@.point == SetupPoint::Probing(probe),
        ensures
            final(self)@ == old(self)@.probe_ended(probe, text::opt_view(error)),
    {
        match &error {
            Some(message) => {
                self.tell(probe.stage(), "error", 0, 1, None, Some(message.clone()));
            },
            None => {
                let mut message = probe.label().to_owned();
                text::append_text(&mut message, " is ready");
                self.tell(probe.stage(), "completed", 1, 1, Some(message), None);
            },
        }
        match probe {
            Probe::PythonImport => {
                self.python_import = error;
                self.begin_probe(Probe::Tokenizer);
            },
            Probe::Tokenizer => {
                self.tokenizer = error;
                self.begin_probe(Probe::Embedding);
            },
            Probe::Embedding => {
                let result = setup_tools::validate_runtime(
                    &mut self.state,
                    self.fingerprint.as_str(),
                    &self.python_import,
                    &self.tokenizer,
                    &error,
                );
                self.point = match result {
                    Ok(_) => SetupPoint::Shown,
                    Err(_) => SetupPoint::Failed,
                };
            },
        }
    }
}

/// A stage that is done, and whose result is there, is skipped: nothing is
/// remembered or told of it, and the next stage is looked at.
pub proof fn law_finished_stages_are_skipped(run: RunState, stage: SetupStage, now: Seq<char>)
    requires
        is_package_stage(stage),
        run.state.is_completed(stage),
    ensures
        run.inspected(stage, true, false, now) == run.at(SetupPoint::Inspect(stage.next())),
{
}

/// A setup that is stopped keeps every stage that was done, and remembers that
/// it was stopped, so that it can be taken up again.
pub proof fn law_stopped_setups_can_be_resumed(run: RunState, now: Seq<char>)
    ensures
        run.checked(true, now).state.completed == run.state.completed,
        run.checked(true, now).point == SetupPoint::Failed,
        run.checked(true, now).state.last_error == Some(setup_tools::CANCELLED_MESSAGE@),
        setup_status::is_cancellation(setup_tools::CANCELLED_MESSAGE@),
{
    let message = setup_tools::CANCELLED_MESSAGE@;
    reveal_strlit("setup cancelled; run setup again to resume");
    reveal_strlit("setup cancelled");
    assert(message.subrange(0, 15) == "setup cancelled"@);
}

/// The setup after every model from `i` on was found.
pub open spec fn with_models(run: RunState, i: int, now: Seq<char>) -> RunState
    decreases run.models.len() - i,
{
    if 0 <= i < run.models.len() {
        with_models(run.model_ready(i, false, now), i + 1, now)
    } else {
        run
    }
}

proof fn lemma_models_end_the_setup(run: RunState, i: int, now: Seq<char>)
    requires
        0 <= i < run.models.len(),
        run.state.is_completed(SetupStage::Resources),
        run.state.is_completed(SetupStage::Python),
        run.state.is_completed(SetupStage::Venv),
        run.state.is_completed(SetupStage::Dependencies),
    ensures
        with_models(run, i, now).point == SetupPoint::Validate,
        setup_status::all_stages_done(with_models(run, i, now).state),
    decreases run.models.len() - i,
{
    let next = run.model_ready(i, false, now);
    if i + 1 < run.models.len() {
        lemma_models_end_the_setup(next, i + 1, now);
    } else {
        assert(with_models(next, i + 1, now) == next);
    }
}

/// A setup from nothing, with every step succeeding and every model found, has
/// all of its stages done before the probes run.
pub proof fn law_an_undisturbed_setup_completes(run: RunState, now: Seq<char>)
    requires
        run.state.is_completed(SetupStage::Resources),
    ensures
        ({
            let python = run.entering(SetupStage::Python, now).stage_done(SetupStage::Python, now);
            let venv = python.entering(SetupStage::Venv, now).stage_done(SetupStage::Venv, now);
            let packages = venv.entering(SetupStage::Dependencies, now).stage_done(
                SetupStage::Dependencies,
                now,
            );
            let end = with_models(packages.models_inspected(false, None, false, now), 0, now);
            &&& end.point == SetupPoint::Validate
            &&& setup_status::all_stages_done(end.state)
        }),
{
    let python = run.entering(SetupStage::Python, now).stage_done(SetupStage::Python, now);
    let venv = python.entering(SetupStage::Venv, now).stage_done(SetupStage::Venv, now);
    let packages = venv.entering(SetupStage::Dependencies, now).stage_done(
        SetupStage::Dependencies,
        now,
    );
    let models = packages.models_inspected(false, None, false, now);
    if models.models.len() > 0 {
        lemma_models_end_the_setup(models, 0, now);
    }
}

/// A failure ends the setup at its stage: it is remembered there, and told as
/// an error, or as a stop where the user stopped it.
pub proof fn law_failures_end_the_setup(
    run: RunState,
    stage: SetupStage,
    error: Seq<char>,
    now: Seq<char>,
)
    ensures
        ({
            let failed = run.failing(stage, error, now);
            let told = failed.events.last();
            &&& failed.point == SetupPoint::Failed
            &&& failed.state.last_error == Some(error)
            &&& failed.state.current_stage == stage
            &&& failed.state.completed == run.state.completed
            &&& failed.events.len() == run.events.len() + 1
            &&& failed.events.drop_last() == run.events
            &&& told.stage == setup_status::shown_name(stage)
            &&& told.error == Some(error)
            &&& text::begins_with(error, "setup cancelled"@) ==> told.status == "cancelled"@
            &&& !text::begins_with(error, "setup cancelled"@) ==> told.status == "error"@
        }),
        run.checked(false, now) == run,
{
    assert(run.failing(stage, error, now).events.drop_last() == run.events);
}

/// A setup begins with the first package stage once the terms are accepted, and
/// else shows itself as waiting for them, with nothing told.
pub proof fn law_setups_wait_for_the_terms(run: RunState, now: Seq<char>)
    ensures
        run.started(true, now) == run.at(SetupPoint::Inspect(SetupStage::Python)),
        run.started(false, now).point == SetupPoint::Shown,
        run.started(false, now).state.current_stage == SetupStage::Pending,
        run.started(false, now).state.completed == run.state.completed,
        run.started(false, now).events == run.events,
{
}

/// A stage that is not done, or whose result is gone, is run and told as
/// running; once it has run it is done, told so, and the next one is looked
/// at.
pub proof fn law_unfinished_stages_are_run(
    run: RunState,
    stage: SetupStage,
    present: bool,
    now: Seq<char>,
)
    requires
        !run.state.is_completed(stage) || !present,
    ensures
        ({
            let running = run.inspected(stage, present, false, now);
            let ended = running.stage_done(stage, now).after_stage(stage, false, now);
            &&& running.point == SetupPoint::Run(stage)
            &&& running.state.current_stage == stage
            &&& running.state.completed == run.state.completed
            &&& running.events.len() == run.events.len() + 1
            &&& running.events.last().stage == setup_status::shown_name(stage)
            &&& running.events.last().status == "running"@
            &&& ended.state.is_completed(stage)
            &&& ended.point == SetupPoint::Inspect(stage.next())
            &&& ended.events.len() == run.events.len() + 2
            &&& ended.events.last().stage == setup_status::shown_name(stage)
            &&& ended.events.last().status == "completed"@
            &&& ended.events.last().done == ended.events.last().total
        }),
{
}

/// The models are looked for one by one, each is told with its number, and
/// after the last one they are done and the runtime is validated.
pub proof fn law_models_follow_one_another(run: RunState, i: int, now: Seq<char>)
    requires
        0 <= i < run.models.len() <= usize::MAX,
    ensures
        ({
            let next = run.model_ready(i, false, now);
            let told = next.events[run.events.len() as int];
            &&& told.done == i + 1
            &&& told.total == run.models.len()
            &&& told.message == Some("Required model ready: "@ + run.models[i])
            &&& i + 1 < run.models.len() ==> next.point == SetupPoint::ScanModel((i + 1) as usize)
            &&& i + 1 < run.models.len() ==> next.state == run.state
            &&& i + 1 == run.models.len() ==> next.point == SetupPoint::Validate
            &&& i + 1 == run.models.len() ==> next.state.is_completed(SetupStage::Models)
            &&& i + 1 == run.models.len() ==> next.state.is_completed(SetupStage::Complete)
        }),
{
}

/// What is in the way of the models ends the setup with it; models that are
/// there are not looked for again.
pub proof fn law_obstacles_stop_the_models(
    run: RunState,
    present: bool,
    error: Seq<char>,
    now: Seq<char>,
)
    ensures
        !run.state.is_completed(SetupStage::Models) || !present ==> run.models_inspected(
            present,
            Some(error),
            false,
            now,
        ).point == SetupPoint::Failed && run.models_inspected(
            present,
            Some(error),
            false,
            now,
        ).state.last_error == Some(error),
        run.state.is_completed(SetupStage::Models) && present ==> run.models_inspected(
            present,
            Some(error),
            false,
            now,
        ).point == SetupPoint::Validate && run.models_inspected(
            present,
            Some(error),
            false,
            now,
        ).events == run.events,
{
}

/// The probes run one after the other, each whatever the others found; the
/// setup ends well exactly where none of them failed, and all of their findings
/// are kept.
pub proof fn law_every_probe_runs(
    run: RunState,
    fingerprint: Seq<char>,
    python: Option<Seq<char>>,
    tokenizer: Option<Seq<char>>,
    embedding: Option<Seq<char>>,
)
    ensures
        ({
            let first = run.validating(fingerprint);
            let second = first.probe_ended(Probe::PythonImport, python);
            let third = second.probe_ended(Probe::Tokenizer, tokenizer);
            let end = third.probe_ended(Probe::Embedding, embedding);
            &&& first.point == SetupPoint::Probing(Probe::PythonImport)
            &&& second.point == SetupPoint::Probing(Probe::Tokenizer)
            &&& third.point == SetupPoint::Probing(Probe::Embedding)
            &&& (end.point == SetupPoint::Shown) == (python is None && tokenizer is None
                && embedding is None)
            &&& end.point == SetupPoint::Shown || end.point == SetupPoint::Failed
            &&& end.state.validation.fingerprint == fingerprint
            &&& end.state.validation.python_import_ready == (python is None)
            &&& end.state.validation.tokenizer_ready == (tokenizer is None)
            &&& end.state.validation.embedding_ready == (embedding is None)
            &&& (end.state.last_error is None) == (end.point == SetupPoint::Shown)
            &&& end.state.completed == run.state.completed
            &&& end.events.len() == run.events.len() + 6
        }),
{
}

/// The package manager makes Python, the environment and the dependencies; it
/// neither unpacks resources nor fetches models.
pub proof fn law_the_package_manager_makes_three_stages(stage: SetupStage)
    ensures
        stage == SetupStage::Python || stage == SetupStage::Venv || stage
            == SetupStage::Dependencies ==> is_package_stage(stage),
        stage == SetupStage::Pending || stage == SetupStage::Resources || stage
            == SetupStage::Models || stage == SetupStage::Complete ==> !is_package_stage(stage),
{
}

/// What is told of a step says how far it is: nothing of it is done while it
/// runs or when it failed, and all of it when it is done; an error goes with a
/// failure alone.
pub proof fn law_events_tell_how_far_a_step_is(
    stage: SetupStage,
    probe: Probe,
    id: Seq<char>,
    error: Seq<char>,
    done: int,
    total: int,
)
    ensures
        ({
            let running = running_event(stage);
            let probing = probing_event(probe);
            let model = model_event(id, done, total);
            &&& running.status == "running"@ && running.done == 0 && running.total == 1
            &&& running.error is None
            &&& probing.status == "running"@ && probing.done == 0 && probing.total == 1
            &&& probing.error is None
            &&& model.status == "running"@ && model.done == done && model.total == total
            &&& model.error is None && model.message == Some("Required model ready: "@ + id)
        }),
        ({
            let completed = completed_event(stage);
            let probed = probed_event(probe, None);
            &&& completed.status == "completed"@ && completed.done == 1 && completed.total == 1
            &&& completed.error is None
            &&& probed.status == "completed"@ && probed.done == 1 && probed.total == 1
            &&& probed.error is None
        }),
        ({
            let failed = failed_event(stage, error);
            let probed = probed_event(probe, Some(error));
            &&& failed.done == 0 && failed.total == 1 && failed.error == Some(error)
            &&& failed.status == if setup_status::is_cancellation(error) {
                "cancelled"@
            } else {
                "error"@
            }
            &&& probed.status == "error"@ && probed.done == 0 && probed.total == 1
            &&& probed.error == Some(error) && probed.message is None
        }),
        probed_event(probe, None).stage == probing_event(probe).stage,
        probed_event(probe, Some(error)).stage == probing_event(probe).stage,
        completed_event(stage).stage == running_event(stage).stage,
        failed_event(stage, error).stage == running_event(stage).stage,
{
}

} // verus!
