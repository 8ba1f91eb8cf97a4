//! The service that runs the local model: its queue, its phases and what it
//! reports.
use vstd::prelude::*;

use crate::lance_memory;
use crate::summary_failure;
use crate::summary_failure::SummaryFailureReason;
use crate::summary_server;
use crate::text;

verus! {

/// How many requests may wait.
pub const SUMMARY_QUEUE_CAPACITY: usize = 128;

/// After how many idle seconds the model is unloaded.
pub const IDLE_UNLOAD_SECS: u64 = 600;

/// What is reported of the service.
#[derive(Debug, PartialEq, Eq)]
pub struct SummaryRuntimeStatus {
    pub state: String,
    pub queue_depth: u32,
    pub fallback_active: bool,
    pub message: Option<String>,
}

/// What is reported of the service.
pub struct RuntimeReport {
    pub state: Seq<char>,
    pub queue_depth: u32,
    pub fallback_active: bool,
    pub message: Option<Seq<char>>,
}

impl View for SummaryRuntimeStatus {
    type V = RuntimeReport;

    open spec fn view(&self) -> RuntimeReport {
        RuntimeReport {
            state: self.state@,
            queue_depth: self.queue_depth,
            fallback_active: self.fallback_active,
            message: text::opt_view(self.message),
        }
    }
}

/// Where the model server is.
#[derive(Debug, Clone, Copy, PartialEq, Eq, Structural)]
pub enum RuntimePhase {
    Idle,
    Starting,
    Ready,
}

/// How a request was taken by the queue.
#[derive(Debug, Clone, Copy, PartialEq, Eq, Structural)]
pub enum QueueAnswer {
    Taken,
    Full,
    Closed,
}

/// The state of the service.
pub struct ServiceState {
    pub queue_depth: int,
    pub in_flight: int,
    pub phase: RuntimePhase,
    pub fallback_active: bool,
    pub last_error: Option<Seq<char>>,
    pub idle_generation: int,
    pub reported: Option<RuntimeReport>,
}

impl ServiceState {
    /// The service after a failure.
    pub open spec fn failed(self, message: Seq<char>) -> ServiceState {
        ServiceState { fallback_active: true, last_error: Some(message), ..self }
    }

    /// The service after a success.
    pub open spec fn succeeded(self) -> ServiceState {
        ServiceState { fallback_active: false, last_error: None, ..self }
    }

    /// The number of waiting requests that is reported.
    pub open spec fn reported_depth(self) -> u32 {
        if self.queue_depth <= u32::MAX {
            self.queue_depth as u32
        } else {
            u32::MAX
        }
    }

    /// What is reported of the service, given the setting and whether the model
    /// is there.
    pub open spec fn report(self, mode: Option<Seq<char>>, model_installed: bool) -> RuntimeReport {
        RuntimeReport {
            state: if summary_server::is_off(mode) {
                "disabled"@
            } else if !model_installed {
                "model_missing"@
            } else if self.last_error is Some {
                "error"@
            } else if self.phase == RuntimePhase::Starting {
                "starting"@
            } else if self.in_flight > 0 || self.reported_depth() > 0 {
                "busy"@
            } else {
                "ready"@
            },
            queue_depth: self.reported_depth(),
            fallback_active: self.fallback_active,
            message: if summary_server::is_off(mode) {
                None
            } else if !model_installed {
                Some("Gemma model is not installed"@)
            } else {
                self.last_error
            },
        }
    }
}

/// The service that runs the local model.
pub struct LocalSummaryService {
    queue_depth: usize,
    in_flight: usize,
    phase: RuntimePhase,
    fallback_active: bool,
    last_error: Option<String>,
    idle_generation: u64,
    reported: Option<SummaryRuntimeStatus>,
}

impl View for LocalSummaryService {
    type V = ServiceState;

    closed spec fn view(&self) -> ServiceState {
        ServiceState {
            queue_depth: self.queue_depth as int,
            in_flight: self.in_flight as int,
            phase: self.phase,
            fallback_active: self.fallback_active,
            last_error: text::opt_view(self.last_error),
            idle_generation: self.idle_generation as int,
            reported: match self.reported {
                Some(status) => Some(status@),
                None => None,
            },
        }
    }
}

/// The error of a request that the queue did not take.
pub open spec fn queue_error(answer: QueueAnswer) -> Seq<char> {
    if answer == QueueAnswer::Full {
        summary_failure::reason_text(SummaryFailureReason::SummaryQueueFailed, "queue_full"@)
    } else {
        summary_failure::reason_text(SummaryFailureReason::SummaryRuntimeFailed, "queue_closed"@)
    }
}

/// What is done before a text goes to the server.
#[derive(Debug, Clone, Copy, PartialEq, Eq, Structural)]
pub enum ServerStep {
    /// The model is missing; the run fails.
    ModelMissing,
    /// The server that ended is cleared away, and a new one is started.
    Restart,
    /// A server is started.
    Start,
    /// The running server is used.
    Use,
}

/// What follows a run.
#[derive(Debug, Clone, Copy, PartialEq, Eq, Structural)]
pub enum AfterRun {
    /// The server is stopped.
    Stop,
    /// The server goes on, and is unloaded after the idle time if no run of a
    /// later generation came between.
    UnloadLater { generation: u64 },
}

impl LocalSummaryService {
    pub fn new() -> (res: LocalSummaryService)
        ensures
            res@ == (ServiceState {
                queue_depth: 0,
                in_flight: 0,
                phase: RuntimePhase::Idle,
                fallback_active: false,
                last_error: None,
                idle_generation: 0,
                reported: None,
            }),
    {
        LocalSummaryService {
            queue_depth: 0,
            in_flight: 0,
            phase: RuntimePhase::Idle,
            fallback_active: false,
            last_error: None,
            idle_generation: 0,
            reported: None,
        }
    }

    /// A request was offered to the queue.
    pub fn enqueue_summary(&mut self, answer: QueueAnswer) -> (res: Result<(), String>)
        requires
            old(self)@.queue_depth < usize::MAX,
        ensures
            answer == QueueAnswer::Taken ==> res is Ok && final(self)@ == (ServiceState {
                queue_depth: old(self)@.queue_depth + 1,
                ..old(self)@
            }),
            answer != QueueAnswer::Taken ==> res is Err && res->Err_0@ == queue_error(answer)
                && final(self)@ == old(self)@,
    {
        match answer {
            QueueAnswer::Taken => {
                self.queue_depth = self.queue_depth + 1;
                Ok(())
            },
            QueueAnswer::Full => Err(
                summary_failure::format_reason(
                    SummaryFailureReason::SummaryQueueFailed,
                    "queue_full",
                ),
            ),
            QueueAnswer::Closed => Err(
                summary_failure::format_reason(
                    SummaryFailureReason::SummaryRuntimeFailed,
                    "queue_closed",
                ),
            ),
        }
    }

    /// The worker took a request out of the queue.
    pub fn request_taken(&mut self)
        requires
            old(self)@.queue_depth > 0,
        ensures
            final(self)@ == (ServiceState {
                queue_depth: old(self)@.queue_depth - 1,
                ..old(self)@
            }),
    {
        self.queue_depth = self.queue_depth - 1;
    }

    /// The worker dropped a request. The first time it is offered again; then
    /// the request fails.
    pub fn reply_lost(&mut self, attempt: u32) -> (res: Option<String>)
        ensures
            attempt == 0 ==> res is None && final(self)@ == old(self)@,
            attempt != 0 ==> res is Some && res->0@ == summary_failure::reason_text(
                SummaryFailureReason::SummaryRuntimeFailed,
                "summary_worker_dropped_request"@,
            ) && final(self)@ == old(self)@.failed(res->0@),
    {
        if attempt == 0 {
            return None;
        }
        let message = summary_failure::format_reason(
            SummaryFailureReason::SummaryRuntimeFailed,
            "summary_worker_dropped_request",
        );
        self.record_failure(message.as_str());
        Some(message)
    }

    /// The number of waiting requests that is reported.
    fn queued_count(&self) -> (res: u32)
        ensures
            res == self@.reported_depth(),
    {
        if self.queue_depth as u64 <= u32::MAX as u64 {
            self.queue_depth as u32
        } else {
            u32::MAX
        }
    }

    /// Something failed.
    pub fn record_failure(&mut self, message: &str)
        ensures
            final(self)@ == old(self)@.failed(message@),
    {
        self.fallback_active = true;
        self.last_error = Some(message.to_owned());
    }

    /// A run begins.
    pub fn inference_started(&mut self)
        requires
            old(self)@.in_flight < usize::MAX,
        ensures
            final(self)@ == (ServiceState { in_flight: old(self)@.in_flight + 1, ..old(self)@ }),
    {
        self.in_flight = self.in_flight + 1;
    }

    /// A run ended, with an error or without one. An answer that breaks the
    /// contract is a matter of that answer: it leaves the service as it is.
    pub fn inference_finished(&mut self, error: Option<&str>)
        requires
            old(self)@.in_flight > 0,
        ensures
            ({
                let ended = ServiceState { in_flight: old(self)@.in_flight - 1, ..old(self)@ };
                final(self)@ == match error {
                    None => ended.succeeded(),
                    Some(message) => if summary_failure::reason_of(message@).breaks_contract() {
                        ended
                    } else {
                        ended.failed(message@)
                    },
                }
            }),
    {
        self.in_flight = self.in_flight - 1;
        match error {
            None => {
                self.fallback_active = false;
                self.last_error = None;
            },
            Some(message) => {
                if !summary_failure::reason_from_error(message).is_contract_violation() {
                    self.record_failure(message);
                }
            },
        }
    }

    /// What is done before a text goes to the server.
    pub fn prepare_server(&mut self, model_installed: bool, running: bool, exited: bool) -> (res:
        ServerStep)
        ensures
            res == (if !model_installed {
                ServerStep::ModelMissing
            } else if running && exited {
                ServerStep::Restart
            } else if !running {
                ServerStep::Start
            } else {
                ServerStep::Use
            }),
            final(self)@ == (if res == ServerStep::Restart || res == ServerStep::Start {
                ServiceState { phase: RuntimePhase::Starting, ..old(self)@ }
            } else {
                old(self)@
            }),
    {
        if !model_installed {
            return ServerStep::ModelMissing;
        }
        if running && !exited {
            return ServerStep::Use;
        }
        self.phase = RuntimePhase::Starting;
        if running {
            ServerStep::Restart
        } else {
            ServerStep::Start
        }
    }

    /// A server was started, or could not be.
    pub fn server_started(&mut self, started: bool)
        ensures
            final(self)@ == (ServiceState {
                phase: if started {
                    RuntimePhase::Ready
                } else {
                    RuntimePhase::Idle
                },
                ..old(self)@
            }),
    {
        self.phase = if started {
            RuntimePhase::Ready
        } else {
            RuntimePhase::Idle
        };
    }

    /// The server answered, or failed to. After a failure it is stopped; else
    /// it is unloaded when it has been idle for long enough.
    pub fn server_answered(&mut self, error: Option<&str>) -> (res: AfterRun)
        requires
            old(self)@.idle_generation < u64::MAX,
        ensures
            error is Some && !summary_failure::reason_of(error->0@).breaks_contract() ==> res
                == AfterRun::Stop && final(self)@ == (ServiceState {
                phase: RuntimePhase::Idle,
                ..old(self)@
            }),
            !(error is Some && !summary_failure::reason_of(error->0@).breaks_contract()) ==> res
                == (AfterRun::UnloadLater {
                generation: (old(self)@.idle_generation + 1) as u64,
            }) && final(self)@ == (ServiceState {
                idle_generation: old(self)@.idle_generation + 1,
                ..old(self)@
            }),
    {
        let failed = match error {
            Some(message) => !summary_failure::reason_from_error(message).is_contract_violation(),
            None => false,
        };
        if failed {
            self.phase = RuntimePhase::Idle;
            return AfterRun::Stop;
        }
        self.idle_generation = self.idle_generation + 1;
        AfterRun::UnloadLater { generation: self.idle_generation }
    }

    /// The idle time of a run is over: whether the server is unloaded now.
    pub fn unload_is_due(&self, generation: u64) -> (res: bool)
        ensures
            res == (self@.idle_generation == generation),
    {
        self.idle_generation == generation
    }

    /// The server is unloaded.
    pub fn unload(&mut self)
        ensures
            final(self)@ == (ServiceState { phase: RuntimePhase::Idle, ..old(self)@ }),
    {
        self.phase = RuntimePhase::Idle;
    }

    /// What is reported of the service.
    pub fn status(&self, mode: Option<&str>, model_installed: bool) -> (res: SummaryRuntimeStatus)
        ensures
            res@ == self@.report(lance_memory::opt_str_view(mode), model_installed),
    {
        let queue_depth = self.queued_count();
        let fallback_active = self.fallback_active;
        if summary_server::is_switched_off(mode) {
            return SummaryRuntimeStatus {
                state: "disabled".to_owned(),
                queue_depth,
                fallback_active,
                message: None,
            };
        }
        if !model_installed {
            return SummaryRuntimeStatus {
                state: "model_missing".to_owned(),
                queue_depth,
                fallback_active,
                message: Some("Gemma model is not installed".to_owned()),
            };
        }
        if let Some(error) = &self.last_error {
            return SummaryRuntimeStatus {
                state: "error".to_owned(),
                queue_depth,
                fallback_active,
                message: Some(error.clone()),
            };
        }
        let state = if self.phase == RuntimePhase::Starting {
            "starting"
        } else if self.in_flight > 0 || queue_depth > 0 {
            "busy"
        } else {
            "ready"
        };
        SummaryRuntimeStatus {
            state: state.to_owned(),
            queue_depth,
            fallback_active,
            message: None,
        }
    }

    /// Tells whether a report differs from the last one, and keeps it if so.
    pub fn notify_status(&mut self, status: SummaryRuntimeStatus) -> (res: bool)
        ensures
            res == (old(self)@.reported != Some(status@)),
            final(self)@ == (ServiceState { reported: Some(status@), ..old(self)@ }),
    {
        let same = match &self.reported {
            Some(last) => text::same_text(last.state.as_str(), status.state.as_str())
                && last.queue_depth == status.queue_depth && last.fallback_active
                == status.fallback_active && same_message(&last.message, &status.message),
            None => false,
        };
        if same {
            return false;
        }
        self.reported = Some(status);
        true
    }
}

fn same_message(a: &Option<String>, b: &Option<String>) -> (res: bool)
    ensures
        res == (text::opt_view(*a) == text::opt_view(*b)),
{
    match (a, b) {
        (Some(x), Some(y)) => text::same_text(x.as_str(), y.as_str()),
        (None, None) => true,
        _ => false,
    }
}

/// A failure is reported as an error until a run succeeds, whatever else goes
/// on; a broken answer does not make the service look broken.
pub proof fn law_failures_are_reported_until_success(state: ServiceState, message: Seq<char>)
    ensures
        state.failed(message).report(None, true).state == "error"@,
        state.failed(message).report(None, true).message == Some(message),
        state.failed(message).report(None, true).fallback_active,
        state.failed(message).succeeded().report(None, true).message is None,
        state.failed(message).succeeded().report(None, true).state != "error"@,
{
    reveal_strlit("error");
    reveal_strlit("starting");
    reveal_strlit("busy");
    reveal_strlit("ready");
    assert("error"@[0] == 'e');
    assert("starting"@[0] == 's');
    assert("busy"@[0] == 'b');
    assert("ready"@[0] == 'r');
}

/// What is found before a run: everything that it needs.
#[derive(Debug)]
pub struct Precheck {
    /// What is wrong with the runtime.
    pub runtime_error: Option<String>,
    pub terms_accepted: bool,
    /// The setting of the summaries.
    pub mode: Option<String>,
    pub model_installed: bool,
    pub model_path: String,
    /// What is wrong with the model file.
    pub model_error: Option<String>,
    pub server_bundled: bool,
}

/// What is wrong with what was found, if anything is.
pub open spec fn precheck_problem(found: Precheck) -> Option<Seq<char>> {
    if found.runtime_error is Some {
        Some(found.runtime_error->0@)
    } else if !found.terms_accepted {
        Some("Gemma Terms acknowledgement is required before using the local model"@)
    } else if summary_server::is_off(text::opt_view(found.mode)) {
        Some("local memory summary is disabled"@)
    } else if !found.model_installed {
        Some("Gemma model is not installed: "@ + found.model_path@)
    } else if found.model_error is Some {
        Some("Gemma model failed validation: "@ + found.model_error->0@)
    } else if !found.server_bundled {
        Some("llama-server.exe is not bundled"@)
    } else {
        None
    }
}

fn runtime_failure(detail: &str) -> (res: String)
    ensures
        res@ == summary_failure::reason_text(SummaryFailureReason::SummaryRuntimeFailed, detail@),
{
    summary_failure::format_reason(SummaryFailureReason::SummaryRuntimeFailed, detail)
}

/// Refuses a run that cannot succeed, for the first reason there is.
pub fn precheck(found: &Precheck) -> (res: Result<(), String>)
    ensures
        match precheck_problem(*found) {
            Some(problem) => res is Err && res->Err_0@ == summary_failure::reason_text(
                SummaryFailureReason::SummaryRuntimeFailed,
                problem,
            ),
            None => res is Ok,
        },
{
    if let Some(error) = &found.runtime_error {
        return Err(runtime_failure(error.as_str()));
    }
    if !found.terms_accepted {
        return Err(
            runtime_failure("Gemma Terms acknowledgement is required before using the local model"),
        );
    }
    let off = match &found.mode {
        Some(mode) => summary_server::is_switched_off(Some(mode.as_str())),
        None => false,
    };
    if off {
        return Err(runtime_failure("local memory summary is disabled"));
    }
    if !found.model_installed {
        return Err(model_missing_error(found.model_path.as_str()));
    }
    if let Some(error) = &found.model_error {
        let mut detail = "Gemma model failed validation: ".to_owned();
        text::append_text(&mut detail, error.as_str());
        return Err(runtime_failure(detail.as_str()));
    }
    if !found.server_bundled {
        return Err(runtime_failure("llama-server.exe is not bundled"));
    }
    Ok(())
}

/// The error of a run without a model.
pub fn model_missing_error(model_path: &str) -> (res: String)
    ensures
        res@ == summary_failure::reason_text(
            SummaryFailureReason::SummaryRuntimeFailed,
            "Gemma model is not installed: "@ + model_path@,
        ),
{
    let mut detail = "Gemma model is not installed: ".to_owned();
    text::append_text(&mut detail, model_path);
    runtime_failure(detail.as_str())
}

/// What is reported: that the service is switched off comes first, then that
/// the model is missing, an error, the start of the server, work that is under
/// way, and that it is ready.
pub proof fn law_reports_name_the_first_obstacle(
    state: ServiceState,
    mode: Option<Seq<char>>,
    installed: bool,
)
    ensures
        ({
            let report = state.report(mode, installed);
            let off = summary_server::is_off(mode);
            &&& off ==> report.state == "disabled"@ && report.message is None
            &&& !off && !installed ==> report.state == "model_missing"@
            &&& !off && installed && state.last_error is Some ==> report.state == "error"@
                && report.message == state.last_error
            &&& !off && installed && state.last_error is None && state.phase
                == RuntimePhase::Starting ==> report.state == "starting"@ && report.message is None
            &&& !off && installed && state.last_error is None && state.phase
                != RuntimePhase::Starting && (state.in_flight > 0 || 0 < state.queue_depth) ==> report.state
                == "busy"@
            &&& !off && installed && state.last_error is None && state.phase
                != RuntimePhase::Starting && state.in_flight <= 0 && state.queue_depth == 0
                ==> report.state == "ready"@
            &&& report.fallback_active == state.fallback_active
            &&& 0 <= state.queue_depth <= u32::MAX ==> report.queue_depth == state.queue_depth
        }),
{
}

/// A failure switches to the fallback until the next success.
pub proof fn law_success_ends_the_fallback(state: ServiceState, message: Seq<char>)
    ensures
        state.failed(message).fallback_active,
        state.failed(message).last_error == Some(message),
        !state.succeeded().fallback_active,
        state.succeeded().last_error is None,
        state.failed(message).queue_depth == state.queue_depth,
        state.failed(message).in_flight == state.in_flight,
        state.succeeded().queue_depth == state.queue_depth,
        state.succeeded().in_flight == state.in_flight,
        state.failed(message).succeeded() == state.succeeded(),
{
}

/// The service can be used exactly where the runtime is sound, the terms are
/// accepted, it is not switched off, the model is installed and sound, and the
/// server is there.
pub proof fn law_everything_is_needed_for_a_summary(found: Precheck)
    ensures
        (precheck_problem(found) is None) == (found.runtime_error is None && found.terms_accepted
            && !summary_server::is_off(text::opt_view(found.mode)) && found.model_installed
            && found.model_error is None && found.server_bundled),
        found.runtime_error matches Some(error) ==> precheck_problem(found) == Some(error@),
        found.runtime_error is None && !found.terms_accepted ==> precheck_problem(found) == Some(
            "Gemma Terms acknowledgement is required before using the local model"@,
        ),
{
}

/// A full queue and a closed one are told apart.
pub proof fn law_full_queues_are_told_from_closed_ones(answer: QueueAnswer)
    ensures
        answer == QueueAnswer::Full ==> queue_error(answer) == summary_failure::reason_text(
            SummaryFailureReason::SummaryQueueFailed,
            "queue_full"@,
        ),
        answer != QueueAnswer::Full ==> queue_error(answer) == summary_failure::reason_text(
            SummaryFailureReason::SummaryRuntimeFailed,
            "queue_closed"@,
        ),
{
}

} // verus!
