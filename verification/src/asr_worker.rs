//! The life of the speech recognition worker and the messages it exchanges.
//!
//! The worker is a process behind a WebSocket. What is decided about it stands
//! here; starting the process and moving bytes is left to the caller.
use vstd::prelude::*;

use crate::json;
use crate::json::Json;
use crate::paths::RuntimePath;
use crate::text;

verus! {

pub const ASR_WS_URL: &'static str = "ws://127.0.0.1:18088/asr";

pub const ASR_WS_PORT: u16 = 18088;

/// The pause between two attempts to connect.
pub const ASR_WS_RETRY_DELAY_MS: u64 = 100;

/// How often connecting is tried. A model that is loaded for the first time
/// can take about a minute before the server listens, so the attempts cover
/// the whole start-up window.
pub const ASR_WS_MAX_ATTEMPTS: usize = 1800;

/// How long one attempt to connect may take.
pub const ASR_WS_CONNECT_TIMEOUT_MS: u64 = 750;

/// How long the worker may take to start.
pub const ASR_WS_STARTUP_TIMEOUT_MS: u64 = 180000;

/// Where the worker stands.
pub struct WorkerState {
    pub started: bool,
    pub ready: bool,
    pub connection_active: bool,
    pub generation: u64,
    pub child_present: bool,
    pub channels_open: bool,
}

/// The number after `generation`, which starts over at the end.
pub open spec fn following_generation(generation: u64) -> u64 {
    if generation == u64::MAX {
        0
    } else {
        (generation + 1) as u64
    }
}

/// The number after `generation`, which stays at the end.
pub open spec fn capped_generation(generation: u64) -> u64 {
    if generation == u64::MAX {
        u64::MAX
    } else {
        (generation + 1) as u64
    }
}

impl WorkerState {
    /// The state without process and connection.
    pub open spec fn without_process(self) -> WorkerState {
        WorkerState {
            ready: false,
            connection_active: false,
            child_present: false,
            channels_open: false,
            ..self
        }
    }

    /// The state after a stop: whoever holds the old generation has lost it.
    pub open spec fn stopped(self) -> WorkerState {
        WorkerState {
            started: false,
            generation: following_generation(self.generation),
            ..self.without_process()
        }
    }

    /// Whether a start finds a worker that runs.
    pub open spec fn runs(self, child_alive: bool) -> bool {
        self.started && self.child_present && child_alive
    }

    /// The state in which the remains of an earlier worker are cleared away.
    pub open spec fn cleared(self) -> WorkerState {
        if self.started {
            self.stopped()
        } else {
            self.without_process()
        }
    }

    /// The state in which a new process is about to be started.
    pub open spec fn spawning(self) -> WorkerState {
        WorkerState {
            started: true,
            generation: following_generation(self.cleared().generation),
            ..self.cleared()
        }
    }

    /// The state after the worker of `expected` failed.
    pub open spec fn after_failure(self, expected: u64) -> WorkerState {
        if self.generation != expected {
            self
        } else {
            WorkerState {
                started: false,
                ready: false,
                connection_active: false,
                child_present: false,
                generation: capped_generation(expected),
                ..self
            }
        }
    }
}

/// What a start leads to.
#[derive(Debug, Clone, Copy, PartialEq, Eq, Structural)]
pub enum StartStep {
    /// The worker runs already.
    AlreadyRunning,
    /// The process is to be started, for the given generation.
    Spawn(u64),
}

/// What the operating system says of the worker process.
#[derive(Debug)]
pub enum ChildStatus {
    Missing,
    Running,
    Exited(String),
    Unknown(String),
}

/// The next step of an attempt to connect.
#[derive(Debug, Clone, Copy, PartialEq, Eq, Structural)]
pub enum ConnectStep {
    GiveUp,
    Wait(u64),
    Connect(u64),
}

/// How a warm-up begins.
#[derive(Debug, Clone, Copy, PartialEq, Eq, Structural)]
pub enum WarmupStart {
    UseRunning,
    Start,
    StopThenStart,
}

/// The next step of a warm-up.
#[derive(Debug)]
pub enum WarmupStep {
    Ready,
    Wait(u64),
    ChildFailed(String),
    TimedOut(String),
}

/// The connection to the speech recognition worker.
pub struct WhisperWsClient {
    started: bool,
    ready: bool,
    connection_active: bool,
    generation: u64,
    child_present: bool,
    channels_open: bool,
}

impl View for WhisperWsClient {
    type V = WorkerState;

    closed spec fn view(&self) -> WorkerState {
        WorkerState {
            started: self.started,
            ready: self.ready,
            connection_active: self.connection_active,
            generation: self.generation,
            child_present: self.child_present,
            channels_open: self.channels_open,
        }
    }
}

fn next_generation(generation: u64) -> (res: u64)
    ensures
        res == following_generation(generation),
{
    if generation == u64::MAX {
        0
    } else {
        generation + 1
    }
}

impl Default for WhisperWsClient {
    fn default() -> (res: Self)
        ensures
            res@ == (WorkerState {
                started: false,
                ready: false,
                connection_active: false,
                generation: 0,
                child_present: false,
                channels_open: false,
            }),
    {
        WhisperWsClient::new()
    }
}

/// Why a start is refused, if it is.
pub open spec fn missing_file_error(
    script_shown: Seq<char>,
    script_exists: bool,
    python_shown: Seq<char>,
    python_exists: bool,
) -> Option<Seq<char>> {
    if !script_exists {
        Some("ASR server script not found at: "@ + script_shown)
    } else if !python_exists {
        Some(
            "Portable Python environment is not ready at: "@ + python_shown
                + "; run first-launch setup"@,
        )
    } else {
        None
    }
}

/// The command that names the stream of the audio that follows.
pub open spec fn stream_tag(stream: Seq<char>) -> Seq<char> {
    "{\"cmd\":\"audio_stream\",\"stream\":"@ + json::json_literal(stream) + "}"@
}

/// The command that asks for a final result of a stream.
pub open spec fn flush_message(stream: Seq<char>) -> Seq<char> {
    "{\"cmd\":\"flush\",\"stream\":"@ + json::json_literal(stream) + "}"@
}

/// The stream that a flush is meant for: the microphone where none is named.
pub open spec fn flushed_stream(stream: Seq<char>) -> Seq<char> {
    if text::is_blank(stream) {
        "mic"@
    } else {
        text::trimmed(stream)
    }
}

/// The elements of a JSON array of texts, each followed by a comma but the
/// last.
pub open spec fn literal_list(texts: Seq<Seq<char>>) -> Seq<char> {
    text::joined(texts.map_values(|t: Seq<char>| json::json_literal(t)), ","@)
}

/// The command that asks for embeddings.
pub open spec fn embed_message(id: Seq<char>, texts: Seq<Seq<char>>) -> Seq<char> {
    "{\"cmd\":\"embed\",\"id\":"@ + json::json_literal(id) + ",\"texts\":["@ + literal_list(texts)
        + "]}"@
}

/// The command that clears the audio held by the server.
pub open spec fn reset_message() -> Seq<char> {
    "{\"cmd\":\"reset\"}"@
}

/// The command that switches the reservation of video memory.
pub open spec fn preallocate_message(enable: bool) -> Seq<char> {
    if enable {
        "{\"cmd\":\"preallocate_vram\",\"enable\":true}"@
    } else {
        "{\"cmd\":\"preallocate_vram\",\"enable\":false}"@
    }
}

/// What is answered where no connection is open.
pub open spec fn inactive_error() -> Seq<char> {
    "WebSocket connection not active"@
}

impl WhisperWsClient {
    pub fn new() -> (res: Self)
        ensures
            res@ == (WorkerState {
                started: false,
                ready: false,
                connection_active: false,
                generation: 0,
                child_present: false,
                channels_open: false,
            }),
    {
        WhisperWsClient {
            started: false,
            ready: false,
            connection_active: false,
            generation: 0,
            child_present: false,
            channels_open: false,
        }
    }

    /// Tells whether the connection that carries audio and commands stands.
    pub fn is_ready(&self) -> (res: bool)
        ensures
            res == self@.ready,
    {
        self.ready
    }

    /// Decides on a start. A worker that runs is kept; else the remains of an
    /// earlier one are cleared away (its process is to be ended), and a new
    /// process is asked for where script and interpreter are there. The paths
    /// are given as they are shown to the user.
    pub fn start(
        &mut self,
        child_alive: bool,
        script_shown: &str,
        script_exists: bool,
        python_shown: &str,
        python_exists: bool,
    ) -> (res: Result<StartStep, String>)
        ensures
            old(self)@.runs(child_alive) ==> res == Ok::<StartStep, String>(
                StartStep::AlreadyRunning,
            ) && final(self)@ == old(self)@,
            !old(self)@.runs(child_alive) ==> match missing_file_error(
                script_shown@,
                script_exists,
                python_shown@,
                python_exists,
            ) {
                Some(message) => res is Err && res->Err_0@ == message && final(self)@ == old(
                    self,
                )@.cleared(),
                None => res == Ok::<StartStep, String>(
                    StartStep::Spawn(capped_generation(old(self)@.cleared().generation)),
                ) && final(self)@ == old(self)@.spawning(),
            },
    {
        if self.started {
            if self.child_present && child_alive {
                return Ok(StartStep::AlreadyRunning);
            }
            self.stop();
        }
        self.stop_process_only();
        if !script_exists {
            let mut message = "ASR server script not found at: ".to_owned();
            text::append_text(&mut message, script_shown);
            return Err(message);
        }
        if !python_exists {
            let mut message = "Portable Python environment is not ready at: ".to_owned();
            text::append_text(&mut message, python_shown);
            text::append_text(&mut message, "; run first-launch setup");
            return Err(message);
        }
        self.started = true;
        let token: u64 = self.generation.saturating_add(1);
        self.generation = next_generation(self.generation);
        Ok(StartStep::Spawn(token))
    }

    /// The process could not be started.
    pub fn spawn_failed(&mut self)
        ensures
            final(self)@ == (WorkerState { started: false, ..old(self)@ }),
    {
        self.started = false;
    }

    /// The process runs, and the queues towards it are open.
    pub fn worker_attached(&mut self)
        ensures
            final(self)@ == (WorkerState {
                child_present: true,
                channels_open: true,
                connection_active: true,
                ..old(self)@
            }),
    {
        self.child_present = true;
        self.channels_open = true;
        self.connection_active = true;
    }

    /// The connection of a generation stands. It counts only where that
    /// generation is still the current one, which the result tells.
    pub fn connected(&mut self, generation: u64) -> (res: bool)
        ensures
            res == (old(self)@.generation == generation),
            final(self)@ == if res {
                WorkerState { ready: true, ..old(self)@ }
            } else {
                old(self)@
            },
    {
        if self.generation != generation {
            return false;
        }
        self.ready = true;
        true
    }

    /// The worker of a generation failed. Where that generation is still the
    /// current one the worker is given up and its process is to be ended,
    /// which the result tells; a newer worker is left alone.
    pub fn cleanup_failed_worker(&mut self, expected_generation: u64) -> (res: bool)
        ensures
            res == (old(self)@.generation == expected_generation),
            final(self)@ == old(self)@.after_failure(expected_generation),
    {
        if self.generation != expected_generation {
            return false;
        }
        self.generation = expected_generation.saturating_add(1);
        self.started = false;
        self.ready = false;
        self.connection_active = false;
        self.child_present = false;
        true
    }

    /// Decides how a warm-up begins.
    pub fn warmup(&self) -> (res: WarmupStart)
        ensures
            res == if self@.started && self@.child_present && (self@.ready
                || self@.connection_active) {
                WarmupStart::UseRunning
            } else if self@.started {
                WarmupStart::StopThenStart
            } else {
                WarmupStart::Start
            },
    {
        if !self.started || !self.child_present || (!self.ready && !self.connection_active) {
            if self.started {
                WarmupStart::StopThenStart
            } else {
                WarmupStart::Start
            }
        } else {
            WarmupStart::UseRunning
        }
    }

    /// Decides on the next step of a warm-up, after `polls` earlier ones.
    pub fn warmup_step(
        &self,
        polls: usize,
        child_exit: Option<String>,
        now_ms: u64,
        deadline_ms: u64,
    ) -> (res: WarmupStep)
        ensures
            match res {
                WarmupStep::Ready => polls < ASR_WS_MAX_ATTEMPTS && self@.ready,
                WarmupStep::ChildFailed(reason) => polls < ASR_WS_MAX_ATTEMPTS && !self@.ready
                    && child_exit == Some(reason),
                WarmupStep::Wait(pause) => polls < ASR_WS_MAX_ATTEMPTS && !self@.ready
                    && child_exit is None && now_ms < deadline_ms && pause == (if deadline_ms
                    - now_ms < ASR_WS_RETRY_DELAY_MS {
                    deadline_ms - now_ms
                } else {
                    ASR_WS_RETRY_DELAY_MS as int
                }),
                WarmupStep::TimedOut(message) => (polls >= ASR_WS_MAX_ATTEMPTS || !self@.ready
                    && child_exit is None && now_ms >= deadline_ms) && message@
                    == "ASR WebSocket server warmup timed out after 180s"@,
            },
    {
        if polls < ASR_WS_MAX_ATTEMPTS {
            if self.ready {
                return WarmupStep::Ready;
            }
            if let Some(reason) = child_exit {
                return WarmupStep::ChildFailed(reason);
            }
            if now_ms < deadline_ms {
                let remaining: u64 = deadline_ms - now_ms;
                return WarmupStep::Wait(
                    if remaining < ASR_WS_RETRY_DELAY_MS {
                        remaining
                    } else {
                        ASR_WS_RETRY_DELAY_MS
                    },
                );
            }
        }
        WarmupStep::TimedOut("ASR WebSocket server warmup timed out after 180s".to_owned())
    }

    /// Tells whether audio is passed on. While the worker is not ready audio is
    /// dropped, so that no backlog builds up.
    pub fn accepts_audio(&self) -> (res: bool)
        ensures
            res == (self@.ready && self@.channels_open),
    {
        self.ready && self.channels_open
    }

    /// The command that asks for embeddings of some texts; none is needed where
    /// there are no texts.
    pub fn embed_texts(&self, request_id: &str, texts: &Vec<String>) -> (res: Result<
        Option<String>,
        String,
    >)
        ensures
            texts@.len() == 0 ==> res == Ok::<Option<String>, String>(None),
            texts@.len() > 0 && self@.channels_open ==> res is Ok && res->Ok_0 is Some
                && res->Ok_0->0@ == embed_message(request_id@, text::views(texts@)),
            texts@.len() > 0 && !self@.channels_open ==> res is Err && res->Err_0@
                == inactive_error(),
    {
        if texts.len() == 0 {
            return Ok(None);
        }
        if !self.channels_open {
            return Err("WebSocket connection not active".to_owned());
        }
        let mut literals: Vec<String> = Vec::new();
        let mut i: usize = 0;
        let ghost wanted = text::views(texts@).map_values(|t: Seq<char>| json::json_literal(t));
        while i < texts.len()
            invariant
                i <= texts@.len(),
                wanted == text::views(texts@).map_values(|t: Seq<char>| json::json_literal(t)),
                text::views(literals@) == wanted.take(i as int),
            decreases texts@.len() - i,
        {
            let ghost before = literals@;
            literals.push(json::quoted(texts[i].as_str()));
            i += 1;
            assert(text::views(literals@) == text::views(before).push(wanted[i - 1]));
            assert(wanted.take(i as int) == wanted.take(i - 1).push(wanted[i - 1]));
        }
        assert(wanted.take(i as int) == wanted);
        let mut message = "{\"cmd\":\"embed\",\"id\":".to_owned();
        text::append_text(&mut message, json::quoted(request_id).as_str());
        text::append_text(&mut message, ",\"texts\":[");
        text::append_text(&mut message, text::join_texts(&literals, ",").as_str());
        text::append_text(&mut message, "]}");
        Ok(Some(message))
    }

    /// The command that switches the reservation of video memory.
    pub fn set_preallocate_vram(&self, enable: bool) -> (res: Result<String, String>)
        ensures
            self@.channels_open ==> res is Ok && res->Ok_0@ == preallocate_message(enable),
            !self@.channels_open ==> res is Err && res->Err_0@ == inactive_error(),
    {
        if !self.channels_open {
            return Err("WebSocket connection not active".to_owned());
        }
        if enable {
            Ok("{\"cmd\":\"preallocate_vram\",\"enable\":true}".to_owned())
        } else {
            Ok("{\"cmd\":\"preallocate_vram\",\"enable\":false}".to_owned())
        }
    }

    /// The command that clears the audio held by the server, where a connection
    /// is open.
    pub fn reset_audio(&self) -> (res: Option<String>)
        ensures
            self@.channels_open ==> res is Some && res->0@ == reset_message(),
            !self@.channels_open ==> res is None,
    {
        if self.channels_open {
            Some("{\"cmd\":\"reset\"}".to_owned())
        } else {
            None
        }
    }

    /// The command that asks for a final result of what a stream holds. Without
    /// a name the microphone is meant.
    pub fn flush_audio(&self, stream: &str) -> (res: Result<String, String>)
        ensures
            self@.channels_open ==> res is Ok && res->Ok_0@ == flush_message(
                flushed_stream(stream@),
            ),
            !self@.channels_open ==> res is Err && res->Err_0@ == inactive_error(),
    {
        let named = if text::is_blank_text(stream) {
            "mic".to_owned()
        } else {
            text::trim_text(stream)
        };
        if !self.channels_open {
            return Err("WebSocket connection not active".to_owned());
        }
        let mut message = "{\"cmd\":\"flush\",\"stream\":".to_owned();
        text::append_text(&mut message, json::quoted(named.as_str()).as_str());
        text::append_text(&mut message, "}");
        Ok(message)
    }

    /// Gives up process and connection, and keeps the rest. The process is to
    /// be ended.
    pub fn stop_process_only(&mut self)
        ensures
            final(self)@ == old(self)@.without_process(),
    {
        self.ready = false;
        self.connection_active = false;
        self.channels_open = false;
        self.child_present = false;
    }

    /// Stops the worker. The process is to be ended.
    pub fn stop(&mut self)
        ensures
            final(self)@ == old(self)@.stopped(),
    {
        self.started = false;
        self.generation = next_generation(self.generation);
        self.stop_process_only();
    }
}

/// A worker that was stopped or replaced can neither report readiness nor tear
/// down the worker that took its place.
pub proof fn law_old_generations_are_powerless(state: WorkerState, generation: u64)
    requires
        state.generation == generation,
    ensures
        state.stopped().generation != generation,
        state.stopped().after_failure(generation) == state.stopped(),
        state.spawning().generation != generation,
        state.spawning().after_failure(generation) == state.spawning(),
{
}

/// After a stop, a failure or a fresh start nothing counts as ready.
pub proof fn law_readiness_ends_with_the_worker(state: WorkerState)
    ensures
        !state.stopped().ready,
        !state.without_process().ready,
        !state.spawning().ready,
        !state.after_failure(state.generation).ready,
{
}

/// The generation handed to a new worker is the one that counts from then on.
pub proof fn law_a_new_worker_holds_the_generation(state: WorkerState)
    requires
        state.cleared().generation < u64::MAX,
    ensures
        capped_generation(state.cleared().generation) == state.spawning().generation,
{
}

/// Why a worker process counts as failed before it was ready, if it does.
pub fn child_exit_reason(status: ChildStatus) -> (res: Option<String>)
    ensures
        match status {
            ChildStatus::Missing => res is None,
            ChildStatus::Running => res is None,
            ChildStatus::Exited(code) => res is Some && res->0@
                == "ASR server child exited before WebSocket readiness (status "@ + code@ + ")"@,
            ChildStatus::Unknown(error) => res is Some && res->0@
                == "Unable to inspect ASR server child process: "@ + error@,
        },
{
    match status {
        ChildStatus::Missing => None,
        ChildStatus::Running => None,
        ChildStatus::Exited(code) => {
            let mut reason =
                "ASR server child exited before WebSocket readiness (status ".to_owned();
            text::append_text(&mut reason, code.as_str());
            text::append_text(&mut reason, ")");
            Some(reason)
        },
        ChildStatus::Unknown(error) => {
            let mut reason = "Unable to inspect ASR server child process: ".to_owned();
            text::append_text(&mut reason, error.as_str());
            Some(reason)
        },
    }
}

/// Decides on the pause before an attempt to connect. Attempts are counted from
/// one. A pause never goes past the deadline.
pub fn pause_before_attempt(attempt: usize, now_ms: u64, deadline_ms: u64) -> (res: ConnectStep)
    ensures
        attempt > ASR_WS_MAX_ATTEMPTS || now_ms >= deadline_ms ==> res == ConnectStep::GiveUp,
        attempt <= ASR_WS_MAX_ATTEMPTS && now_ms < deadline_ms ==> res == ConnectStep::Wait(
            if deadline_ms - now_ms < ASR_WS_RETRY_DELAY_MS {
                (deadline_ms - now_ms) as u64
            } else {
                ASR_WS_RETRY_DELAY_MS
            },
        ),
        res matches ConnectStep::Wait(pause) ==> now_ms + pause <= deadline_ms,
{
    if attempt > ASR_WS_MAX_ATTEMPTS || now_ms >= deadline_ms {
        return ConnectStep::GiveUp;
    }
    let remaining: u64 = deadline_ms - now_ms;
    if remaining < ASR_WS_RETRY_DELAY_MS {
        ConnectStep::Wait(remaining)
    } else {
        ConnectStep::Wait(ASR_WS_RETRY_DELAY_MS)
    }
}

/// Decides on how long an attempt to connect may take. It never goes past the
/// deadline.
pub fn timeout_of_attempt(now_ms: u64, deadline_ms: u64) -> (res: ConnectStep)
    ensures
        now_ms >= deadline_ms ==> res == ConnectStep::GiveUp,
        now_ms < deadline_ms ==> res == ConnectStep::Connect(
            if deadline_ms - now_ms < ASR_WS_CONNECT_TIMEOUT_MS {
                (deadline_ms - now_ms) as u64
            } else {
                ASR_WS_CONNECT_TIMEOUT_MS
            },
        ),
        res matches ConnectStep::Connect(limit) ==> 0 < limit && now_ms + limit <= deadline_ms,
{
    if now_ms >= deadline_ms {
        return ConnectStep::GiveUp;
    }
    let remaining: u64 = deadline_ms - now_ms;
    if remaining < ASR_WS_CONNECT_TIMEOUT_MS {
        ConnectStep::Connect(remaining)
    } else {
        ConnectStep::Connect(ASR_WS_CONNECT_TIMEOUT_MS)
    }
}

/// What is reported of a failed attempt: every eighth one is.
pub fn waiting_report(attempt: usize, limit_ms: u64) -> (res: Option<String>)
    ensures
        attempt % 8 != 0 ==> res is None,
        attempt % 8 == 0 ==> res is Some && res->0@
            == "Waiting for ASR WebSocket server (attempt "@ + text::decimal(attempt as nat)
            + "/1800, connection timeout "@ + text::decimal(limit_ms as nat) + "ms)"@,
{
    if attempt % 8 != 0 {
        return None;
    }
    let mut line = "Waiting for ASR WebSocket server (attempt ".to_owned();
    text::append_decimal(&mut line, attempt as u64);
    text::append_text(&mut line, "/1800, connection timeout ");
    text::append_decimal(&mut line, limit_ms);
    text::append_text(&mut line, "ms)");
    Some(line)
}

/// The attempts, one pause each, cover the whole start-up window.
pub proof fn law_attempts_cover_the_startup_window()
    ensures
        ASR_WS_MAX_ATTEMPTS * ASR_WS_RETRY_DELAY_MS >= ASR_WS_STARTUP_TIMEOUT_MS,
{
}

/// Which stream the server takes the next audio for.
pub struct StreamTagger {
    sent: Option<String>,
}

impl View for StreamTagger {
    type V = Option<Seq<char>>;

    closed spec fn view(&self) -> Option<Seq<char>> {
        match self.sent {
            Some(stream) => Some(stream@),
            None => None,
        }
    }
}

impl StreamTagger {
    /// No stream was named yet.
    pub fn new() -> (res: Self)
        ensures
            res@ is None,
    {
        StreamTagger { sent: None }
    }

    /// The command to send before audio of a stream: one that names the stream,
    /// unless it is the one named last.
    pub fn tag_for(&mut self, stream: &str) -> (res: Option<String>)
        ensures
            final(self)@ == Some(stream@),
            old(self)@ == Some(stream@) ==> res is None,
            old(self)@ != Some(stream@) ==> res is Some && res->0@ == stream_tag(stream@),
    {
        let known = match &self.sent {
            Some(last) => text::same_text(last.as_str(), stream),
            None => false,
        };
        if known {
            return None;
        }
        let mut message = "{\"cmd\":\"audio_stream\",\"stream\":".to_owned();
        text::append_text(&mut message, json::quoted(stream).as_str());
        text::append_text(&mut message, "}");
        self.sent = Some(stream.to_owned());
        Some(message)
    }

    /// A command was sent. After a reset the server is back at its own default,
    /// so the next audio names its stream again.
    pub fn command_sent(&mut self, command: &str)
        ensures
            final(self)@ == match json::parsed_model(command@) {
                Some(value) => if resets_streams(value) {
                    None
                } else {
                    old(self)@
                },
                None => old(self)@,
            },
    {
        if let Ok(value) = json::parse_json(command) {
            if command_resets_streams(&value) {
                self.sent = None;
            }
        }
    }
}

/// Whether a command makes the server forget the streams.
pub open spec fn resets_streams(command: json::JsonModel) -> bool {
    command.text_member("cmd"@) == Some("reset"@)
}

/// Tells whether a command makes the server forget the streams.
pub fn command_resets_streams(command: &Json) -> (res: bool)
    ensures
        res == resets_streams(command.model()),
{
    match command.text_member("cmd") {
        Some(cmd) => text::same_text(cmd.as_str(), "reset"),
        None => false,
    }
}

/// What the server sent.
#[derive(Debug)]
pub enum ServerMessage {
    /// Embeddings for a request, row by row, each number as it was written.
    Embedding { id: String, vectors: Vec<Vec<String>> },
    /// Recognised words.
    Speech { stream: String, text: String, is_final: bool, latency_ms: Option<String> },
    /// Anything else.
    Other,
}

/// What a message of the server is.
pub enum ServerMessageModel {
    Embedding { id: Seq<char>, vectors: Seq<Seq<Seq<char>>> },
    Speech {
        stream: Seq<char>,
        text: Seq<char>,
        is_final: bool,
        latency_ms: Option<Seq<char>>,
    },
    Other,
}

impl View for ServerMessage {
    type V = ServerMessageModel;

    open spec fn view(&self) -> ServerMessageModel {
        match *self {
            ServerMessage::Embedding { id, vectors } => ServerMessageModel::Embedding {
                id: id@,
                vectors: vectors@.map_values(|row: Vec<String>| text::views(row@)),
            },
            ServerMessage::Speech { stream, text, is_final, latency_ms } =>
                ServerMessageModel::Speech {
                stream: stream@,
                text: text@,
                is_final,
                latency_ms: match latency_ms {
                    Some(latency) => Some(latency@),
                    None => None,
                },
            },
            ServerMessage::Other => ServerMessageModel::Other,
        }
    }
}

/// The numbers among the items of a row.
pub open spec fn row_numbers(items: Seq<json::JsonModel>) -> Seq<Seq<char>> {
    items.filter_map(
        |item: json::JsonModel|
            match item {
                json::JsonModel::Number(n) => Some(n),
                _ => None,
            },
    )
}

/// The rows of a list of vectors: what is no array is left out.
pub open spec fn vector_rows(items: Seq<json::JsonModel>) -> Seq<Seq<Seq<char>>> {
    items.filter_map(
        |item: json::JsonModel|
            match item {
                json::JsonModel::Array(row) => Some(row_numbers(row)),
                _ => None,
            },
    )
}

/// What a message amounts to.
pub open spec fn server_message_model(value: json::JsonModel) -> ServerMessageModel {
    if value.text_member("type"@) == Some("embed_res"@) {
        match value.text_member("id"@) {
            Some(id) => ServerMessageModel::Embedding {
                id,
                vectors: match value.get("vectors"@) {
                    Some(json::JsonModel::Array(items)) => vector_rows(items),
                    _ => Seq::empty(),
                },
            },
            None => ServerMessageModel::Other,
        }
    } else {
        match value.text_member("text"@) {
            Some(said) => ServerMessageModel::Speech {
                stream: match value.text_member("stream"@) {
                    Some(stream) => stream,
                    None => "mic"@,
                },
                text: said,
                is_final: value.bool_member("is_final"@) == Some(true),
                latency_ms: match value.get("latency_ms"@) {
                    Some(json::JsonModel::Number(n)) => Some(n),
                    _ => None,
                },
            },
            None => ServerMessageModel::Other,
        }
    }
}

fn numbers_of_row(items: &Vec<Json>, row: Ghost<Seq<json::JsonModel>>) -> (res: Vec<String>)
    requires
        row@.len() == items@.len(),
        forall|k: int| 0 <= k < items@.len() ==> #[trigger] row@[k] == items@[k].model(),
    ensures
        text::views(res@) == row_numbers(row@),
{
    let ghost all = row@;
    let ghost pick = |item: json::JsonModel|
        match item {
            json::JsonModel::Number(n) => Some(n),
            _ => None::<Seq<char>>,
        };
    let mut res: Vec<String> = Vec::new();
    let mut i: usize = 0;
    assert(text::views(res@) == all.take(0).filter_map(pick));
    while i < items.len()
        invariant
            i <= items@.len(),
            all.len() == items@.len(),
            forall|k: int| 0 <= k < items@.len() ==> #[trigger] all[k] == items@[k].model(),
            pick == (|item: json::JsonModel|
                match item {
                    json::JsonModel::Number(n) => Some(n),
                    _ => None::<Seq<char>>,
                }),
            text::views(res@) == all.take(i as int).filter_map(pick),
        decreases items@.len() - i,
    {
        let ghost before = res@;
        proof {
            all.lemma_filter_map_take_succ(pick, i as int);
            assert(all[i as int] == items@[i as int].model());
        }
        if let Json::Number(n) = &items[i] {
            res.push(n.clone());
            assert(text::views(res@) == text::views(before).push(n@));
        }
        i += 1;
    }
    assert(all.take(i as int) == all);
    res
}

fn rows_of_vectors(items: &Vec<Json>, rows: Ghost<Seq<json::JsonModel>>) -> (res: Vec<Vec<String>>)
    requires
        rows@.len() == items@.len(),
        forall|k: int| 0 <= k < items@.len() ==> #[trigger] rows@[k] == items@[k].model(),
    ensures
        res@.map_values(|row: Vec<String>| text::views(row@)) == vector_rows(rows@),
{
    let ghost all = rows@;
    let ghost pick = |item: json::JsonModel|
        match item {
            json::JsonModel::Array(row) => Some(row_numbers(row)),
            _ => None::<Seq<Seq<char>>>,
        };
    let mut res: Vec<Vec<String>> = Vec::new();
    let mut i: usize = 0;
    assert(res@.map_values(|row: Vec<String>| text::views(row@)) == all.take(0).filter_map(pick));
    while i < items.len()
        invariant
            i <= items@.len(),
            all.len() == items@.len(),
            forall|k: int| 0 <= k < items@.len() ==> #[trigger] all[k] == items@[k].model(),
            pick == (|item: json::JsonModel|
                match item {
                    json::JsonModel::Array(row) => Some(row_numbers(row)),
                    _ => None::<Seq<Seq<char>>>,
                }),
            res@.map_values(|row: Vec<String>| text::views(row@)) == all.take(
                i as int,
            ).filter_map(pick),
        decreases items@.len() - i,
    {
        let ghost before = res@;
        proof {
            all.lemma_filter_map_take_succ(pick, i as int);
            assert(all[i as int] == items@[i as int].model());
        }
        if let Json::Array(row) = &items[i] {
            let ghost inner = all[i as int]->Array_0;
            let numbers = numbers_of_row(row, Ghost(inner));
            res.push(numbers);
            assert(res@.map_values(|row: Vec<String>| text::views(row@)) == before.map_values(
                |row: Vec<String>| text::views(row@),
            ).push(text::views(numbers@)));
        }
        i += 1;
    }
    assert(all.take(i as int) == all);
    res
}

/// Reads a message of the server.
pub fn read_server_message(value: &Json) -> (res: ServerMessage)
    ensures
        res@ == server_message_model(value.model()),
{
    let is_embedding = match value.text_member("type") {
        Some(kind) => text::same_text(kind.as_str(), "embed_res"),
        None => false,
    };
    if is_embedding {
        return match value.text_member("id") {
            Some(id) => {
                let vectors: Vec<Vec<String>> = match value.get("vectors") {
                    Some(Json::Array(items)) => {
                        let ghost rows = value.model().get("vectors"@)->0->Array_0;
                        rows_of_vectors(items, Ghost(rows))
                    },
                    _ => {
                        let none: Vec<Vec<String>> = Vec::new();
                        assert(none@.map_values(|row: Vec<String>| text::views(row@)) == Seq::<
                            Seq<Seq<char>>,
                        >::empty());
                        none
                    },
                };
                ServerMessage::Embedding { id: id.clone(), vectors }
            },
            None => ServerMessage::Other,
        };
    }
    match value.text_member("text") {
        Some(said) => {
            let stream = match value.text_member("stream") {
                Some(stream) => stream.clone(),
                None => "mic".to_owned(),
            };
            let is_final = match value.bool_member("is_final") {
                Some(flag) => flag,
                None => false,
            };
            let latency_ms = match value.get("latency_ms") {
                Some(Json::Number(n)) => Some(n.clone()),
                _ => None,
            };
            ServerMessage::Speech { stream, text: said.clone(), is_final, latency_ms }
        },
        None => ServerMessage::Other,
    }
}

/// Reads a message of the server as it came. What is no JSON is passed over.
pub fn server_message(source: &str) -> (res: ServerMessage)
    ensures
        res@ == match json::parsed_model(source@) {
            Some(value) => server_message_model(value),
            None => ServerMessageModel::Other,
        },
{
    match json::parse_json(source) {
        Ok(value) => read_server_message(&value),
        Err(_) => ServerMessage::Other,
    }
}

/// Whether a line of the error stream tells of a failure.
pub open spec fn tells_of_failure(line: Seq<char>) -> bool {
    let lowered = text::ascii_lowered(line);
    ||| text::contains_text(lowered, "error"@)
    ||| text::contains_text(lowered, "exception"@)
    ||| text::contains_text(lowered, "traceback"@)
    ||| text::contains_text(lowered, "fatal"@)
}

/// The level and the message under which a line of the worker process is
/// logged. Blank lines are not.
pub fn record_child_line(stream: &str, line: &str) -> (res: Option<(&'static str, String)>)
    ensures
        text::is_blank(line@) ==> res is None,
        !text::is_blank(line@) ==> res is Some && (res->0).1@ == text::trimmed(line@) && (res->0).0@
            == (if stream@ != "stderr"@ {
            "INFO"@
        } else if tells_of_failure(text::trimmed(line@)) {
            "ERROR"@
        } else {
            "WARNING"@
        }),
{
    if text::is_blank_text(line) {
        return None;
    }
    let message = text::trim_text(line);
    if !text::same_text(stream, "stderr") {
        return Some(("INFO", message));
    }
    let lowered = text::ascii_lower_text(message.as_str());
    if text::text_contains(lowered.as_str(), "error") || text::text_contains(
        lowered.as_str(),
        "exception",
    ) || text::text_contains(lowered.as_str(), "traceback") || text::text_contains(
        lowered.as_str(),
        "fatal",
    ) {
        Some(("ERROR", message))
    } else {
        Some(("WARNING", message))
    }
}

/// Whether a process may be ended: it is a real one, and not this one.
pub open spec fn may_terminate(pid: u32, own_pid: u32) -> bool {
    pid != 0 && pid != own_pid
}

/// Tells whether a process may be ended.
pub fn taskkill_process_tree(pid: u32, own_pid: u32) -> (res: bool)
    ensures
        res == may_terminate(pid, own_pid),
{
    pid != 0 && pid != own_pid
}

/// The process that a line of the connection table names for a port: the line
/// has at least five words, the second ends with the port, and the last is the
/// number of a process that may be ended.
pub open spec fn listed_pid(line: Seq<char>, port: u16, own_pid: u32) -> Option<u32> {
    let words = text::words(line);
    let suffix = ":"@ + text::decimal(port as nat);
    if words.len() >= 5 && words[1].len() >= suffix.len() && words[1].skip(
        words[1].len() - suffix.len(),
    ) == suffix {
        match text::parsed_u32(words.last()) {
            Some(pid) => if may_terminate(pid, own_pid) {
                Some(pid)
            } else {
                None
            },
            None => None,
        }
    } else {
        None
    }
}

fn pid_of_line(line: &str, port: u16, own_pid: u32) -> (res: Option<u32>)
    ensures
        res == listed_pid(line@, port, own_pid),
{
    let words = text::split_words(line);
    let ghost all = text::words(line@);
    assert(all.len() == words@.len());
    if words.len() < 5 {
        return None;
    }
    assert(all[1] == words@[1]@);
    assert(all.last() == words@[words@.len() - 1]@);
    let mut suffix = ":".to_owned();
    text::append_decimal(&mut suffix, port as u64);
    let address = text::chars_of(words[1].as_str());
    let wanted = text::chars_of(suffix.as_str());
    if address.len() < wanted.len() {
        return None;
    }
    let at: usize = address.len() - wanted.len();
    assert(address@.skip(at as int) == address@.subrange(at as int, at + wanted@.len()));
    if !text::occurs_here(&address, &wanted, at) {
        return None;
    }
    match text::parse_u32(words[words.len() - 1].as_str()) {
        Some(pid) => if taskkill_process_tree(pid, own_pid) {
            Some(pid)
        } else {
            None
        },
        None => None,
    }
}

/// The processes to be ended so that a port becomes free, from the table of
/// connections that the operating system prints.
pub fn kill_process_on_port(listing: &str, port: u16, own_pid: u32) -> (res: Vec<u32>)
    ensures
        res@ == text::lines(listing@).filter_map(
            |line: Seq<char>| listed_pid(line, port, own_pid),
        ),
{
    let lines = text::split_lines(listing);
    let ghost all = text::lines(listing@);
    let ghost pick = |line: Seq<char>| listed_pid(line, port, own_pid);
    let mut res: Vec<u32> = Vec::new();
    let mut i: usize = 0;
    assert(res@ == all.take(0).filter_map(pick));
    while i < lines.len()
        invariant
            i <= lines@.len(),
            all == text::views(lines@),
            pick == (|line: Seq<char>| listed_pid(line, port, own_pid)),
            res@ == all.take(i as int).filter_map(pick),
        decreases lines@.len() - i,
    {
        proof {
            all.lemma_filter_map_take_succ(pick, i as int);
        }
        assert(all[i as int] == lines@[i as int]@);
        if let Some(pid) = pid_of_line(lines[i].as_str(), port, own_pid) {
            res.push(pid);
        }
        i += 1;
    }
    assert(all.take(i as int) == all);
    res
}

/// The environment of the worker process: the runtime root, the settings file,
/// the models, and one cache directory for every library that keeps one.
pub fn worker_environment(root: &RuntimePath, models_dir: &RuntimePath) -> (res: Vec<
    (&'static str, RuntimePath),
>)
    ensures
        res@.len() == 9,
        res@[0].0@ == "RUNTIME_ROOT"@ && res@[0].1@ == root@,
        res@[1].0@ == "SETTINGS_PATH"@ && res@[1].1@ == root@.join("settings.json"@),
        res@[2].0@ == "MODELS_DIR"@ && res@[2].1@ == models_dir@,
        res@[3].0@ == "CACHE_DIR"@ && res@[3].1@ == root@.join(".hf-cache"@),
        res@[4].0@ == "HF_HOME"@ && res@[4].1@ == root@.join(".hf-cache"@),
        res@[5].0@ == "TRANSFORMERS_CACHE"@ && res@[5].1@ == root@.join(".hf-cache"@),
        res@[6].0@ == "HF_HUB_CACHE"@ && res@[6].1@ == root@.join(".hf-cache"@),
        res@[7].0@ == "HUGGINGFACE_HUB_CACHE"@ && res@[7].1@ == root@.join(".hf-cache"@),
        res@[8].0@ == "SENTENCE_TRANSFORMERS_HOME"@ && res@[8].1@ == root@.join(".hf-cache"@),
{
    let mut res: Vec<(&'static str, RuntimePath)> = Vec::new();
    res.push(("RUNTIME_ROOT", root.duplicate()));
    res.push(("SETTINGS_PATH", root.join("settings.json")));
    res.push(("MODELS_DIR", models_dir.duplicate()));
    res.push(("CACHE_DIR", root.join(".hf-cache")));
    res.push(("HF_HOME", root.join(".hf-cache")));
    res.push(("TRANSFORMERS_CACHE", root.join(".hf-cache")));
    res.push(("HF_HUB_CACHE", root.join(".hf-cache")));
    res.push(("HUGGINGFACE_HUB_CACHE", root.join(".hf-cache")));
    res.push(("SENTENCE_TRANSFORMERS_HOME", root.join(".hf-cache")));
    res
}

/// Stopping a worker takes its process, its connection and its readiness away,
/// and gives the next one another number; a failure does the same to the worker
/// that failed, and to no other.
pub proof fn law_a_stop_takes_everything_away(state: WorkerState, expected: u64)
    ensures
        !state.stopped().started,
        !state.stopped().ready,
        !state.stopped().connection_active,
        !state.stopped().child_present,
        !state.stopped().channels_open,
        state.generation < u64::MAX ==> state.stopped().generation == state.generation + 1,
        state.generation == u64::MAX ==> state.stopped().generation == 0,
        state.without_process().started == state.started,
        state.without_process().generation == state.generation,
        !state.without_process().channels_open,
        !state.without_process().child_present,
        expected != state.generation ==> state.after_failure(expected) == state,
        expected == state.generation ==> !state.after_failure(expected).started
            && !state.after_failure(expected).ready && !state.after_failure(
            expected,
        ).connection_active && !state.after_failure(expected).child_present,
        expected == state.generation && expected < u64::MAX ==> state.after_failure(
            expected,
        ).generation == expected + 1,
{
}

/// A worker is started anew unless one runs: the one before it is cleared away
/// first, and the new one is not ready yet.
pub proof fn law_workers_are_started_anew(state: WorkerState, alive: bool)
    ensures
        state.runs(alive) == (state.started && state.child_present && alive),
        state.spawning().started,
        !state.spawning().ready,
        !state.spawning().child_present,
        !state.spawning().channels_open,
        state.started ==> state.cleared() == state.stopped(),
        !state.started ==> state.cleared() == state.without_process(),
        state.generation < u64::MAX - 1 ==> state.spawning().generation == state.generation + (
        if state.started {
            2int
        } else {
            1
        }),
{
}

/// What is missing for a start is named, the server's script before its Python;
/// with both there nothing is.
pub proof fn law_missing_files_are_named(
    script: Seq<char>,
    script_exists: bool,
    python: Seq<char>,
    python_exists: bool,
)
    ensures
        !script_exists ==> missing_file_error(script, script_exists, python, python_exists) == Some(
            "ASR server script not found at: "@ + script,
        ),
        script_exists && !python_exists ==> missing_file_error(
            script,
            script_exists,
            python,
            python_exists,
        ) == Some(
            "Portable Python environment is not ready at: "@ + python
                + "; run first-launch setup"@,
        ),
        script_exists && python_exists ==> missing_file_error(
            script,
            script_exists,
            python,
            python_exists,
        ) is None,
{
}

/// The messages to the server: each names its command, and the stream or the
/// texts that it is for as JSON texts; a blank stream stands for the
/// microphone.
pub proof fn law_messages_name_their_command(
    stream: Seq<char>,
    id: Seq<char>,
    said: Seq<char>,
    enable: bool,
)
    ensures
        text::is_blank(stream) ==> flushed_stream(stream) == "mic"@,
        !text::is_blank(stream) ==> flushed_stream(stream) == text::trimmed(stream),
        stream_tag(stream) == "{\"cmd\":\"audio_stream\",\"stream\":"@ + json::json_literal(stream)
            + "}"@,
        flush_message(stream) == "{\"cmd\":\"flush\",\"stream\":"@ + json::json_literal(stream)
            + "}"@,
        embed_message(id, seq![said]) == "{\"cmd\":\"embed\",\"id\":"@ + json::json_literal(id)
            + ",\"texts\":["@ + json::json_literal(said) + "]}"@,
        enable ==> preallocate_message(enable)
            == "{\"cmd\":\"preallocate_vram\",\"enable\":true}"@,
        !enable ==> preallocate_message(enable)
            == "{\"cmd\":\"preallocate_vram\",\"enable\":false}"@,
        reset_message() == "{\"cmd\":\"reset\"}"@,
{
    let list = seq![said].map_values(|t: Seq<char>| json::json_literal(t));
    assert(list == seq![json::json_literal(said)]);
    assert(literal_list(seq![said]) == json::json_literal(said));
}

/// A message of the server with a text is speech: of the stream that it names,
/// else of the microphone, and final only where it says so. An answer with
/// vectors is known by its kind, and must name its request.
pub proof fn law_messages_of_the_server_are_read(value: json::JsonModel)
    ensures
        ({
            let message = server_message_model(value);
            let embeds = value.get("type"@) == Some(json::JsonModel::Text("embed_res"@));
            let said = value.text_member("text"@);
            &&& !embeds && said is None ==> message is Other
            &&& !embeds && said is Some ==> message is Speech && message->text == said->0
                && message->is_final == (value.get("is_final"@) == Some(
                json::JsonModel::Bool(true),
            ))
            &&& !embeds && said is Some && value.text_member("stream"@) is None ==> message->stream
                == "mic"@
            &&& !embeds && said is Some && value.text_member("stream"@) is Some ==> message->stream
                == value.text_member("stream"@)->0
            &&& embeds && value.text_member("id"@) is None ==> message is Other
            &&& embeds && value.text_member("id"@) is Some ==> message is Embedding && message->id
                == value.text_member("id"@)->0
        }),
{
}

/// Only a reset makes the server forget which stream was sent last.
pub proof fn law_a_reset_forgets_the_stream(command: json::JsonModel)
    ensures
        resets_streams(command) == (command.get("cmd"@) == Some(
            json::JsonModel::Text("reset"@),
        )),
{
}

/// A line of the worker tells of a failure where it holds one of the four words
/// in any spelling.
pub proof fn law_failures_are_known_by_their_words(line: Seq<char>)
    ensures
        tells_of_failure(line) == (text::contains_text(text::ascii_lowered(line), "error"@)
            || text::contains_text(text::ascii_lowered(line), "exception"@) || text::contains_text(
            text::ascii_lowered(line),
            "traceback"@,
        ) || text::contains_text(text::ascii_lowered(line), "fatal"@)),
{
}

/// A process is ended only where it listens on the port: its line has at least
/// five words, the second ends with the port after a colon, and the last is its
/// number. The program itself and the system's process are never ended.
pub proof fn law_only_listeners_on_the_port_are_ended(line: Seq<char>, port: u16, own_pid: u32)
    ensures
        listed_pid(line, port, own_pid) matches Some(pid) ==> {
            let words = text::words(line);
            let digits = text::decimal(port as nat);
            &&& pid != 0
            &&& pid != own_pid
            &&& words.len() >= 5
            &&& text::parsed_u32(words.last()) == Some(pid)
            &&& words[1].len() > digits.len()
            &&& words[1].skip(words[1].len() - digits.len()) == digits
            &&& words[1][words[1].len() - digits.len() - 1] == ':'
        },
        text::words(line).len() < 5 ==> listed_pid(line, port, own_pid) is None,
{
    reveal_strlit(":");
    let words = text::words(line);
    let digits = text::decimal(port as nat);
    let suffix = ":"@ + digits;
    if listed_pid(line, port, own_pid) is Some {
        let word = words[1];
        let tail = word.skip(word.len() - suffix.len());
        assert(tail[0] == suffix[0]);
        assert(tail[0] == word[word.len() - digits.len() - 1]);
        assert(word.skip(word.len() - digits.len()) == tail.skip(1));
        assert(suffix.skip(1) == digits);
    }
}

/// A listener on the port whose process may be ended is found.
pub proof fn law_listeners_on_the_port_are_found(
    line: Seq<char>,
    port: u16,
    own_pid: u32,
    address: Seq<char>,
    pid: u32,
)
    requires
        text::words(line).len() >= 5,
        text::words(line)[1] == address + seq![':'] + text::decimal(port as nat),
        text::parsed_u32(text::words(line).last()) == Some(pid),
        pid != 0,
        pid != own_pid,
    ensures
        listed_pid(line, port, own_pid) == Some(pid),
{
    reveal_strlit(":");
    let word = text::words(line)[1];
    let digits = text::decimal(port as nat);
    let suffix = ":"@ + digits;
    assert(word.skip(word.len() - suffix.len()) == suffix);
}

/// The texts of a list stand in it as they are written in JSON, in order, with a
/// comma between them.
pub proof fn law_lists_are_parted_by_commas(texts: Seq<Seq<char>>, t: Seq<char>)
    ensures
        literal_list(seq![t]) == json::json_literal(t),
        texts.len() > 0 ==> literal_list(texts.push(t)) == literal_list(texts) + seq![','] + json::json_literal(
            t,
        ),
        literal_list(Seq::empty()).len() == 0,
{
    reveal_strlit(",");
    let written = |t: Seq<char>| json::json_literal(t);
    assert(","@ == seq![',']);
    assert(seq![t].map_values(written) == seq![json::json_literal(t)]);
    assert(texts.push(t).map_values(written) == texts.map_values(written).push(
        json::json_literal(t),
    ));
    let all = texts.map_values(written).push(json::json_literal(t));
    assert(all.drop_last() == texts.map_values(written));
    assert(Seq::<Seq<char>>::empty().map_values(written) == Seq::<Seq<char>>::empty());
}

} // verus!
