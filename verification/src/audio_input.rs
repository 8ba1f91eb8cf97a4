//! The worker that runs the audio streams.
use vstd::prelude::*;

use crate::audio;
use crate::text;

verus! {

/// The rate that samples are sent with.
pub const TARGET_SAMPLE_RATE: u32 = 16000;

/// How many milliseconds pass between two reports of the level.
pub const METER_INTERVAL_MS: u64 = 50;

/// Where samples come from.
#[derive(Debug, Clone, Copy, PartialEq, Eq, Structural)]
pub enum AudioSource {
    Mic,
    Discord,
}

/// Which device is opened.
#[derive(Debug)]
pub enum DeviceChoice {
    /// The one that the system chooses.
    Default,
    /// The first one of a name, or else the one that the system chooses.
    Named(String),
}

/// Whether a name stands for the device that the system chooses.
pub open spec fn means_default(name: Option<Seq<char>>) -> bool {
    match name {
        Some(given) => given.len() == 0 || given == audio::DEFAULT_DEVICE@ || given == "Default"@,
        None => true,
    }
}

/// Decides which device is opened.
pub fn choose_device(name: &Option<String>) -> (res: DeviceChoice)
    ensures
        means_default(text::opt_view(*name)) ==> res is Default,
        !means_default(text::opt_view(*name)) ==> res is Named && Some(res->Named_0@)
            == text::opt_view(*name),
{
    match name {
        Some(given) => {
            if given.as_str().is_empty() || text::same_text(given.as_str(), audio::DEFAULT_DEVICE)
                || text::same_text(given.as_str(), "Default") {
                DeviceChoice::Default
            } else {
                DeviceChoice::Named(given.clone())
            }
        },
        None => DeviceChoice::Default,
    }
}

/// The place of the first device of a name; `None` for the one that the system
/// chooses.
pub fn find_device(names: &Vec<Option<String>>, choice: &DeviceChoice) -> (res: Option<usize>)
    ensures
        match *choice {
            DeviceChoice::Default => res is None,
            DeviceChoice::Named(wanted) => match res {
                Some(at) => at < names@.len() && text::opt_view(names@[at as int]) == Some(wanted@)
                    && forall|i: int|
                    0 <= i < at ==> text::opt_view(#[trigger] names@[i]) != Some(wanted@),
                None => forall|i: int|
                    0 <= i < names@.len() ==> text::opt_view(#[trigger] names@[i]) != Some(
                        wanted@,
                    ),
            },
        },
{
    match choice {
        DeviceChoice::Default => None,
        DeviceChoice::Named(wanted) => {
            let mut i: usize = 0;
            while i < names.len()
                invariant
                    i <= names@.len(),
                    *choice is Named,
                    choice->Named_0@ == wanted@,
                    forall|k: int|
                        0 <= k < i ==> text::opt_view(#[trigger] names@[k]) != Some(wanted@),
                decreases names@.len() - i,
            {
                if text::is_text(&names[i], wanted.as_str()) {
                    return Some(i);
                }
                i += 1;
            }
            None
        },
    }
}

/// How the opening of a stream ended.
#[derive(Debug)]
pub enum OpenOutcome {
    NoDevice,
    /// The settings of the device could not be read.
    NoConfig(String),
    /// The stream could not be built.
    NotBuilt(String),
    /// The stream was built and did not start.
    NotStarted,
    /// The stream runs.
    Running,
}

/// What is logged: the level, the part of the program, and the message.
#[derive(Debug)]
pub struct AudioLog {
    pub level: &'static str,
    pub logger: &'static str,
    pub message: String,
}

/// What is logged.
pub struct AudioLogModel {
    pub level: Seq<char>,
    pub logger: Seq<char>,
    pub message: Seq<char>,
}

impl View for AudioLog {
    type V = AudioLogModel;

    open spec fn view(&self) -> AudioLogModel {
        AudioLogModel { level: self.level@, logger: self.logger@, message: self.message@ }
    }
}

/// What is logged of an opening.
pub open spec fn opening_log(source: AudioSource, outcome: OpenOutcome) -> Option<AudioLogModel> {
    match (source, outcome) {
        (AudioSource::Mic, OpenOutcome::NoDevice) => Some(
            AudioLogModel {
                level: "ERROR"@,
                logger: "Audio"@,
                message: "No audio input device found"@,
            },
        ),
        (AudioSource::Mic, OpenOutcome::NoConfig(error)) => Some(
            AudioLogModel {
                level: "ERROR"@,
                logger: "Audio"@,
                message: "Failed to get default config: "@ + error@,
            },
        ),
        (AudioSource::Mic, OpenOutcome::NotBuilt(error)) => Some(
            AudioLogModel {
                level: "ERROR"@,
                logger: "Audio"@,
                message: "Failed to build mic stream: "@ + error@,
            },
        ),
        (AudioSource::Mic, OpenOutcome::Running) => Some(
            AudioLogModel {
                level: "INFO"@,
                logger: "Audio"@,
                message: "Microphone stream active"@,
            },
        ),
        (AudioSource::Discord, OpenOutcome::NoConfig(error)) => Some(
            AudioLogModel {
                level: "ERROR"@,
                logger: "Discord"@,
                message: "Failed to get default config: "@ + error@,
            },
        ),
        (AudioSource::Discord, OpenOutcome::Running) => Some(
            AudioLogModel {
                level: "INFO"@,
                logger: "Discord"@,
                message: "Discord Audio stream active"@,
            },
        ),
        _ => None,
    }
}

fn log_with(level: &'static str, logger: &'static str, message: &str, error: &str) -> (res: AudioLog)
    ensures
        res@ == (AudioLogModel { level: level@, logger: logger@, message: message@ + error@ }),
{
    let mut whole = message.to_owned();
    text::append_text(&mut whole, error);
    AudioLog { level, logger, message: whole }
}

fn log_plain(level: &'static str, logger: &'static str, message: &str) -> (res: AudioLog)
    ensures
        res@ == (AudioLogModel { level: level@, logger: logger@, message: message@ }),
{
    AudioLog { level, logger, message: message.to_owned() }
}

pub open spec fn opt_log(log: Option<AudioLog>) -> Option<AudioLogModel> {
    match log {
        Some(found) => Some(found@),
        None => None,
    }
}

/// Which streams run, and whether samples are sent on.
pub struct AudioState {
    pub mic: bool,
    pub discord: bool,
    pub running: bool,
}

impl AudioState {
    pub open spec fn with(self, source: AudioSource, active: bool) -> AudioState {
        match source {
            AudioSource::Mic => AudioState { mic: active, ..self },
            AudioSource::Discord => AudioState { discord: active, ..self },
        }
    }

    pub open spec fn has(self, source: AudioSource) -> bool {
        match source {
            AudioSource::Mic => self.mic,
            AudioSource::Discord => self.discord,
        }
    }

    /// The opening of a stream ended. Samples are sent on from the start of the
    /// microphone.
    pub open spec fn opened(self, source: AudioSource, outcome: OpenOutcome) -> AudioState {
        if outcome is Running {
            AudioState {
                running: self.running || source == AudioSource::Mic,
                ..self.with(source, true)
            }
        } else {
            self
        }
    }

    pub open spec fn stopped(self) -> AudioState {
        AudioState { mic: false, discord: false, running: false }
    }
}

/// The worker that runs the audio streams.
pub struct AudioInputManager {
    mic: bool,
    discord: bool,
    running: bool,
}

impl View for AudioInputManager {
    type V = AudioState;

    closed spec fn view(&self) -> AudioState {
        AudioState { mic: self.mic, discord: self.discord, running: self.running }
    }
}

impl AudioInputManager {
    pub fn new() -> (res: AudioInputManager)
        ensures
            res@ == (AudioState { mic: false, discord: false, running: false }),
    {
        AudioInputManager { mic: false, discord: false, running: false }
    }

    /// Whether samples are sent on.
    pub fn is_running(&self) -> (res: bool)
        ensures
            res == self@.running,
    {
        self.running
    }

    /// A stream is to be started: tells whether an earlier one of the same
    /// source is paused first.
    pub fn starting(&mut self, source: AudioSource) -> (res: bool)
        ensures
            res == old(self)@.has(source),
            final(self)@ == old(self)@.with(source, false),
    {
        match source {
            AudioSource::Mic => {
                let had = self.mic;
                self.mic = false;
                had
            },
            AudioSource::Discord => {
                let had = self.discord;
                self.discord = false;
                had
            },
        }
    }

    /// The opening of a stream ended.
    pub fn opened(&mut self, source: AudioSource, outcome: &OpenOutcome) -> (res: Option<AudioLog>)
        ensures
            final(self)@ == old(self)@.opened(source, *outcome),
            opt_log(res) == opening_log(source, *outcome),
    {
        match source {
            AudioSource::Mic => match outcome {
                OpenOutcome::NoDevice => Some(
                    log_plain("ERROR", "Audio", "No audio input device found"),
                ),
                OpenOutcome::NoConfig(error) => Some(
                    log_with("ERROR", "Audio", "Failed to get default config: ", error.as_str()),
                ),
                OpenOutcome::NotBuilt(error) => Some(
                    log_with("ERROR", "Audio", "Failed to build mic stream: ", error.as_str()),
                ),
                OpenOutcome::NotStarted => None,
                OpenOutcome::Running => {
                    self.mic = true;
                    self.running = true;
                    Some(log_plain("INFO", "Audio", "Microphone stream active"))
                },
            },
            AudioSource::Discord => match outcome {
                OpenOutcome::NoConfig(error) => Some(
                    log_with("ERROR", "Discord", "Failed to get default config: ", error.as_str()),
                ),
                OpenOutcome::Running => {
                    self.discord = true;
                    Some(log_plain("INFO", "Discord", "Discord Audio stream active"))
                },
                _ => None,
            },
        }
    }

    /// All streams are stopped.
    pub fn stop(&mut self) -> (res: AudioLog)
        ensures
            final(self)@ == old(self)@.stopped(),
            res@ == (AudioLogModel {
                level: "INFO"@,
                logger: "Audio"@,
                message: "All audio streams stopped"@,
            }),
    {
        self.mic = false;
        self.discord = false;
        self.running = false;
        log_plain("INFO", "Audio", "All audio streams stopped")
    }
}

/// What is logged when a stream is about to be opened.
pub open spec fn connecting_text(
    source: AudioSource,
    device: Seq<char>,
    sample_rate: nat,
    channels: nat,
) -> Seq<char> {
    (match source {
        AudioSource::Mic => "Connecting to microphone: '"@,
        AudioSource::Discord => "Starting Discord Audio Capture stream on '"@,
    }) + device + "' (sample_rate: "@ + text::decimal(sample_rate) + ", channels: "@
        + text::decimal(channels) + ")"@
}

/// What is logged when a stream is about to be opened.
pub fn connecting_message(
    source: AudioSource,
    device: &str,
    sample_rate: u32,
    channels: u16,
) -> (res: String)
    ensures
        res@ == connecting_text(source, device@, sample_rate as nat, channels as nat),
{
    let mut message = match source {
        AudioSource::Mic => "Connecting to microphone: '".to_owned(),
        AudioSource::Discord => "Starting Discord Audio Capture stream on '".to_owned(),
    };
    text::append_text(&mut message, device);
    text::append_text(&mut message, "' (sample_rate: ");
    text::append_decimal(&mut message, sample_rate as u64);
    text::append_text(&mut message, ", channels: ");
    text::append_decimal(&mut message, channels as u64);
    text::append_text(&mut message, ")");
    message
}

/// Tells whether the level is reported again.
pub fn meter_is_due(elapsed_ms: u64) -> (res: bool)
    ensures
        res == (elapsed_ms >= METER_INTERVAL_MS),
{
    elapsed_ms >= METER_INTERVAL_MS
}

/// After a stop nothing is sent on until a microphone runs, whatever is tried
/// in between.
pub proof fn law_nothing_is_sent_after_a_stop(
    state: AudioState,
    source: AudioSource,
    outcome: OpenOutcome,
)
    ensures
        !state.stopped().running,
        state.stopped().opened(source, outcome).running ==> source == AudioSource::Mic
            && outcome is Running,
        state.with(source, false).running == state.running,
{
}

/// The device of the system is meant by no name, an empty one, and its two
/// names; any other name means itself.
pub proof fn law_the_system_device_has_names(name: Seq<char>)
    ensures
        means_default(None),
        means_default(Some(name)) == (name.len() == 0 || name == "Default (System Default)"@ || name
            == "Default"@),
{
}

/// A stream that opens counts as open, and the recording as running with the
/// microphone; a stream that does not open changes nothing. A stop closes both.
pub proof fn law_open_streams_count(state: AudioState, source: AudioSource, outcome: OpenOutcome)
    ensures
        ({
            let after = state.opened(source, outcome);
            &&& outcome is Running && source == AudioSource::Mic ==> after.mic && after.running
                && after.discord == state.discord
            &&& outcome is Running && source == AudioSource::Discord ==> after.discord && after.mic
                == state.mic && after.running == state.running
            &&& !(outcome is Running) ==> after == state
            &&& !state.stopped().mic && !state.stopped().discord && !state.stopped().running
        }),
{
}

/// One source is opened or closed without the other.
pub proof fn law_sources_do_not_touch_one_another(
    state: AudioState,
    source: AudioSource,
    other: AudioSource,
    active: bool,
)
    ensures
        state.with(source, active).has(source) == active,
        other != source ==> state.with(source, active).has(other) == state.has(other),
        state.with(source, active).running == state.running,
        state.has(AudioSource::Mic) == state.mic,
        state.has(AudioSource::Discord) == state.discord,
{
}

/// What is noted of an attempt to open the microphone: its success, or what
/// went wrong with it.
pub proof fn law_attempts_are_noted(error: String)
    ensures
        opening_log(AudioSource::Mic, OpenOutcome::Running) == Some(
            AudioLogModel {
                level: "INFO"@,
                logger: "Audio"@,
                message: "Microphone stream active"@,
            },
        ),
        opening_log(AudioSource::Mic, OpenOutcome::NotBuilt(error)) == Some(
            AudioLogModel {
                level: "ERROR"@,
                logger: "Audio"@,
                message: "Failed to build mic stream: "@ + error@,
            },
        ),
        opening_log(AudioSource::Mic, OpenOutcome::NoConfig(error)) == Some(
            AudioLogModel {
                level: "ERROR"@,
                logger: "Audio"@,
                message: "Failed to get default config: "@ + error@,
            },
        ),
        opening_log(AudioSource::Discord, OpenOutcome::NotBuilt(error)) is None,
{
}

/// What is logged when a stream is about to be opened names the device, and
/// tells a microphone from the sound of a call.
pub proof fn law_connections_name_the_device(
    source: AudioSource,
    device: Seq<char>,
    sample_rate: nat,
    channels: nat,
)
    ensures
        text::contains_text(connecting_text(source, device, sample_rate, channels), device),
        text::begins_with(
            connecting_text(source, device, sample_rate, channels),
            if source is Mic {
                "Connecting to microphone: '"@
            } else {
                "Starting Discord Audio Capture stream on '"@
            },
        ),
        text::contains_text(
            connecting_text(source, device, sample_rate, channels),
            "' (sample_rate: "@ + text::decimal(sample_rate) + ", channels: "@ + text::decimal(
                channels,
            ) + ")"@,
        ),
{
    let all = connecting_text(source, device, sample_rate, channels);
    let head = if source is Mic {
        "Connecting to microphone: '"@
    } else {
        "Starting Discord Audio Capture stream on '"@
    };
    let tail = "' (sample_rate: "@ + text::decimal(sample_rate) + ", channels: "@ + text::decimal(
        channels,
    ) + ")"@;
    let at = head.len() as int;
    let after = at + device.len();
    assert(all == head + device + tail);
    assert(all.subrange(at, after) == device);
    assert(text::occurs_at(all, device, at));
    assert(all.subrange(after, after + tail.len()) == tail);
    assert(text::occurs_at(all, tail, after));
    assert(all.take(at) == head);
}

/// What is logged of an opening stands under the name of its source; it is an
/// error unless the stream runs, and an error ends with what went wrong.
pub proof fn law_openings_are_logged_under_their_source(source: AudioSource, outcome: OpenOutcome)
    ensures
        outcome is Running ==> opening_log(source, outcome) is Some,
        opening_log(source, outcome) matches Some(log) ==> {
            &&& log.logger == if source is Mic {
                "Audio"@
            } else {
                "Discord"@
            }
            &&& log.level == if outcome is Running {
                "INFO"@
            } else {
                "ERROR"@
            }
            &&& outcome matches OpenOutcome::NoConfig(error) ==> log.message
                == "Failed to get default config: "@ + error@
            &&& source is Discord && outcome is Running ==> log.message
                == "Discord Audio stream active"@
        },
        source is Mic && !(outcome is Running) && outcome is NoDevice ==> opening_log(
            source,
            outcome,
        ) is Some,
        outcome is NoConfig ==> opening_log(source, outcome) is Some,
{
}

} // verus!
