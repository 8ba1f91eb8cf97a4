//! The wake-word state machine behind speech recognition results.
use vstd::prelude::*;

use crate::text;
use crate::wake_word;

verus! {

/// How long after a wake word another one counts as an echo of it.
pub const DEFAULT_WAKE_WORD_COOLDOWN_MS: u64 = 1800;

/// The name of the detector that decisions are labelled with.
pub const WAKE_WORD_ENGINE: &'static str = "whisper_vad";

/// Which speech is taken as a prompt. The default requires one of the
/// configured or built-in wake words; the other modes take every final
/// utterance, or none.
#[derive(Debug, Clone, Copy, PartialEq, Eq, Structural)]
pub enum WakeWordMode {
    RequireWakeWord,
    AllFinalSpeech,
    Disabled,
}

impl Default for WakeWordMode {
    fn default() -> (res: Self)
        ensures
            res == WakeWordMode::RequireWakeWord,
    {
        WakeWordMode::RequireWakeWord
    }
}

/// Where the machine stands: nothing heard, a wake word heard in a result that
/// may still be revised, or a wake word committed and the prompt awaited.
#[derive(Debug, Clone, Copy, PartialEq, Eq, Structural)]
pub enum WakeWordPhase {
    Idle,
    Armed,
    AwaitingPrompt,
}

impl Default for WakeWordPhase {
    fn default() -> (res: Self)
        ensures
            res == WakeWordPhase::Idle,
    {
        WakeWordPhase::Idle
    }
}

/// What one recognition result amounts to.
#[derive(Debug, Clone, Copy, PartialEq, Eq, Structural)]
pub enum WakeWordAction {
    Ignored,
    PartialWakeDetected,
    PartialPromptCandidate,
    FinalWakeOnly,
    PromptDetected,
    PromptReceived,
    FinalSpeech,
    DuplicateSuppressed,
}

/// The wake words, the mode and the length of the cooldown.
#[derive(Debug, Clone, PartialEq, Eq)]
pub struct WakeWordConfig {
    pub custom_wake_words: Vec<String>,
    pub mode: WakeWordMode,
    pub cooldown_ms: u64,
}

impl Default for WakeWordConfig {
    fn default() -> (res: Self)
        ensures
            res.custom_wake_words@ == Seq::<String>::empty(),
            res.mode == WakeWordMode::RequireWakeWord,
            res.cooldown_ms == DEFAULT_WAKE_WORD_COOLDOWN_MS,
    {
        WakeWordConfig {
            custom_wake_words: Vec::new(),
            mode: WakeWordMode::RequireWakeWord,
            cooldown_ms: DEFAULT_WAKE_WORD_COOLDOWN_MS,
        }
    }
}

impl WakeWordConfig {
    /// The default policy with the given words of the user's own.
    pub fn new(custom_wake_words: Vec<String>) -> (res: Self)
        ensures
            res.custom_wake_words == custom_wake_words,
            res.mode == WakeWordMode::RequireWakeWord,
            res.cooldown_ms == DEFAULT_WAKE_WORD_COOLDOWN_MS,
    {
        WakeWordConfig {
            custom_wake_words,
            mode: WakeWordMode::RequireWakeWord,
            cooldown_ms: DEFAULT_WAKE_WORD_COOLDOWN_MS,
        }
    }

    /// The same policy in another mode.
    pub fn with_mode(self, mode: WakeWordMode) -> (res: Self)
        ensures
            res == (WakeWordConfig { mode, ..self }),
    {
        WakeWordConfig {
            custom_wake_words: self.custom_wake_words,
            mode,
            cooldown_ms: self.cooldown_ms,
        }
    }

    /// The same policy with another cooldown.
    pub fn with_cooldown_ms(self, cooldown_ms: u64) -> (res: Self)
        ensures
            res == (WakeWordConfig { cooldown_ms, ..self }),
    {
        WakeWordConfig {
            custom_wake_words: self.custom_wake_words,
            mode: self.mode,
            cooldown_ms,
        }
    }
}

/// What the machine decided on one recognition result.
#[derive(Debug, Clone, PartialEq, Eq)]
pub struct WakeWordDecision {
    pub stream: String,
    pub engine: &'static str,
    pub session_generation: u64,
    pub is_final: bool,
    pub phase: WakeWordPhase,
    pub wake_word_checked: bool,
    pub wake_word_detected: bool,
    pub clean_prompt: String,
    pub action: WakeWordAction,
    pub should_acknowledge: bool,
    pub is_prompt: bool,
    pub cooldown_active: bool,
    pub duplicate_suppressed: bool,
}

/// The state of the machine.
pub struct WakeState {
    pub custom: Seq<Seq<char>>,
    pub mode: WakeWordMode,
    pub cooldown_ms: u64,
    pub generation: u64,
    pub phase: WakeWordPhase,
    pub provisional: Seq<char>,
    pub acknowledged: bool,
    pub cooldown_until: Option<u64>,
    pub last_key: Option<Seq<char>>,
    pub last_ms: Option<u64>,
    pub last_wake_related: bool,
}

/// The decision on one recognition result.
pub struct DecisionView {
    pub stream: Seq<char>,
    pub engine: Seq<char>,
    pub session_generation: u64,
    pub is_final: bool,
    pub phase: WakeWordPhase,
    pub wake_word_checked: bool,
    pub wake_word_detected: bool,
    pub clean_prompt: Seq<char>,
    pub action: WakeWordAction,
    pub should_acknowledge: bool,
    pub is_prompt: bool,
    pub cooldown_active: bool,
    pub duplicate_suppressed: bool,
}

impl View for WakeWordDecision {
    type V = DecisionView;

    open spec fn view(&self) -> DecisionView {
        DecisionView {
            stream: self.stream@,
            engine: self.engine@,
            session_generation: self.session_generation,
            is_final: self.is_final,
            phase: self.phase,
            wake_word_checked: self.wake_word_checked,
            wake_word_detected: self.wake_word_detected,
            clean_prompt: self.clean_prompt@,
            action: self.action,
            should_acknowledge: self.should_acknowledge,
            is_prompt: self.is_prompt,
            cooldown_active: self.cooldown_active,
            duplicate_suppressed: self.duplicate_suppressed,
        }
    }
}

/// One recognition result: its stream, its words, whether it is final, and the
/// monotonic time in milliseconds at which it came.
pub struct Heard {
    pub stream: Seq<char>,
    pub said: Seq<char>,
    pub is_final: bool,
    pub now_ms: u64,
}

impl WakeState {
    /// The same settings with nothing heard.
    pub open spec fn fresh(self) -> WakeState {
        WakeState {
            phase: WakeWordPhase::Idle,
            provisional: Seq::empty(),
            acknowledged: false,
            cooldown_until: None,
            last_key: None,
            last_ms: None,
            last_wake_related: false,
            ..self
        }
    }

    /// The state in which an utterance that may still be revised is given up.
    pub open spec fn settled(self) -> WakeState {
        WakeState {
            phase: if self.phase == WakeWordPhase::Armed {
                WakeWordPhase::Idle
            } else {
                self.phase
            },
            provisional: Seq::empty(),
            acknowledged: false,
            ..self
        }
    }

    pub open spec fn cooling(self, now_ms: u64) -> bool {
        self.cooldown_until matches Some(until) && now_ms < until
    }

    /// The state with a cooldown that starts now.
    pub open spec fn cooled(self, now_ms: u64) -> WakeState {
        WakeState {
            cooldown_until: Some(
                if now_ms + self.cooldown_ms > u64::MAX {
                    u64::MAX
                } else {
                    (now_ms + self.cooldown_ms) as u64
                },
            ),
            ..self
        }
    }

    /// The state that remembers a final text to recognise a repetition of it.
    pub open spec fn remembering(self, key: Seq<char>, now_ms: u64) -> WakeState {
        if key.len() == 0 {
            WakeState { last_key: None, last_ms: None, last_wake_related: false, ..self }
        } else {
            WakeState {
                last_key: Some(key),
                last_ms: Some(now_ms),
                last_wake_related: true,
                ..self
            }
        }
    }

    /// Whether a result is looked at: it comes from the microphone, and the
    /// machine is not switched off.
    pub open spec fn listens(self, stream: Seq<char>) -> bool {
        stream == "mic"@ && self.mode != WakeWordMode::Disabled
    }

    /// What is left of the words once the wake word is removed, if one stands
    /// in them.
    pub open spec fn wake(self, said: Seq<char>) -> Option<Seq<char>> {
        wake_word::wake_match(said, self.custom)
    }

    /// Whether a final text repeats the last remembered one within the
    /// cooldown.
    pub open spec fn repeats(self, said: Seq<char>, now_ms: u64) -> bool {
        &&& wake_word::wake_key(said).len() > 0
        &&& self.last_wake_related
        &&& self.last_key == Some(wake_word::wake_key(said))
        &&& self.last_ms matches Some(last) && now_ms - last <= self.cooldown_ms
    }

    /// What a recognition result amounts to.
    pub open spec fn action(self, heard: Heard) -> WakeWordAction {
        if !self.listens(heard.stream) || text::is_blank(heard.said) {
            WakeWordAction::Ignored
        } else if !heard.is_final {
            if self.mode == WakeWordMode::RequireWakeWord && self.wake(heard.said) is Some {
                if self.phase == WakeWordPhase::Armed || !self.cooling(heard.now_ms) {
                    WakeWordAction::PartialWakeDetected
                } else {
                    WakeWordAction::DuplicateSuppressed
                }
            } else if self.phase == WakeWordPhase::AwaitingPrompt {
                WakeWordAction::PartialPromptCandidate
            } else {
                WakeWordAction::Ignored
            }
        } else if self.mode == WakeWordMode::AllFinalSpeech {
            WakeWordAction::PromptReceived
        } else if self.repeats(heard.said, heard.now_ms) {
            WakeWordAction::DuplicateSuppressed
        } else {
            match self.wake(heard.said) {
                Some(rest) => if self.phase == WakeWordPhase::Idle && self.cooling(heard.now_ms) {
                    WakeWordAction::DuplicateSuppressed
                } else if rest.len() == 0 {
                    WakeWordAction::FinalWakeOnly
                } else {
                    WakeWordAction::PromptDetected
                },
                None => if self.phase == WakeWordPhase::AwaitingPrompt {
                    WakeWordAction::PromptReceived
                } else {
                    WakeWordAction::FinalSpeech
                },
            }
        }
    }

    /// The state after a recognition result.
    pub open spec fn after(self, heard: Heard) -> WakeState {
        if !self.listens(heard.stream) {
            self
        } else if !heard.is_final {
            if self.action(heard) != WakeWordAction::PartialWakeDetected {
                self
            } else {
                let rest = self.wake(heard.said)->0;
                if self.phase == WakeWordPhase::Armed {
                    WakeState {
                        provisional: if rest.len() > 0 {
                            rest
                        } else {
                            self.provisional
                        },
                        ..self
                    }
                } else {
                    WakeState {
                        phase: WakeWordPhase::Armed,
                        provisional: rest,
                        acknowledged: rest.len() == 0,
                        ..self.cooled(heard.now_ms)
                    }
                }
            }
        } else if text::is_blank(heard.said) {
            self.settled()
        } else if self.mode == WakeWordMode::AllFinalSpeech {
            WakeState { phase: WakeWordPhase::Idle, ..self.settled() }
        } else {
            let key = wake_word::wake_key(heard.said);
            match self.action(heard) {
                WakeWordAction::FinalWakeOnly => WakeState {
                    phase: WakeWordPhase::AwaitingPrompt,
                    acknowledged: true,
                    ..self.settled().cooled(heard.now_ms).remembering(key, heard.now_ms)
                },
                WakeWordAction::PromptDetected => WakeState {
                    phase: WakeWordPhase::Idle,
                    ..self.settled().cooled(heard.now_ms).remembering(key, heard.now_ms)
                },
                WakeWordAction::PromptReceived => WakeState {
                    phase: WakeWordPhase::Idle,
                    ..self.settled().remembering(key, heard.now_ms)
                },
                WakeWordAction::FinalSpeech => WakeState {
                    phase: WakeWordPhase::Idle,
                    ..self.settled()
                },
                _ => self.settled(),
            }
        }
    }

    /// Whether the words are compared with the wake words, or taken as the
    /// beginning of an awaited prompt.
    pub open spec fn checks(self, heard: Heard) -> bool {
        &&& self.listens(heard.stream)
        &&& !text::is_blank(heard.said)
        &&& self.mode == WakeWordMode::RequireWakeWord || self.action(heard)
            == WakeWordAction::PartialPromptCandidate
    }

    /// Whether a wake word stands in words that are compared.
    pub open spec fn detects(self, heard: Heard) -> bool {
        self.checks(heard) && self.mode == WakeWordMode::RequireWakeWord && self.wake(
            heard.said,
        ) is Some
    }

    /// Whether the user is told that the wake word was heard: at once for a
    /// wake word that stands alone, else with the final result, and once only.
    pub open spec fn acknowledges(self, heard: Heard) -> bool {
        match self.action(heard) {
            WakeWordAction::PartialWakeDetected => self.phase != WakeWordPhase::Armed && self.wake(
                heard.said,
            ) == Some(Seq::<char>::empty()),
            WakeWordAction::FinalWakeOnly => !self.acknowledged,
            WakeWordAction::PromptDetected => !self.acknowledged,
            _ => false,
        }
    }

    /// The decision on a recognition result.
    pub open spec fn decision(self, heard: Heard) -> DecisionView {
        let action = self.action(heard);
        DecisionView {
            stream: heard.stream,
            engine: WAKE_WORD_ENGINE@,
            session_generation: self.generation,
            is_final: heard.is_final,
            phase: self.after(heard).phase,
            wake_word_checked: self.checks(heard),
            wake_word_detected: self.detects(heard),
            clean_prompt: if self.detects(heard) {
                self.wake(heard.said)->0
            } else {
                heard.said
            },
            action,
            should_acknowledge: self.acknowledges(heard),
            is_prompt: action == WakeWordAction::PromptDetected || action
                == WakeWordAction::PromptReceived || action
                == WakeWordAction::PartialPromptCandidate,
            cooldown_active: {
                ||| self.cooling(heard.now_ms)
                ||| action == WakeWordAction::PartialWakeDetected && self.phase
                    != WakeWordPhase::Armed
                ||| action == WakeWordAction::FinalWakeOnly
                ||| action == WakeWordAction::PromptDetected
            },
            duplicate_suppressed: {
                ||| action == WakeWordAction::DuplicateSuppressed
                ||| action == WakeWordAction::PartialWakeDetected && self.phase
                    == WakeWordPhase::Armed
            },
        }
    }

    /// What every state keeps: only an utterance in progress has a provisional
    /// prompt or an acknowledgement, and a remembered final text has its time.
    pub open spec fn valid(self) -> bool {
        &&& self.provisional.len() > 0 ==> self.phase == WakeWordPhase::Armed
        &&& self.acknowledged ==> self.phase != WakeWordPhase::Idle
        &&& self.last_key is Some <==> self.last_ms is Some
        &&& self.last_wake_related <==> self.last_key is Some
        &&& self.last_key matches Some(key) ==> key.len() > 0
    }
}

impl WakeWordDecision {
    fn ignored(
        stream: &str,
        is_final: bool,
        phase: WakeWordPhase,
        session_generation: u64,
        clean_prompt: String,
        cooldown_active: bool,
    ) -> (res: Self)
        ensures
            res@ == (DecisionView {
                stream: stream@,
                engine: WAKE_WORD_ENGINE@,
                session_generation,
                is_final,
                phase,
                wake_word_checked: false,
                wake_word_detected: false,
                clean_prompt: clean_prompt@,
                action: WakeWordAction::Ignored,
                should_acknowledge: false,
                is_prompt: false,
                cooldown_active,
                duplicate_suppressed: false,
            }),
    {
        WakeWordDecision {
            stream: stream.to_owned(),
            engine: WAKE_WORD_ENGINE,
            session_generation,
            is_final,
            phase,
            wake_word_checked: false,
            wake_word_detected: false,
            clean_prompt,
            action: WakeWordAction::Ignored,
            should_acknowledge: false,
            is_prompt: false,
            cooldown_active,
            duplicate_suppressed: false,
        }
    }
}

/// The wake-word state machine.
///
/// `handle_asr` takes every recognition result. Partial results may arm an
/// utterance and ask for one acknowledgement, while only final results give
/// prompts. The caller supplies a monotonic time in milliseconds.
pub struct WakeWordStateMachine {
    config: WakeWordConfig,
    session_generation: u64,
    phase: WakeWordPhase,
    provisional_clean_prompt: String,
    acknowledgement_sent: bool,
    cooldown_until_ms: Option<u64>,
    last_final_key: Option<String>,
    last_final_ms: Option<u64>,
    last_final_wake_related: bool,
}

impl View for WakeWordStateMachine {
    type V = WakeState;

    closed spec fn view(&self) -> WakeState {
        WakeState {
            custom: wake_word::texts_of(self.config.custom_wake_words@),
            mode: self.config.mode,
            cooldown_ms: self.config.cooldown_ms,
            generation: self.session_generation,
            phase: self.phase,
            provisional: self.provisional_clean_prompt@,
            acknowledged: self.acknowledgement_sent,
            cooldown_until: self.cooldown_until_ms,
            last_key: match self.last_final_key {
                Some(key) => Some(key@),
                None => None,
            },
            last_ms: self.last_final_ms,
            last_wake_related: self.last_final_wake_related,
        }
    }
}

/// The state of a new machine with the given settings.
pub open spec fn initial_state(config: WakeWordConfig) -> WakeState {
    WakeState {
        custom: wake_word::texts_of(config.custom_wake_words@),
        mode: config.mode,
        cooldown_ms: config.cooldown_ms,
        generation: 0,
        phase: WakeWordPhase::Idle,
        provisional: Seq::empty(),
        acknowledged: false,
        cooldown_until: None,
        last_key: None,
        last_ms: None,
        last_wake_related: false,
    }
}

impl Default for WakeWordStateMachine {
    fn default() -> (res: Self)
        ensures
            res@.valid(),
            exists|config: WakeWordConfig|
                #![trigger initial_state(config)]
                config.custom_wake_words@ == Seq::<String>::empty() && config.mode
                    == WakeWordMode::RequireWakeWord && config.cooldown_ms
                    == DEFAULT_WAKE_WORD_COOLDOWN_MS && res@ == initial_state(config),
    {
        WakeWordStateMachine::new()
    }
}

impl WakeWordStateMachine {
    /// A machine with the default settings.
    pub fn new() -> (res: Self)
        ensures
            res@.valid(),
            exists|config: WakeWordConfig|
                #![trigger initial_state(config)]
                config.custom_wake_words@ == Seq::<String>::empty() && config.mode
                    == WakeWordMode::RequireWakeWord && config.cooldown_ms
                    == DEFAULT_WAKE_WORD_COOLDOWN_MS && res@ == initial_state(config),
    {
        let config = WakeWordConfig::default();
        let ghost settings = config;
        let machine = WakeWordStateMachine::with_config(config);
        assert(machine@ == initial_state(settings));
        machine
    }

    /// A machine with the given settings.
    pub fn with_config(config: WakeWordConfig) -> (res: Self)
        ensures
            res@ == initial_state(config),
            res@.valid(),
    {
        WakeWordStateMachine {
            config,
            session_generation: 0,
            phase: WakeWordPhase::Idle,
            provisional_clean_prompt: String::new(),
            acknowledgement_sent: false,
            cooldown_until_ms: None,
            last_final_key: None,
            last_final_ms: None,
            last_final_wake_related: false,
        }
    }

    /// Starts a session: nothing heard before counts.
    pub fn begin_session(&mut self, generation: u64)
        ensures
            final(self)@ == (WakeState { generation, ..old(self)@.fresh() }),
    {
        self.session_generation = generation;
        self.reset_all();
    }

    /// Starts over where the session generation changed, and tells whether it
    /// did.
    pub fn on_generation_changed(&mut self, generation: u64) -> (res: bool)
        ensures
            res == (old(self)@.generation != generation),
            final(self)@ == if res {
                WakeState { generation, ..old(self)@.fresh() }
            } else {
                old(self)@
            },
    {
        if self.session_generation == generation {
            return false;
        }
        self.session_generation = generation;
        self.reset_all();
        true
    }

    /// Replaces the settings and starts over.
    pub fn set_config(&mut self, config: WakeWordConfig)
        ensures
            final(self)@ == (WakeState {
                generation: old(self)@.generation,
                ..initial_state(config)
            }),
    {
        self.config = config;
        self.reset_all();
    }

    /// The settings.
    pub fn config(&self) -> (res: &WakeWordConfig)
        ensures
            wake_word::texts_of(res.custom_wake_words@) == self@.custom,
            res.mode == self@.mode,
            res.cooldown_ms == self@.cooldown_ms,
    {
        &self.config
    }

    pub fn session_generation(&self) -> (res: u64)
        ensures
            res == self@.generation,
    {
        self.session_generation
    }

    pub fn phase(&self) -> (res: WakeWordPhase)
        ensures
            res == self@.phase,
    {
        self.phase
    }

    /// Tells whether a wake word was heard in a result that may be revised.
    pub fn is_armed(&self) -> (res: bool)
        ensures
            res == (self@.phase == WakeWordPhase::Armed),
    {
        self.phase == WakeWordPhase::Armed
    }

    /// Tells whether a wake word was heard and no prompt yet.
    pub fn is_collecting_prompt(&self) -> (res: bool)
        ensures
            res == (self@.phase == WakeWordPhase::AwaitingPrompt || self@.phase
                == WakeWordPhase::Armed && self@.provisional.len() == 0),
    {
        self.phase == WakeWordPhase::AwaitingPrompt || (self.phase == WakeWordPhase::Armed
            && self.provisional_clean_prompt.as_str().is_empty())
    }

    /// Tells whether another wake word would count as an echo.
    pub fn in_cooldown(&self, now_ms: u64) -> (res: bool)
        ensures
            res == self@.cooling(now_ms),
    {
        match self.cooldown_until_ms {
            Some(until) => now_ms < until,
            None => false,
        }
    }

    /// Gives up an utterance that may still be revised; a prompt that is
    /// awaited stays awaited.
    pub fn reset_on_silence(&mut self)
        ensures
            final(self)@ == old(self)@.settled(),
    {
        self.finish_provisional();
    }

    /// Forgets everything heard.
    pub fn reset_on_stop(&mut self)
        ensures
            final(self)@ == old(self)@.fresh(),
    {
        self.reset_all();
    }

    fn reset_all(&mut self)
        ensures
            final(self)@ == old(self)@.fresh(),
            final(self).config == old(self).config,
    {
        self.phase = WakeWordPhase::Idle;
        self.provisional_clean_prompt = String::new();
        self.acknowledgement_sent = false;
        self.cooldown_until_ms = None;
        self.last_final_key = None;
        self.last_final_ms = None;
        self.last_final_wake_related = false;
    }

    /// Takes one recognition result.
    pub fn handle_asr(&mut self, stream: &str, said: &str, is_final: bool, now_ms: u64) -> (res:
        WakeWordDecision)
        ensures
            res@ == old(self)@.decision(
                Heard { stream: stream@, said: said@, is_final, now_ms },
            ),
            final(self)@ == old(self)@.after(
                Heard { stream: stream@, said: said@, is_final, now_ms },
            ),
            old(self)@.valid() ==> final(self)@.valid(),
    {
        let ghost state = self@;
        let ghost heard = Heard { stream: stream@, said: said@, is_final, now_ms };
        proof {
            if state.valid() {
                law_results_keep_the_state_valid(state, heard);
            }
        }
        let cooldown_active = self.in_cooldown(now_ms);

        // The results of all streams come here, and those of other streams
        // never touch the state of the microphone.
        if !text::same_text(stream, "mic") || self.config.mode == WakeWordMode::Disabled {
            return WakeWordDecision::ignored(
                stream,
                is_final,
                self.phase,
                self.session_generation,
                said.to_owned(),
                cooldown_active,
            );
        }
        // An empty final result closes an utterance that was being revised.

        if text::is_blank_text(said) {
            if is_final {
                self.finish_provisional();
            }
            let cooling = self.in_cooldown(now_ms);
            return WakeWordDecision::ignored(
                stream,
                is_final,
                self.phase,
                self.session_generation,
                said.to_owned(),
                cooling,
            );
        }
        if self.config.mode == WakeWordMode::AllFinalSpeech {
            if !is_final {
                if self.phase == WakeWordPhase::AwaitingPrompt {
                    return self.decision(
                        stream,
                        false,
                        true,
                        false,
                        said.to_owned(),
                        WakeWordAction::PartialPromptCandidate,
                        false,
                        true,
                        cooldown_active,
                        false,
                    );
                }
                return self.decision(
                    stream,
                    false,
                    false,
                    false,
                    said.to_owned(),
                    WakeWordAction::Ignored,
                    false,
                    false,
                    cooldown_active,
                    false,
                );
            }
            self.finish_provisional();
            self.phase = WakeWordPhase::Idle;
            let cooling = self.in_cooldown(now_ms);
            return self.decision(
                stream,
                true,
                false,
                false,
                said.to_owned(),
                WakeWordAction::PromptReceived,
                false,
                true,
                cooling,
                false,
            );
        }
        let (matched, clean_prompt) = wake_word::match_wake_word(
            said,
            &self.config.custom_wake_words,
        );

        if !is_final {
            if matched {
                if self.phase == WakeWordPhase::Armed {
                    // Partial results are revised often: keep the newest
                    // candidate, and never acknowledge twice.
                    if !clean_prompt.as_str().is_empty() {
                        self.provisional_clean_prompt = clean_prompt.clone();
                    }
                    let cooling = self.in_cooldown(now_ms);
                    return self.decision(
                        stream,
                        false,
                        true,
                        true,
                        clean_prompt,
                        WakeWordAction::PartialWakeDetected,
                        false,
                        false,
                        cooling,
                        true,
                    );
                }
                if cooldown_active {
                    return self.decision(
                        stream,
                        false,
                        true,
                        true,
                        clean_prompt,
                        WakeWordAction::DuplicateSuppressed,
                        false,
                        false,
                        true,
                        true,
                    );
                }
                self.phase = WakeWordPhase::Armed;
                self.provisional_clean_prompt = clean_prompt.clone();
                // Words after the wake word are a candidate only: the final
                // result decides on the prompt and acknowledges it.
                let should_acknowledge = clean_prompt.as_str().is_empty();
                assert(should_acknowledge ==> clean_prompt@ == Seq::<char>::empty());
                self.acknowledgement_sent = should_acknowledge;
                self.set_cooldown(now_ms);
                return self.decision(
                    stream,
                    false,
                    true,
                    true,
                    clean_prompt,
                    WakeWordAction::PartialWakeDetected,
                    should_acknowledge,
                    false,
                    true,
                    false,
                );
            }
            if self.phase == WakeWordPhase::AwaitingPrompt {
                return self.decision(
                    stream,
                    false,
                    true,
                    false,
                    said.to_owned(),
                    WakeWordAction::PartialPromptCandidate,
                    false,
                    true,
                    cooldown_active,
                    false,
                );
            }
            return self.decision(
                stream,
                false,
                true,
                false,
                said.to_owned(),
                WakeWordAction::Ignored,
                false,
                false,
                cooldown_active,
                false,
            );
        }
        let final_key = wake_word::normalize_wake_word_key(said);
        let duplicate_final = self.is_repetition(&final_key, now_ms);
        if duplicate_final {
            self.finish_provisional();
            let cooling = self.in_cooldown(now_ms);
            return self.decision(
                stream,
                true,
                true,
                matched,
                clean_prompt,
                WakeWordAction::DuplicateSuppressed,
                false,
                false,
                cooling,
                true,
            );
        }
        let was_armed = self.phase == WakeWordPhase::Armed;
        let was_waiting = self.phase == WakeWordPhase::AwaitingPrompt;
        let acknowledgement_was_sent = self.acknowledgement_sent;

        if matched {
            if !was_armed && !was_waiting && cooldown_active {
                self.finish_provisional();
                return self.decision(
                    stream,
                    true,
                    true,
                    true,
                    clean_prompt,
                    WakeWordAction::DuplicateSuppressed,
                    false,
                    false,
                    true,
                    true,
                );
            }
            self.finish_provisional();
            self.set_cooldown(now_ms);
            self.remember_final(final_key, now_ms);

            if clean_prompt.as_str().is_empty() {
                self.phase = WakeWordPhase::AwaitingPrompt;
                self.acknowledgement_sent = true;
                return self.decision(
                    stream,
                    true,
                    true,
                    true,
                    clean_prompt,
                    WakeWordAction::FinalWakeOnly,
                    !acknowledgement_was_sent,
                    false,
                    true,
                    false,
                );
            }
            self.phase = WakeWordPhase::Idle;
            return self.decision(
                stream,
                true,
                true,
                true,
                clean_prompt,
                WakeWordAction::PromptDetected,
                !acknowledgement_was_sent,
                true,
                true,
                false,
            );
        }
        self.finish_provisional();
        if was_waiting {
            self.phase = WakeWordPhase::Idle;
            self.remember_final(final_key, now_ms);
            let cooling = self.in_cooldown(now_ms);
            return self.decision(
                stream,
                true,
                true,
                false,
                said.to_owned(),
                WakeWordAction::PromptReceived,
                false,
                true,
                cooling,
                false,
            );
        }
        self.phase = WakeWordPhase::Idle;
        let cooling = self.in_cooldown(now_ms);
        self.decision(
            stream,
            true,
            true,
            false,
            said.to_owned(),
            WakeWordAction::FinalSpeech,
            false,
            false,
            cooling,
            false,
        )
    }

    fn decision(
        &self,
        stream: &str,
        is_final: bool,
        wake_word_checked: bool,
        wake_word_detected: bool,
        clean_prompt: String,
        action: WakeWordAction,
        should_acknowledge: bool,
        is_prompt: bool,
        cooldown_active: bool,
        duplicate_suppressed: bool,
    ) -> (res: WakeWordDecision)
        ensures
            res@ == (DecisionView {
                stream: stream@,
                engine: WAKE_WORD_ENGINE@,
                session_generation: self@.generation,
                is_final,
                phase: self@.phase,
                wake_word_checked,
                wake_word_detected,
                clean_prompt: clean_prompt@,
                action,
                should_acknowledge,
                is_prompt,
                cooldown_active,
                duplicate_suppressed,
            }),
    {
        WakeWordDecision {
            stream: stream.to_owned(),
            engine: WAKE_WORD_ENGINE,
            session_generation: self.session_generation,
            is_final,
            phase: self.phase,
            wake_word_checked,
            wake_word_detected,
            clean_prompt,
            action,
            should_acknowledge,
            is_prompt,
            cooldown_active,
            duplicate_suppressed,
        }
    }

    fn finish_provisional(&mut self)
        ensures
            final(self)@ == old(self)@.settled(),
            final(self).config == old(self).config,
    {
        if self.phase == WakeWordPhase::Armed {
            self.phase = WakeWordPhase::Idle;
        }
        self.provisional_clean_prompt = String::new();
        self.acknowledgement_sent = false;
    }

    fn set_cooldown(&mut self, now_ms: u64)
        ensures
            final(self)@ == old(self)@.cooled(now_ms),
            final(self).config == old(self).config,
    {
        self.cooldown_until_ms = Some(now_ms.saturating_add(self.config.cooldown_ms));
    }

    fn remember_final(&mut self, final_key: String, now_ms: u64)
        ensures
            final(self)@ == old(self)@.remembering(final_key@, now_ms),
            final(self).config == old(self).config,
    {
        if final_key.as_str().is_empty() {
            self.last_final_key = None;
            self.last_final_ms = None;
            self.last_final_wake_related = false;
        } else {
            self.last_final_key = Some(final_key);
            self.last_final_ms = Some(now_ms);
            self.last_final_wake_related = true;
        }
    }

    fn is_repetition(&self, final_key: &String, now_ms: u64) -> (res: bool)
        ensures
            res == {
                &&& final_key@.len() > 0
                &&& self@.last_wake_related
                &&& self@.last_key == Some(final_key@)
                &&& self@.last_ms matches Some(last) && now_ms - last <= self@.cooldown_ms
            },
    {
        let same_key = match &self.last_final_key {
            Some(key) => *key == *final_key,
            None => false,
        };
        let recent = match self.last_final_ms {
            Some(last) => now_ms.saturating_sub(last) <= self.config.cooldown_ms,
            None => false,
        };
        !final_key.as_str().is_empty() && self.last_final_wake_related && same_key && recent
    }
}

/// Results of another stream, and any result in the disabled mode, are ignored
/// and leave the state as it is.
pub proof fn law_other_streams_change_nothing(state: WakeState, heard: Heard)
    requires
        heard.stream != "mic"@ || state.mode == WakeWordMode::Disabled,
    ensures
        state.after(heard) == state,
        state.action(heard) == WakeWordAction::Ignored,
        !state.decision(heard).wake_word_checked,
        !state.decision(heard).should_acknowledge,
        !state.decision(heard).is_prompt,
        state.decision(heard).clean_prompt == heard.said,
{
}

/// Every result keeps the state valid.
pub proof fn law_results_keep_the_state_valid(state: WakeState, heard: Heard)
    requires
        state.valid(),
    ensures
        state.after(heard).valid(),
{
}

/// Giving up an utterance and starting over keep the state valid.
pub proof fn law_resets_keep_the_state_valid(state: WakeState)
    requires
        state.valid(),
    ensures
        state.settled().valid(),
        state.fresh().valid(),
{
}

/// Only final results give prompts: on a partial result the phase changes only
/// to armed, and nothing is remembered.
pub proof fn law_partial_results_are_provisional(state: WakeState, heard: Heard)
    requires
        !heard.is_final,
    ensures
        state.action(heard) != WakeWordAction::PromptDetected,
        state.action(heard) != WakeWordAction::PromptReceived,
        state.action(heard) != WakeWordAction::FinalWakeOnly,
        state.action(heard) != WakeWordAction::FinalSpeech,
        state.after(heard).phase == state.phase || state.after(heard).phase
            == WakeWordPhase::Armed,
        state.after(heard).last_key == state.last_key,
        state.after(heard).last_ms == state.last_ms,
{
}

/// A final microphone result never leaves an utterance armed.
pub proof fn law_final_results_disarm(state: WakeState, heard: Heard)
    requires
        heard.is_final,
        state.listens(heard.stream),
    ensures
        state.after(heard).phase != WakeWordPhase::Armed,
        state.after(heard).provisional.len() == 0,
{
}

/// An utterance is acknowledged at most once: after an acknowledged partial
/// result no further result of the utterance, partial or final, is
/// acknowledged.
pub proof fn law_one_acknowledgement_for_an_utterance(
    state: WakeState,
    first: Heard,
    second: Heard,
)
    requires
        !first.is_final,
        state.acknowledges(first),
    ensures
        state.after(first).phase == WakeWordPhase::Armed,
        !state.after(first).acknowledges(second),
        !second.is_final ==> state.after(first).after(second).acknowledged,
{
}

/// While an utterance is armed and acknowledged, no result is acknowledged.
pub proof fn law_acknowledged_utterances_stay_quiet(state: WakeState, heard: Heard)
    requires
        state.phase == WakeWordPhase::Armed,
        state.acknowledged,
    ensures
        !state.acknowledges(heard),
        !heard.is_final ==> state.after(heard).phase == WakeWordPhase::Armed && state.after(
            heard,
        ).acknowledged,
{
}

/// A final text that led to a prompt or a wake word is suppressed when it
/// comes again within the cooldown, and gives no second prompt.
pub proof fn law_repeated_finals_are_suppressed(state: WakeState, first: Heard, second: Heard)
    requires
        first.is_final,
        second.is_final,
        first.stream == "mic"@,
        second.stream == first.stream,
        second.said == first.said,
        first.now_ms <= second.now_ms <= first.now_ms + state.cooldown_ms,
        state.mode == WakeWordMode::RequireWakeWord,
        ({
            ||| state.action(first) == WakeWordAction::PromptDetected
            ||| state.action(first) == WakeWordAction::PromptReceived
            ||| state.action(first) == WakeWordAction::FinalWakeOnly
        }),
    ensures
        state.after(first).action(second) == WakeWordAction::DuplicateSuppressed,
        !state.after(first).decision(second).is_prompt,
        !state.after(first).decision(second).should_acknowledge,
{
    wake_word::lemma_spoken_words_have_a_key(first.said);
}

/// During the cooldown a wake word heard from rest neither arms an utterance
/// nor gives a prompt.
pub proof fn law_cooldown_suppresses_echoes(state: WakeState, heard: Heard)
    requires
        state.mode == WakeWordMode::RequireWakeWord,
        state.listens(heard.stream),
        !text::is_blank(heard.said),
        state.phase == WakeWordPhase::Idle,
        state.cooling(heard.now_ms),
        state.wake(heard.said) is Some,
    ensures
        state.action(heard) == WakeWordAction::DuplicateSuppressed,
        state.after(heard).phase == WakeWordPhase::Idle,
        !state.decision(heard).is_prompt,
        !state.decision(heard).should_acknowledge,
{
}

/// After a final result with the wake word alone, the next final words without
/// a wake word are the prompt, word for word.
pub proof fn law_prompt_follows_the_wake_word(state: WakeState, wake: Heard, prompt: Heard)
    requires
        wake.is_final,
        state.action(wake) == WakeWordAction::FinalWakeOnly,
        prompt.is_final,
        prompt.stream == "mic"@,
        !text::is_blank(prompt.said),
        state.wake(prompt.said) is None,
        wake_word::wake_key(prompt.said) != wake_word::wake_key(wake.said),
    ensures
        state.after(wake).phase == WakeWordPhase::AwaitingPrompt,
        state.after(wake).action(prompt) == WakeWordAction::PromptReceived,
        state.after(wake).decision(prompt).is_prompt,
        state.after(wake).decision(prompt).clean_prompt == prompt.said,
        state.after(wake).after(prompt).phase == WakeWordPhase::Idle,
{
}

/// Silence gives up an armed utterance, while a prompt that is awaited stays
/// awaited.
pub proof fn law_silence_keeps_an_awaited_prompt(state: WakeState)
    ensures
        state.phase == WakeWordPhase::AwaitingPrompt ==> state.settled().phase
            == WakeWordPhase::AwaitingPrompt,
        state.phase == WakeWordPhase::Armed ==> state.settled().phase == WakeWordPhase::Idle,
        state.settled().cooldown_until == state.cooldown_until,
{
}

/// A wake word in a final microphone result is taken unless it echoes an
/// earlier one. Once the cooldown is over, or where an utterance is under way,
/// and where the words do not repeat the last ones within the cooldown, the
/// result is a prompt made of the words that are left, or the wake word alone
/// where none is left. Either way a new cooldown begins, the words are
/// remembered, and the user is told unless that was done before.
pub proof fn law_wake_words_are_taken_outside_the_cooldown(state: WakeState, heard: Heard)
    requires
        state.mode == WakeWordMode::RequireWakeWord,
        heard.stream == "mic"@,
        heard.is_final,
        wake_word::wake_match(heard.said, state.custom) is Some,
        ({
            ||| state.phase != WakeWordPhase::Idle
            ||| state.cooldown_until is None
            ||| heard.now_ms >= state.cooldown_until->0
        }),
        ({
            ||| state.last_key != Some(wake_word::wake_key(heard.said))
            ||| state.last_ms is None
            ||| heard.now_ms > state.last_ms->0 + state.cooldown_ms
        }),
    ensures
        ({
            let rest = wake_word::wake_match(heard.said, state.custom)->0;
            let decision = state.decision(heard);
            let next = state.after(heard);
            &&& rest.len() == 0 ==> decision.action == WakeWordAction::FinalWakeOnly
            &&& rest.len() == 0 ==> !decision.is_prompt
            &&& rest.len() == 0 ==> next.phase == WakeWordPhase::AwaitingPrompt
            &&& rest.len() > 0 ==> decision.action == WakeWordAction::PromptDetected
            &&& rest.len() > 0 ==> decision.is_prompt
            &&& rest.len() > 0 ==> next.phase == WakeWordPhase::Idle
            &&& decision.clean_prompt == rest
            &&& decision.wake_word_checked
            &&& decision.wake_word_detected
            &&& decision.should_acknowledge == !state.acknowledged
            &&& decision.cooldown_active
            &&& !decision.duplicate_suppressed
            &&& next.cooldown_until is Some
            &&& next.cooldown_until->0 == if heard.now_ms + state.cooldown_ms <= u64::MAX {
                heard.now_ms + state.cooldown_ms
            } else {
                u64::MAX as int
            }
            &&& next.last_key == Some(wake_word::wake_key(heard.said))
            &&& next.last_ms == Some(heard.now_ms)
        }),
{
    wake_word::lemma_matched_words_are_spoken(heard.said, state.custom);
    wake_word::lemma_spoken_words_have_a_key(heard.said);
}

/// Nothing is suppressed without a cause. A final result is suppressed only
/// where it repeats the last one within the cooldown, or where it holds a wake
/// word, nothing is under way, and the cooldown of the last wake word still
/// runs; a partial result only where it holds a wake word, no utterance is
/// armed, and the cooldown still runs.
pub proof fn law_suppression_has_a_cause(state: WakeState, heard: Heard)
    requires
        state.decision(heard).action == WakeWordAction::DuplicateSuppressed,
    ensures
        heard.stream == "mic"@,
        state.mode == WakeWordMode::RequireWakeWord,
        ({
            ||| heard.is_final && state.last_key == Some(wake_word::wake_key(heard.said))
                && state.last_ms is Some && heard.now_ms <= state.last_ms->0 + state.cooldown_ms
            ||| wake_word::wake_match(heard.said, state.custom) is Some && (if heard.is_final {
                state.phase == WakeWordPhase::Idle
            } else {
                state.phase != WakeWordPhase::Armed
            }) && state.cooldown_until is Some && heard.now_ms < state.cooldown_until->0
        }),
{
}

/// The cooldown passes: after a wake word that was taken, other words with a
/// wake word are taken again as soon as the cooldown has run out, and the same
/// words after that moment.
pub proof fn law_the_cooldown_ends(state: WakeState, first: Heard, second: Heard)
    requires
        state.mode == WakeWordMode::RequireWakeWord,
        first.is_final,
        ({
            ||| state.decision(first).action == WakeWordAction::PromptDetected
            ||| state.decision(first).action == WakeWordAction::FinalWakeOnly
        }),
        second.is_final,
        second.stream == "mic"@,
        wake_word::wake_match(second.said, state.custom) is Some,
        second.now_ms >= first.now_ms + state.cooldown_ms,
        ({
            ||| wake_word::wake_key(second.said) != wake_word::wake_key(first.said)
            ||| second.now_ms > first.now_ms + state.cooldown_ms
        }),
    ensures
        ({
            let rest = wake_word::wake_match(second.said, state.custom)->0;
            let decision = state.after(first).decision(second);
            &&& decision.clean_prompt == rest
            &&& decision.action == if rest.len() == 0 {
                WakeWordAction::FinalWakeOnly
            } else {
                WakeWordAction::PromptDetected
            }
            &&& decision.is_prompt == (rest.len() > 0)
        }),
{
    wake_word::lemma_spoken_words_have_a_key(first.said);
    law_wake_words_are_taken_outside_the_cooldown(state.after(first), second);
}

/// A wake word heard from rest in a final result is suppressed while the
/// cooldown of the last one runs: neither prompt nor acknowledgement comes of
/// it, and neither the cooldown nor what is remembered changes.
pub proof fn law_echoes_do_not_prolong_the_cooldown(state: WakeState, heard: Heard)
    requires
        state.mode == WakeWordMode::RequireWakeWord,
        heard.stream == "mic"@,
        heard.is_final,
        wake_word::wake_match(heard.said, state.custom) is Some,
        state.phase == WakeWordPhase::Idle,
        state.cooldown_until is Some,
        heard.now_ms < state.cooldown_until->0,
    ensures
        state.decision(heard).action == WakeWordAction::DuplicateSuppressed,
        state.decision(heard).duplicate_suppressed,
        state.decision(heard).cooldown_active,
        !state.decision(heard).is_prompt,
        !state.decision(heard).should_acknowledge,
        state.after(heard).cooldown_until == state.cooldown_until,
        state.after(heard).last_key == state.last_key,
        state.after(heard).last_ms == state.last_ms,
        state.after(heard).phase == WakeWordPhase::Idle,
{
    wake_word::lemma_matched_words_are_spoken(heard.said, state.custom);
}

/// Final words without a wake word are the prompt where one is awaited, and
/// else mere speech. They come back word for word, are never acknowledged,
/// and start no cooldown; only a prompt is remembered.
pub proof fn law_speech_without_a_wake_word(state: WakeState, heard: Heard)
    requires
        state.mode == WakeWordMode::RequireWakeWord,
        heard.stream == "mic"@,
        heard.is_final,
        !text::is_blank(heard.said),
        wake_word::wake_match(heard.said, state.custom) is None,
        ({
            ||| state.last_key != Some(wake_word::wake_key(heard.said))
            ||| state.last_ms is None
            ||| heard.now_ms > state.last_ms->0 + state.cooldown_ms
        }),
    ensures
        ({
            let awaited = state.phase == WakeWordPhase::AwaitingPrompt;
            let decision = state.decision(heard);
            let next = state.after(heard);
            &&& decision.action == if awaited {
                WakeWordAction::PromptReceived
            } else {
                WakeWordAction::FinalSpeech
            }
            &&& decision.is_prompt == awaited
            &&& decision.clean_prompt == heard.said
            &&& decision.wake_word_checked
            &&& !decision.wake_word_detected
            &&& !decision.should_acknowledge
            &&& !decision.duplicate_suppressed
            &&& next.phase == WakeWordPhase::Idle
            &&& next.cooldown_until == state.cooldown_until
            &&& awaited ==> next.last_key == Some(wake_word::wake_key(heard.said))
            &&& awaited ==> next.last_ms == Some(heard.now_ms)
            &&& !awaited ==> next.last_key == state.last_key
            &&& !awaited ==> next.last_ms == state.last_ms
        }),
{
    wake_word::lemma_spoken_words_have_a_key(heard.said);
}

/// A partial result with a wake word arms an utterance once the cooldown is
/// over: the user is told at once where the wake word stands alone, and the
/// words that are left are kept as a candidate. During the cooldown it changes
/// nothing. In an armed utterance it renews the candidate and nothing else.
pub proof fn law_partial_wake_words_arm_once(state: WakeState, heard: Heard)
    requires
        state.mode == WakeWordMode::RequireWakeWord,
        heard.stream == "mic"@,
        !heard.is_final,
        wake_word::wake_match(heard.said, state.custom) is Some,
    ensures
        ({
            let rest = wake_word::wake_match(heard.said, state.custom)->0;
            let decision = state.decision(heard);
            let next = state.after(heard);
            let over = state.cooldown_until is None || heard.now_ms >= state.cooldown_until->0;
            &&& decision.wake_word_checked
            &&& decision.wake_word_detected
            &&& decision.clean_prompt == rest
            &&& !decision.is_prompt
            &&& if state.phase == WakeWordPhase::Armed {
                &&& decision.action == WakeWordAction::PartialWakeDetected
                &&& !decision.should_acknowledge
                &&& decision.duplicate_suppressed
                &&& next.phase == WakeWordPhase::Armed
                &&& next.acknowledged == state.acknowledged
                &&& next.cooldown_until == state.cooldown_until
                &&& rest.len() > 0 ==> next.provisional == rest
                &&& rest.len() == 0 ==> next.provisional == state.provisional
            } else if over {
                &&& decision.action == WakeWordAction::PartialWakeDetected
                &&& decision.should_acknowledge == (rest.len() == 0)
                &&& decision.cooldown_active
                &&& !decision.duplicate_suppressed
                &&& next.phase == WakeWordPhase::Armed
                &&& next.acknowledged == (rest.len() == 0)
                &&& next.provisional == rest
                &&& next.cooldown_until is Some
                &&& next.cooldown_until->0 == if heard.now_ms + state.cooldown_ms <= u64::MAX {
                    heard.now_ms + state.cooldown_ms
                } else {
                    u64::MAX as int
                }
            } else {
                &&& decision.action == WakeWordAction::DuplicateSuppressed
                &&& !decision.should_acknowledge
                &&& decision.duplicate_suppressed
                &&& next == state
            }
        }),
{
    wake_word::lemma_matched_words_are_spoken(heard.said, state.custom);
    let rest = wake_word::wake_match(heard.said, state.custom)->0;
    assert(rest.len() == 0 ==> rest == Seq::<char>::empty());
}

/// A partial result without a wake word changes nothing. It is shown as the
/// beginning of the prompt where one is awaited, and else ignored.
pub proof fn law_partial_speech_changes_nothing(state: WakeState, heard: Heard)
    requires
        heard.stream == "mic"@,
        !heard.is_final,
        ({
            ||| state.mode == WakeWordMode::AllFinalSpeech
            ||| wake_word::wake_match(heard.said, state.custom) is None
        }),
    ensures
        state.after(heard) == state,
        ({
            let shown = state.mode != WakeWordMode::Disabled && !text::is_blank(heard.said)
                && state.phase == WakeWordPhase::AwaitingPrompt;
            let decision = state.decision(heard);
            &&& decision.action == if shown {
                WakeWordAction::PartialPromptCandidate
            } else {
                WakeWordAction::Ignored
            }
            &&& decision.is_prompt == shown
            &&& decision.clean_prompt == heard.said
            &&& !decision.wake_word_detected
            &&& !decision.should_acknowledge
            &&& !decision.duplicate_suppressed
        }),
{
}

/// Where no wake word is required, all final words are a prompt, word for
/// word, however often they come and whatever the cooldown.
pub proof fn law_all_final_speech_is_taken(state: WakeState, heard: Heard)
    requires
        state.mode == WakeWordMode::AllFinalSpeech,
        heard.stream == "mic"@,
        heard.is_final,
        !text::is_blank(heard.said),
    ensures
        state.decision(heard).action == WakeWordAction::PromptReceived,
        state.decision(heard).is_prompt,
        state.decision(heard).clean_prompt == heard.said,
        !state.decision(heard).wake_word_checked,
        !state.decision(heard).wake_word_detected,
        !state.decision(heard).should_acknowledge,
        !state.decision(heard).duplicate_suppressed,
        state.after(heard).phase == WakeWordPhase::Idle,
        state.after(heard).cooldown_until == state.cooldown_until,
        state.after(heard).last_key == state.last_key,
{
}

/// A blank result is ignored. A final one gives up an utterance that was being
/// revised, while a prompt that is awaited stays awaited.
pub proof fn law_blank_results_are_ignored(state: WakeState, heard: Heard)
    requires
        text::is_blank(heard.said),
    ensures
        state.decision(heard).action == WakeWordAction::Ignored,
        state.decision(heard).clean_prompt == heard.said,
        !state.decision(heard).wake_word_checked,
        !state.decision(heard).should_acknowledge,
        !state.decision(heard).is_prompt,
        !heard.is_final ==> state.after(heard) == state,
        state.after(heard).cooldown_until == state.cooldown_until,
        state.after(heard).last_key == state.last_key,
        state.phase == WakeWordPhase::AwaitingPrompt ==> state.after(heard).phase
            == WakeWordPhase::AwaitingPrompt,
        heard.is_final && heard.stream == "mic"@ && state.mode != WakeWordMode::Disabled
            && state.phase == WakeWordPhase::Armed ==> state.after(heard).phase
            == WakeWordPhase::Idle,
{
}

/// A decision names its result, its session and the detector, and the phase
/// that the machine is in after it. No result changes the settings or the
/// session.
pub proof fn law_decisions_name_their_result(state: WakeState, heard: Heard)
    ensures
        state.decision(heard).stream == heard.stream,
        state.decision(heard).is_final == heard.is_final,
        state.decision(heard).engine == "whisper_vad"@,
        state.decision(heard).session_generation == state.generation,
        state.decision(heard).phase == state.after(heard).phase,
        state.after(heard).generation == state.generation,
        state.after(heard).custom == state.custom,
        state.after(heard).mode == state.mode,
        state.after(heard).cooldown_ms == state.cooldown_ms,
        state.cooldown_until is Some && heard.now_ms < state.cooldown_until->0
            ==> state.decision(heard).cooldown_active,
        state.decision(heard).cooldown_active ==> {
            ||| state.cooldown_until is Some && heard.now_ms < state.cooldown_until->0
            ||| state.after(heard).cooldown_until is Some && state.after(heard).cooldown_until->0
                >= heard.now_ms
        },
{
}

/// What was heard before a machine starts over has no effect: two machines
/// with the same settings decide alike afterwards, and the first wake word is
/// taken at once.
pub proof fn law_starting_over_forgets_everything(a: WakeState, b: WakeState)
    requires
        a.custom == b.custom,
        a.mode == b.mode,
        a.cooldown_ms == b.cooldown_ms,
        a.generation == b.generation,
    ensures
        a.fresh() == b.fresh(),
        a.fresh().custom == a.custom,
        a.fresh().mode == a.mode,
        a.fresh().cooldown_ms == a.cooldown_ms,
        a.fresh().generation == a.generation,
        a.fresh().phase == WakeWordPhase::Idle,
        a.fresh().provisional.len() == 0,
        !a.fresh().acknowledged,
        a.fresh().cooldown_until is None,
        a.fresh().last_key is None,
        a.fresh().last_ms is None,
{
}

/// A new machine has its settings, and has heard nothing: it is what starting
/// over leaves.
pub proof fn law_new_machines_have_heard_nothing(config: WakeWordConfig)
    ensures
        initial_state(config).custom == wake_word::texts_of(config.custom_wake_words@),
        initial_state(config).mode == config.mode,
        initial_state(config).cooldown_ms == config.cooldown_ms,
        initial_state(config).generation == 0,
        initial_state(config).fresh() == initial_state(config),
        initial_state(config).valid(),
{
}

/// The recogniser as far as wake words go.
pub struct AsrEngine {
    wake_word: WakeWordStateMachine,
}

impl View for AsrEngine {
    type V = WakeState;

    closed spec fn view(&self) -> WakeState {
        self.wake_word@
    }
}

impl AsrEngine {
    /// An engine with the default wake-word settings.
    pub fn new() -> (res: Self)
        ensures
            res@.valid(),
            exists|config: WakeWordConfig|
                #![trigger initial_state(config)]
                config.custom_wake_words@ == Seq::<String>::empty() && config.mode
                    == WakeWordMode::RequireWakeWord && config.cooldown_ms
                    == DEFAULT_WAKE_WORD_COOLDOWN_MS && res@ == initial_state(config),
    {
        AsrEngine { wake_word: WakeWordStateMachine::new() }
    }

    pub fn configure_wake_word(&mut self, config: WakeWordConfig)
        ensures
            final(self)@ == (WakeState {
                generation: old(self)@.generation,
                ..initial_state(config)
            }),
    {
        self.wake_word.set_config(config);
    }

    pub fn begin_wake_word_session(&mut self, generation: u64)
        ensures
            final(self)@ == (WakeState { generation, ..old(self)@.fresh() }),
    {
        self.wake_word.begin_session(generation);
    }

    pub fn on_wake_word_generation_changed(&mut self, generation: u64) -> (res: bool)
        ensures
            res == (old(self)@.generation != generation),
            final(self)@ == if res {
                WakeState { generation, ..old(self)@.fresh() }
            } else {
                old(self)@
            },
    {
        self.wake_word.on_generation_changed(generation)
    }

    pub fn reset_wake_word_on_silence(&mut self)
        ensures
            final(self)@ == old(self)@.settled(),
    {
        self.wake_word.reset_on_silence();
    }

    pub fn reset_wake_word_on_stop(&mut self)
        ensures
            final(self)@ == old(self)@.fresh(),
    {
        self.wake_word.reset_on_stop();
    }

    pub fn handle_wake_word(
        &mut self,
        stream: &str,
        said: &str,
        is_final: bool,
        now_ms: u64,
    ) -> (res: WakeWordDecision)
        ensures
            res@ == old(self)@.decision(
                Heard { stream: stream@, said: said@, is_final, now_ms },
            ),
            final(self)@ == old(self)@.after(
                Heard { stream: stream@, said: said@, is_final, now_ms },
            ),
            old(self)@.valid() ==> final(self)@.valid(),
    {
        self.wake_word.handle_asr(stream, said, is_final, now_ms)
    }

    /// Tells whether a wake word stands in the words, and gives what is left
    /// once it is removed; without a wake word the words come back as they are.
    pub fn check_wake_word(said: &str, custom_wake_words: &Vec<String>) -> (res: (bool, String))
        ensures
            match wake_word::wake_match(said@, wake_word::texts_of(custom_wake_words@)) {
                Some(rest) => res.0 && res.1@ == rest,
                None => !res.0 && res.1@ == said@,
            },
    {
        wake_word::match_wake_word(said, custom_wake_words)
    }
}

} // verus!
