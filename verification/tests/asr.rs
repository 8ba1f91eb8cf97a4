use gameassistant::asr::{
    AsrEngine, WakeWordAction, WakeWordConfig, WakeWordMode, WakeWordPhase, WakeWordStateMachine,
};

#[test]
fn custom_wake_word_removes_a_spaced_kana_source_phrase() {
    let custom = vec!["ねえぐり".to_string()];

    let result = AsrEngine::check_wake_word("ネ エ グ リ 今日はどう?", &custom);

    assert_eq!(result, (true, "今日はどう?".to_string()));
}

#[test]
fn default_wake_word_matches_kana_and_space_variants() {
    let result = AsrEngine::check_wake_word("ネグ リ 明日の天気は?", &Vec::new());

    assert_eq!(result, (true, "明日の天気は?".to_string()));
}

#[test]
fn wake_word_only_returns_an_empty_prompt() {
    let custom = vec!["ねえぐり".to_string()];

    let result = AsrEngine::check_wake_word("ねえ ぐり", &custom);

    assert_eq!(result, (true, String::new()));
}

#[test]
fn one_breath_wake_word_prompt_is_left_after_source_phrase_removal() {
    let custom = vec!["ねえぐり".to_string()];

    let (matched, clean_prompt) =
        AsrEngine::check_wake_word("ネェグリ ゲームを起動して", &custom);

    assert!(matched);
    assert_eq!(clean_prompt, "ゲームを起動して");
    assert!(clean_prompt.chars().count() >= 2);
}

#[test]
fn partial_short_wake_word_arms_once_before_final() {
    let mut detector = WakeWordStateMachine::new();
    detector.begin_session(7);

    let empty = detector.handle_asr("mic", "   ", false, 0);
    assert_eq!(empty.action, WakeWordAction::Ignored);
    assert!(!empty.wake_word_checked);
    assert!(!empty.wake_word_detected);

    let first = detector.handle_asr("mic", "ねえぐり", false, 1);
    assert_eq!(first.session_generation, 7);
    assert!(first.wake_word_detected);
    assert!(first.should_acknowledge);
    assert!(detector.is_armed());

    let repeated = detector.handle_asr("mic", "ねえぐり", false, 100);
    assert!(repeated.wake_word_detected);
    assert!(!repeated.should_acknowledge);
    assert!(repeated.duplicate_suppressed);
    assert!(detector.is_armed());
}

#[test]
fn final_without_partial_still_detects_wake_and_prompt() {
    let mut detector = WakeWordStateMachine::new();
    detector.begin_session(8);

    let result = detector.handle_asr("mic", "ねえぐり 明日の天気は?", true, 0);
    assert_eq!(result.action, WakeWordAction::PromptDetected);
    assert!(result.wake_word_checked);
    assert!(result.wake_word_detected);
    assert!(result.is_prompt);
    assert!(result.should_acknowledge);
    assert_eq!(result.clean_prompt, "明日の天気は?");

    let duplicate = detector.handle_asr("mic", "ねえぐり 明日の天気は?", true, 100);
    assert_eq!(duplicate.action, WakeWordAction::DuplicateSuppressed);
    assert!(duplicate.duplicate_suppressed);
    assert!(!duplicate.is_prompt);
}

#[test]
fn partial_and_final_one_breath_prompt_produce_one_final_action() {
    let mut detector = WakeWordStateMachine::new();
    detector.begin_session(9);

    let partial_wake = detector.handle_asr("mic", "ねえぐり", false, 0);
    assert_eq!(partial_wake.action, WakeWordAction::PartialWakeDetected);
    assert!(partial_wake.should_acknowledge);

    let partial_prompt = detector.handle_asr("mic", "ねえぐり ゲームを起動して", false, 100);
    assert_eq!(partial_prompt.action, WakeWordAction::PartialWakeDetected);
    assert!(!partial_prompt.should_acknowledge);
    assert!(partial_prompt.duplicate_suppressed);

    let final_prompt = detector.handle_asr("mic", "ねえぐり ゲームを起動して", true, 800);
    assert_eq!(final_prompt.action, WakeWordAction::PromptDetected);
    assert!(!final_prompt.should_acknowledge);
    assert_eq!(final_prompt.clean_prompt, "ゲームを起動して");

    let duplicate_final = detector.handle_asr("mic", "ねえぐり ゲームを起動して", true, 900);
    assert_eq!(duplicate_final.action, WakeWordAction::DuplicateSuppressed);
    assert!(duplicate_final.duplicate_suppressed);
}

#[test]
fn partial_wake_with_trailing_prompt_is_only_a_candidate_until_final() {
    let mut detector = WakeWordStateMachine::new();
    detector.begin_session(90);

    let partial = detector.handle_asr("mic", "ねえぐり ゲームを起動して", false, 0);
    assert_eq!(partial.action, WakeWordAction::PartialWakeDetected);
    assert!(partial.wake_word_detected);
    assert!(!partial.is_prompt);
    assert!(!partial.should_acknowledge);
    assert!(detector.is_armed());

    let final_result = detector.handle_asr("mic", "ねえぐり ゲームを起動して", true, 700);
    assert_eq!(final_result.action, WakeWordAction::PromptDetected);
    assert!(final_result.is_prompt);
    assert!(final_result.should_acknowledge);
    assert_eq!(final_result.clean_prompt, "ゲームを起動して");
}

#[test]
fn wake_only_commits_prompt_collection_and_next_final_is_prompt() {
    let mut detector = WakeWordStateMachine::new();
    detector.begin_session(10);

    let partial = detector.handle_asr("mic", "ねえぐり", false, 0);
    assert!(partial.should_acknowledge);
    assert!(detector.is_armed());
    assert!(detector.is_collecting_prompt());

    let wake_only = detector.handle_asr("mic", "ねえぐり", true, 700);
    assert_eq!(wake_only.action, WakeWordAction::FinalWakeOnly);
    assert!(!wake_only.should_acknowledge);
    assert!(detector.is_collecting_prompt());

    let prompt = detector.handle_asr("mic", "続きの指示", true, 1_000);
    assert_eq!(prompt.action, WakeWordAction::PromptReceived);
    assert!(prompt.is_prompt);
    assert_eq!(prompt.clean_prompt, "続きの指示");
    assert!(!detector.is_collecting_prompt());
}

#[test]
fn silence_stop_and_generation_change_release_provisional_state() {
    let mut detector = WakeWordStateMachine::new();
    detector.begin_session(11);
    let _ = detector.handle_asr("mic", "ねえぐり", false, 0);
    detector.reset_on_silence();
    assert!(!detector.is_armed());
    assert_eq!(detector.phase(), WakeWordPhase::Idle);

    let still_cooling = detector.handle_asr("mic", "ねえぐり", false, 100);
    assert_eq!(still_cooling.action, WakeWordAction::DuplicateSuppressed);
    let rearmed = detector.handle_asr("mic", "ねえぐり", false, 1_800);
    assert_eq!(rearmed.action, WakeWordAction::PartialWakeDetected);
    assert!(rearmed.should_acknowledge);

    detector.reset_on_stop();
    assert_eq!(detector.phase(), WakeWordPhase::Idle);
    assert!(!detector.in_cooldown(1_800));

    let _ = detector.handle_asr("mic", "ねえぐり", false, 2_000);
    assert!(detector.is_armed());
    assert!(detector.on_generation_changed(12));
    assert_eq!(detector.phase(), WakeWordPhase::Idle);
    assert!(!detector.is_collecting_prompt());
    assert!(!detector.in_cooldown(2_001));
}

#[test]
fn discord_wake_word_is_ignored_without_mutating_mic_state() {
    let mut detector = WakeWordStateMachine::new();

    let discord = detector.handle_asr("discord", "ねえぐり", false, 0);
    assert_eq!(discord.action, WakeWordAction::Ignored);
    assert!(!discord.wake_word_checked);
    assert!(!discord.wake_word_detected);
    assert!(!detector.is_armed());

    let mic = detector.handle_asr("mic", "ねえぐり", false, 0);
    assert_eq!(mic.action, WakeWordAction::PartialWakeDetected);
    assert!(mic.should_acknowledge);
}

#[test]
fn default_and_custom_wake_words_share_kana_long_space_width_and_latin_rules() {
    let variants = [
        "ねえぐり",
        "ねぐり",
        "ネグリ",
        "ねーぐり",
        "ねぇぐり",
        "ね〜ぐり",
        "neguri",
        "ＮＥＧＵＲＩ",
        "ﾈｸﾞﾘ",
        "ﾈｰｸﾞﾘ",
    ];
    let custom = vec![" ねえぐり ".to_string()];

    for variant in variants {
        let source = format!("  {variant}  ゲームを起動して");
        let result = AsrEngine::check_wake_word(&source, &custom);
        assert_eq!(result, (true, "ゲームを起動して".to_string()), "{variant}");
    }

    let custom_latin = vec!["ＮＥＧＵＲＩ".to_string()];
    let result = AsrEngine::check_wake_word("ネ エ グ リ 今日は?", &custom_latin);
    assert_eq!(result, (true, "今日は?".to_string()));
}

#[test]
fn asr_engine_wrapper_exposes_state_machine_for_session_callbacks() {
    let mut engine = AsrEngine::new();
    engine.configure_wake_word(WakeWordConfig::new(vec!["ねえぐり".to_string()]));
    engine.begin_wake_word_session(42);

    let partial = engine.handle_wake_word("mic", "ねえぐり", false, 0);
    assert!(partial.wake_word_detected);
    assert!(partial.should_acknowledge);

    let final_result = engine.handle_wake_word("mic", "ねえぐり 起動", true, 700);
    assert_eq!(final_result.action, WakeWordAction::PromptDetected);
    assert_eq!(final_result.clean_prompt, "起動");
}

#[test]
fn empty_wake_word_policy_is_explicitly_selectable() {
    let config = WakeWordConfig::default()
        .with_mode(WakeWordMode::AllFinalSpeech)
        .with_cooldown_ms(0);
    let mut detector = WakeWordStateMachine::with_config(config);

    let partial = detector.handle_asr("mic", "通常の暫定文", false, 0);
    assert_eq!(partial.action, WakeWordAction::Ignored);
    assert!(!partial.wake_word_checked);

    let final_result = detector.handle_asr("mic", "通常の確定文", true, 1);
    assert_eq!(final_result.action, WakeWordAction::PromptReceived);
    assert!(final_result.is_prompt);

    detector.set_config(WakeWordConfig::default().with_mode(WakeWordMode::Disabled));
    let disabled = detector.handle_asr("mic", "ねえぐり 起動", true, 2);
    assert_eq!(disabled.action, WakeWordAction::Ignored);
    assert!(!disabled.wake_word_checked);
}

#[test]
fn sessions_and_silence_reset_the_engine() {
    let mut engine = AsrEngine::new();
    engine.configure_wake_word(WakeWordConfig::new(vec!["アシスタント".to_string()]));
    engine.begin_wake_word_session(4);
    assert!(!engine.on_wake_word_generation_changed(4));
    let armed = engine.handle_wake_word("mic", "アシスタント", false, 1000);
    assert_eq!(armed.phase, WakeWordPhase::Armed);
    engine.reset_wake_word_on_silence();
    let silent = engine.handle_wake_word("mic", "天気は", true, 1500);
    assert_eq!(silent.action, WakeWordAction::FinalSpeech);
    assert!(silent.cooldown_active);
    engine.reset_wake_word_on_stop();
    let stopped = engine.handle_wake_word("mic", "天気は", true, 1500);
    assert!(!stopped.cooldown_active);
    assert!(engine.on_wake_word_generation_changed(5));
    let next = engine.handle_wake_word("mic", "天気は", true, 1500);
    assert_eq!(next.session_generation, 5);
}
