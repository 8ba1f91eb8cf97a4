use gameassistant::audio::list_input_devices;
use gameassistant::audio_input::{
    choose_device, connecting_message, find_device, meter_is_due, AudioInputManager, AudioSource,
    DeviceChoice, OpenOutcome,
};
use gameassistant::logger::{
    global_debug, global_error, global_info, global_log, global_log_at, global_warn,
    set_global_logger, GlobalLogger, LogManager, LOG_HISTORY,
};
use gameassistant::paths::RuntimePath;
use gameassistant::runtime_init::{
    check_probe_embedding, initialize_runtime, join_runtime_initialization_task,
    set_runtime_initialization_stage, update_runtime_initialization_progress, InitEntry, InitPhase,
    InitRun, RuntimeInitializationStatus,
};

#[test]
fn writes_app_log_under_the_injected_runtime_root() {
    let root = RuntimePath::from_root("/runtime");
    let mut logger = LogManager::new(RuntimePath::from_root("/runtime"));
    let entry = logger.info("Test", "rooted log");
    assert_eq!(logger.log_path(), root.join("data").join("app.log"));
    assert_eq!(
        entry.line(),
        format!("[{}] [INFO] [Test] rooted log", entry.timestamp)
    );
    assert_eq!(entry.kind, "log");
}

#[test]
fn entries_are_logged_at_a_time() {
    let mut logger = LogManager::new(RuntimePath::from_root("/runtime"));
    let entry = logger.log_at("CRITICAL", "Test", "rooted log", "12:00:00");
    assert_eq!(entry.line(), "[12:00:00] [CRITICAL] [Test] rooted log");
    let entry = logger.log("INFO", "Test", "now");
    let shape: String = entry
        .timestamp
        .chars()
        .map(|c| if c.is_ascii_digit() { '0' } else { c })
        .collect();
    assert_eq!(shape, "00:00:00..000");
    assert_eq!(logger.get_logs().len(), 2);
}

#[test]
fn the_log_keeps_the_newest_entries() {
    let mut logger = LogManager::new(RuntimePath::from_root("/r"));
    for n in 0..LOG_HISTORY + 3 {
        logger.debug("L", &n.to_string());
    }
    let logs = logger.get_logs();
    assert_eq!(logs.len(), LOG_HISTORY);
    assert_eq!(logs[0].message, "3");
    assert_eq!(logs[0].level, "DEBUG");
    assert_eq!(logs[LOG_HISTORY - 1].message, (LOG_HISTORY + 2).to_string());
    logger.clear();
    assert!(logger.get_logs().is_empty());
    assert_eq!(logger.warn("L", "m").level, "WARNING");
    assert_eq!(logger.error("L", "m").level, "ERROR");
}

#[test]
fn lines_before_the_logger_is_there_have_no_time() {
    let mut global = GlobalLogger::new();
    assert_eq!(global_info(&mut global, "L", "m"), "[INFO] [L] m");
    assert_eq!(global_log(&mut global, "X", "L", "m"), "[X] [L] m");
    set_global_logger(&mut global, LogManager::new(RuntimePath::from_root("/r")));
    assert!(global_info(&mut global, "L", "m").ends_with("] [INFO] [L] m"));
    assert!(global_warn(&mut global, "L", "m").ends_with("] [WARNING] [L] m"));
    assert!(global_error(&mut global, "L", "m").ends_with("] [ERROR] [L] m"));
    assert!(global_debug(&mut global, "L", "m").ends_with("] [DEBUG] [L] m"));
    assert_eq!(global_log_at(&mut global, "INFO", "L", "m", "t"), "[t] [INFO] [L] m");
}

#[test]
fn devices_are_listed_after_the_default_one() {
    let names: Vec<String> = ["Mic", " ", "Mic", "Default (System Default)", "Line"]
        .iter()
        .map(|name| name.to_string())
        .collect();
    let devices = list_input_devices(&names);
    assert_eq!(
        devices.input_devices,
        vec!["Default (System Default)", "Mic", "Line"]
    );
    assert_eq!(
        devices.default_device.as_deref(),
        Some("Default (System Default)")
    );
}

#[test]
fn a_device_is_chosen_by_its_name() {
    for name in [None, Some(""), Some("Default"), Some("Default (System Default)")] {
        let choice = choose_device(&name.map(|name| name.to_string()));
        assert!(matches!(choice, DeviceChoice::Default));
    }
    let choice = choose_device(&Some("Mic".to_string()));
    let names = vec![None, Some("Line".to_string()), Some("Mic".to_string())];
    assert_eq!(find_device(&names, &choice), Some(2));
    assert_eq!(find_device(&names, &DeviceChoice::Named("X".to_string())), None);
    assert_eq!(find_device(&names, &DeviceChoice::Default), None);
}

#[test]
fn streams_start_and_stop() {
    let mut manager = AudioInputManager::new();
    assert!(!manager.is_running());
    assert!(!manager.starting(AudioSource::Mic));
    let log = manager.opened(AudioSource::Mic, &OpenOutcome::NoDevice).unwrap();
    assert_eq!(
        (log.level, log.logger, log.message.as_str()),
        ("ERROR", "Audio", "No audio input device found")
    );
    assert!(!manager.is_running());
    assert!(manager
        .opened(AudioSource::Mic, &OpenOutcome::NotStarted)
        .is_none());
    let log = manager.opened(AudioSource::Mic, &OpenOutcome::Running).unwrap();
    assert_eq!(log.message, "Microphone stream active");
    assert!(manager.is_running());
    assert!(manager.starting(AudioSource::Mic));
    let log = manager
        .opened(AudioSource::Discord, &OpenOutcome::NoConfig("x".to_string()))
        .unwrap();
    assert_eq!(
        (log.logger, log.message.as_str()),
        ("Discord", "Failed to get default config: x")
    );
    assert!(manager
        .opened(AudioSource::Discord, &OpenOutcome::NotBuilt("x".to_string()))
        .is_none());
    let log = manager
        .opened(AudioSource::Mic, &OpenOutcome::NotBuilt("x".to_string()))
        .unwrap();
    assert_eq!(log.message, "Failed to build mic stream: x");
    assert_eq!(manager.stop().message, "All audio streams stopped");
    assert!(!manager.is_running());
    manager.opened(AudioSource::Discord, &OpenOutcome::Running);
    assert!(!manager.is_running());
    assert_eq!(
        connecting_message(AudioSource::Mic, "M", 48000, 2),
        "Connecting to microphone: 'M' (sample_rate: 48000, channels: 2)"
    );
    assert_eq!(
        connecting_message(AudioSource::Discord, "D", 16000, 1),
        "Starting Discord Audio Capture stream on 'D' (sample_rate: 16000, channels: 1)"
    );
    assert!(!meter_is_due(49));
    assert!(meter_is_due(50));
}

#[test]
fn idle_engines_are_pending() {
    let status = RuntimeInitializationStatus::idle();
    assert_eq!(status.status, "idle");
    assert_eq!(
        status.message.as_deref(),
        Some("初期化を開始する準備をしています。")
    );
    let stages: Vec<(&str, &str, &str)> = status
        .stages
        .iter()
        .map(|stage| (stage.id.as_str(), stage.label.as_str(), stage.status.as_str()))
        .collect();
    assert_eq!(
        stages,
        vec![
            ("asr", "ASR / Faster-Whisper", "pending"),
            ("embedding", "GLuCoSE-base-ja", "pending"),
            ("memory_v2", "memory-v2", "pending"),
        ]
    );
}

#[test]
fn stages_are_set_by_their_name() {
    let mut status = RuntimeInitializationStatus::idle();
    set_runtime_initialization_stage(&mut status, "embedding", "completed", 250, 9, None);
    assert_eq!(status.stages[1].status, "completed");
    assert_eq!(status.stages[1].progress, 100);
    assert_eq!(status.stages[1].elapsed_ms, 9);
    set_runtime_initialization_stage(&mut status, "other", "completed", 100, 9, None);
    update_runtime_initialization_progress(&mut status);
    assert_eq!(status.progress, 33);
    set_runtime_initialization_stage(&mut status, "asr", "completed", 100, 9, None);
    update_runtime_initialization_progress(&mut status);
    assert_eq!(status.progress, 67);
}

#[test]
fn ended_tasks_are_told_with_their_lane() {
    assert_eq!(join_runtime_initialization_task(Ok(None), "ASR"), None);
    assert_eq!(
        join_runtime_initialization_task(Ok(Some("e".to_string())), "ASR"),
        Some("e".to_string())
    );
    assert_eq!(
        join_runtime_initialization_task(Err("gone".to_string()), "ASR"),
        Some("ASR initialization task failed: gone".to_string())
    );
    assert_eq!(check_probe_embedding(1, 768), None);
    assert_eq!(
        check_probe_embedding(2, 7),
        Some("GLuCoSEの埋め込み結果が不正です（2件、7次元）。".to_string())
    );
}

#[test]
fn an_initialization_is_not_repeated() {
    let mut status = RuntimeInitializationStatus::idle();
    assert!(matches!(
        initialize_runtime(&mut status, Some("not ready")),
        InitEntry::Blocked
    ));
    assert_eq!(status.status, "error");
    assert_eq!(status.error.as_deref(), Some("not ready"));
    assert_eq!(
        status.message.as_deref(),
        Some("ランタイムセットアップが完了していません。")
    );
    assert!(matches!(
        initialize_runtime(&mut status, None),
        InitEntry::Start
    ));
    status.status = "completed".to_string();
    status.asr_ready = true;
    status.embedding_ready = true;
    status.memory_v2_ready = true;
    assert!(matches!(
        initialize_runtime(&mut status, Some("not ready")),
        InitEntry::Done
    ));
}

#[test]
fn all_engines_become_ready() {
    let mut run = InitRun::new("start");
    assert_eq!(run.status().started_at.as_deref(), Some("start"));
    run.lanes_started();
    assert_eq!(run.phase(), InitPhase::Asr);
    assert!(run.awaits_memory());
    assert_eq!(run.status().current_stage.as_deref(), Some("asr"));
    run.memory_ended(None, 5);
    assert_eq!(run.status().progress, 33);
    run.asr_ended(None, 7, 8);
    assert_eq!(run.phase(), InitPhase::Others);
    assert_eq!(run.status().progress, 67);
    assert_eq!(run.status().current_stage.as_deref(), Some("embedding"));
    run.embedding_started();
    assert!(run.awaits_embedding());
    run.embedding_ended(None, 9);
    let (status, error) = run.finish(20, "end");
    assert!(error.is_none());
    assert_eq!(status.status, "completed");
    assert_eq!(status.progress, 100);
    assert_eq!(status.elapsed_ms, 20);
    assert_eq!(status.completed_at.as_deref(), Some("end"));
    assert_eq!(
        status.message.as_deref(),
        Some("ASR、GLuCoSE、memory-v2の初期化が完了しました。")
    );
}

#[test]
fn a_failed_recognition_waits_for_the_memory() {
    let mut run = InitRun::new("start");
    run.lanes_started();
    run.asr_ended(Some("no worker".to_string()), 7, 8);
    assert_eq!(run.phase(), InitPhase::MemoryAfterFailure);
    assert_eq!(run.status().status, "error");
    assert_eq!(run.status().elapsed_ms, 8);
    assert_eq!(
        run.status().message.as_deref(),
        Some("ASRの初期化に失敗しました。")
    );
    assert!(run.awaits_memory());
    run.memory_ended(None, 9);
    assert!(run.status().memory_v2_ready);
    let (status, error) = run.finish(10, "end");
    assert_eq!(error.as_deref(), Some("no worker"));
    assert_eq!(status.status, "error");
    assert_eq!(status.error.as_deref(), Some("no worker"));
}

#[test]
fn a_failed_embedding_comes_before_a_failed_memory() {
    let mut run = InitRun::new("start");
    run.lanes_started();
    run.asr_ended(None, 1, 1);
    run.embedding_started();
    run.memory_ended(Some("m".to_string()), 2);
    assert_eq!(
        run.status().message.as_deref(),
        Some("memory-v2の初期化に失敗しました。")
    );
    run.embedding_ended(Some("e".to_string()), 3);
    let (status, error) = run.finish(4, "end");
    assert_eq!(error.as_deref(), Some("e"));
    assert_eq!(status.current_stage.as_deref(), Some("embedding"));
    assert_eq!(
        status.message.as_deref(),
        Some("ローカルエンジンの初期化に失敗しました。")
    );

    let mut run = InitRun::new("start");
    run.lanes_started();
    run.asr_ended(None, 1, 1);
    run.embedding_started();
    run.embedding_ended(None, 3);
    run.memory_ended(Some("m".to_string()), 2);
    let (status, error) = run.finish(4, "end");
    assert_eq!(error.as_deref(), Some("m"));
    assert_eq!(status.current_stage.as_deref(), Some("memory_v2"));
}
