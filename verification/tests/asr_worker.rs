use gameassistant::asr_worker::{
    child_exit_reason, kill_process_on_port, pause_before_attempt, record_child_line,
    server_message, taskkill_process_tree, timeout_of_attempt, waiting_report, worker_environment,
    ChildStatus, ConnectStep, ServerMessage, StartStep, StreamTagger, WarmupStart, WarmupStep,
    WhisperWsClient, ASR_WS_MAX_ATTEMPTS, ASR_WS_RETRY_DELAY_MS, ASR_WS_STARTUP_TIMEOUT_MS,
};
use gameassistant::paths::RuntimePath;

fn attached_client() -> WhisperWsClient {
    let mut client = WhisperWsClient::new();
    let step = client
        .start(false, "asr_server.py", true, "python", true)
        .expect("the files are there");
    assert!(matches!(step, StartStep::Spawn(_)));
    client.worker_attached();
    client
}

#[test]
fn flush_audio_exposes_the_final_only_vad_fallback_command() {
    let client = attached_client();

    let command = client
        .flush_audio(" discord ")
        .expect("flush command must enqueue");

    let value: serde_json::Value = serde_json::from_str(&command).expect("valid JSON");
    assert_eq!(value["cmd"], "flush");
    assert_eq!(value["stream"], "discord");
}

#[test]
fn startup_timeout_has_margin_for_cold_cuda_model_load() {
    let startup_timeout = std::time::Duration::from_millis(ASR_WS_STARTUP_TIMEOUT_MS);
    let retry_delay = std::time::Duration::from_millis(ASR_WS_RETRY_DELAY_MS);
    assert!(
        startup_timeout >= std::time::Duration::from_secs(120),
        "ASR startup timeout must leave margin beyond a 60-second cold model load"
    );
    assert!(
        ASR_WS_MAX_ATTEMPTS as u128 * retry_delay.as_millis() >= startup_timeout.as_millis(),
        "ASR retry budget must cover the complete startup timeout"
    );
}

#[test]
fn a_missing_script_or_interpreter_refuses_the_start() {
    let mut client = WhisperWsClient::new();
    assert_eq!(
        client.start(false, "\"s.py\"", false, "\"p.exe\"", true),
        Err("ASR server script not found at: \"s.py\"".to_string())
    );
    assert_eq!(
        client.start(false, "\"s.py\"", true, "\"p.exe\"", false),
        Err(
            "Portable Python environment is not ready at: \"p.exe\"; run first-launch setup"
                .to_string()
        )
    );
}

#[test]
fn only_the_current_generation_becomes_ready() {
    let mut client = WhisperWsClient::new();
    let first = match client.start(false, "s", true, "p", true) {
        Ok(StartStep::Spawn(generation)) => generation,
        other => panic!("unexpected step: {other:?}"),
    };
    assert_eq!(first, 1);
    client.worker_attached();
    assert!(!client.is_ready());
    assert!(!client.accepts_audio());
    assert_eq!(
        client.start(true, "s", true, "p", true),
        Ok(StartStep::AlreadyRunning)
    );
    client.stop();
    let second = match client.start(false, "s", true, "p", true) {
        Ok(StartStep::Spawn(generation)) => generation,
        other => panic!("unexpected step: {other:?}"),
    };
    assert_eq!(second, 3);
    client.worker_attached();
    assert!(!client.connected(first));
    assert!(!client.is_ready());
    assert!(!client.cleanup_failed_worker(first));
    assert!(client.connected(second));
    assert!(client.is_ready());
    assert!(client.accepts_audio());
    assert!(client.cleanup_failed_worker(second));
    assert!(!client.is_ready());
}

#[test]
fn a_failed_spawn_can_be_tried_again() {
    let mut client = WhisperWsClient::new();
    assert!(client.start(false, "s", true, "p", true).is_ok());
    client.spawn_failed();
    assert_eq!(client.warmup(), WarmupStart::Start);
}

#[test]
fn a_warmup_uses_what_runs() {
    let mut client = attached_client();
    assert_eq!(client.warmup(), WarmupStart::UseRunning);
    client.stop_process_only();
    assert_eq!(client.warmup(), WarmupStart::StopThenStart);
}

#[test]
fn a_warmup_ends_in_readiness_failure_or_timeout() {
    let mut client = attached_client();
    assert!(matches!(
        client.warmup_step(0, None, 0, 1000),
        WarmupStep::Wait(100)
    ));
    assert!(matches!(
        client.warmup_step(0, None, 950, 1000),
        WarmupStep::Wait(50)
    ));
    assert!(matches!(
        client.warmup_step(0, Some("gone".to_string()), 0, 1000),
        WarmupStep::ChildFailed(_)
    ));
    match client.warmup_step(0, None, 1000, 1000) {
        WarmupStep::TimedOut(message) => {
            assert_eq!(message, "ASR WebSocket server warmup timed out after 180s")
        }
        other => panic!("unexpected step: {other:?}"),
    }
    assert!(matches!(
        client.warmup_step(ASR_WS_MAX_ATTEMPTS, None, 0, 1000),
        WarmupStep::TimedOut(_)
    ));
    assert!(client.connected(1));
    assert!(matches!(
        client.warmup_step(0, Some("gone".to_string()), 0, 1000),
        WarmupStep::Ready
    ));
}

#[test]
fn commands_need_an_open_connection() {
    let client = WhisperWsClient::new();
    assert_eq!(
        client.flush_audio("mic"),
        Err("WebSocket connection not active".to_string())
    );
    assert!(client.set_preallocate_vram(true).is_err());
    assert!(client.reset_audio().is_none());
    assert!(client
        .embed_texts("1", &vec!["a".to_string()])
        .is_err());
    assert_eq!(client.embed_texts("1", &Vec::new()), Ok(None));
}

#[test]
fn commands_are_written_as_json() {
    let client = attached_client();
    assert_eq!(
        client.flush_audio("  "),
        Ok(r#"{"cmd":"flush","stream":"mic"}"#.to_string())
    );
    assert_eq!(
        client.set_preallocate_vram(true),
        Ok(r#"{"cmd":"preallocate_vram","enable":true}"#.to_string())
    );
    assert_eq!(
        client.set_preallocate_vram(false),
        Ok(r#"{"cmd":"preallocate_vram","enable":false}"#.to_string())
    );
    assert_eq!(client.reset_audio(), Some(r#"{"cmd":"reset"}"#.to_string()));
    let texts = vec!["say \"hi\"\n".to_string(), "猫".to_string()];
    let command = client.embed_texts("r\\1", &texts).unwrap().unwrap();
    let mut wanted = serde_json::Map::new();
    wanted.insert("cmd".to_string(), "embed".into());
    wanted.insert("id".to_string(), "r\\1".into());
    wanted.insert("texts".to_string(), texts.into());
    assert_eq!(command, serde_json::Value::Object(wanted).to_string());
}

#[test]
fn attempts_never_pass_the_deadline() {
    assert_eq!(pause_before_attempt(1, 0, 1000), ConnectStep::Wait(100));
    assert_eq!(pause_before_attempt(1, 960, 1000), ConnectStep::Wait(40));
    assert_eq!(pause_before_attempt(1, 1000, 1000), ConnectStep::GiveUp);
    assert_eq!(pause_before_attempt(1801, 0, 1000), ConnectStep::GiveUp);
    assert_eq!(timeout_of_attempt(0, 1000), ConnectStep::Connect(750));
    assert_eq!(timeout_of_attempt(700, 1000), ConnectStep::Connect(300));
    assert_eq!(timeout_of_attempt(1000, 1000), ConnectStep::GiveUp);
    assert_eq!(waiting_report(7, 750), None);
    assert_eq!(
        waiting_report(16, 750),
        Some(
            "Waiting for ASR WebSocket server (attempt 16/1800, connection timeout 750ms)"
                .to_string()
        )
    );
}

#[test]
fn a_child_that_ended_is_reported() {
    assert_eq!(child_exit_reason(ChildStatus::Missing), None);
    assert_eq!(child_exit_reason(ChildStatus::Running), None);
    assert_eq!(
        child_exit_reason(ChildStatus::Exited("exit status: 1".to_string())),
        Some(
            "ASR server child exited before WebSocket readiness (status exit status: 1)"
                .to_string()
        )
    );
    assert_eq!(
        child_exit_reason(ChildStatus::Unknown("denied".to_string())),
        Some("Unable to inspect ASR server child process: denied".to_string())
    );
}

#[test]
fn a_stream_is_named_when_it_changes() {
    let mut tagger = StreamTagger::new();
    assert_eq!(
        tagger.tag_for("mic"),
        Some(r#"{"cmd":"audio_stream","stream":"mic"}"#.to_string())
    );
    assert_eq!(tagger.tag_for("mic"), None);
    assert!(tagger.tag_for("discord").is_some());
    tagger.command_sent(r#"{"cmd":"flush","stream":"mic"}"#);
    assert_eq!(tagger.tag_for("discord"), None);
    tagger.command_sent("not json");
    assert_eq!(tagger.tag_for("discord"), None);
    tagger.command_sent(r#" { "cmd" : "reset" } "#);
    assert!(tagger.tag_for("discord").is_some());
}

#[test]
fn messages_of_the_server_are_read() {
    match server_message(r#"{"text":"ねえ","is_final":true,"latency_ms":12.5,"stream":"discord"}"#) {
        ServerMessage::Speech {
            stream,
            text,
            is_final,
            latency_ms,
        } => {
            assert_eq!(stream, "discord");
            assert_eq!(text, "ねえ");
            assert!(is_final);
            assert_eq!(latency_ms.as_deref(), Some("12.5"));
        }
        other => panic!("unexpected message: {other:?}"),
    }
    match server_message(r#"{"text":"x","is_final":"yes"}"#) {
        ServerMessage::Speech {
            stream,
            is_final,
            latency_ms,
            ..
        } => {
            assert_eq!(stream, "mic");
            assert!(!is_final);
            assert!(latency_ms.is_none());
        }
        other => panic!("unexpected message: {other:?}"),
    }
    match server_message(
        r#"{"type":"embed_res","id":"7","vectors":[[1,0.5,"x"],"no row",[]],"text":"y"}"#,
    ) {
        ServerMessage::Embedding { id, vectors } => {
            assert_eq!(id, "7");
            assert_eq!(
                vectors,
                vec![vec!["1".to_string(), "0.5".to_string()], Vec::new()]
            );
        }
        other => panic!("unexpected message: {other:?}"),
    }
    assert!(matches!(
        server_message(r#"{"type":"embed_res","text":"x"}"#),
        ServerMessage::Other
    ));
    assert!(matches!(
        server_message(r#"{"text":5}"#),
        ServerMessage::Other
    ));
    assert!(matches!(server_message("{"), ServerMessage::Other));
}

#[test]
fn child_lines_are_logged_by_their_stream() {
    assert_eq!(record_child_line("stdout", "  \t"), None);
    assert_eq!(
        record_child_line("stdout", " an Error "),
        Some(("INFO", "an Error".to_string()))
    );
    assert_eq!(
        record_child_line("stderr", "Traceback (most recent call last)"),
        Some(("ERROR", "Traceback (most recent call last)".to_string()))
    );
    assert_eq!(
        record_child_line("stderr", "loading"),
        Some(("WARNING", "loading".to_string()))
    );
}

#[test]
fn only_foreign_processes_on_the_port_are_ended() {
    let listing = "  Proto  Local Address          Foreign Address        State           PID\n\
        \x20 TCP    127.0.0.1:18088        0.0.0.0:0              LISTENING       4321\n\
        \x20 TCP    127.0.0.1:118088       0.0.0.0:0              LISTENING       99\n\
        \x20 TCP    127.0.0.1:18088        0.0.0.0:0              LISTENING       77\n\
        \x20 TCP    127.0.0.1:18088        0.0.0.0:0              LISTENING       0\n\
        \x20 TCP    127.0.0.1:18088        0.0.0.0:0              x\n";
    assert_eq!(kill_process_on_port(listing, 18088, 77), vec![4321]);
    assert!(!taskkill_process_tree(0, 1));
    assert!(!taskkill_process_tree(5, 5));
    assert!(taskkill_process_tree(6, 5));
}

#[test]
fn the_worker_keeps_its_caches_below_the_root() {
    let root = RuntimePath::from_root("C:/app");
    let models = root.join("models");
    let variables = worker_environment(&root, &models);
    assert_eq!(variables.len(), 9);
    assert_eq!(variables[0], ("RUNTIME_ROOT", RuntimePath::from_root("C:/app")));
    assert_eq!(variables[1], ("SETTINGS_PATH", root.join("settings.json")));
    assert_eq!(variables[2], ("MODELS_DIR", models));
    for variable in &variables[3..] {
        assert_eq!(variable.1, root.join(".hf-cache"));
    }
}
