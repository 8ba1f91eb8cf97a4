use gameassistant::generation::DEFAULT_TEMPERATURE;
use gameassistant::lance_memory::{PathPart, PathShape};
use gameassistant::startup::{
    check_migration_root, generation_options, helper_exit_code, load_dotenv, migration_root,
    model_or_default, reject_links, resolve_project_root, resolve_runtime_root,
    resolve_runtime_root_from_exe, restart_whisper, save_setting, session_start, startup_step,
    warmup_asr, RootLink, SettingWrite, StartupStep,
};

fn words(list: &[&str]) -> Vec<String> {
    list.iter().map(|word| word.to_string()).collect()
}

#[test]
fn variables_are_read_line_by_line() {
    let content = "# remark\n\nA=1\r\n  B = two words \nC\n=empty\nD=a=b\n  #E=5\n";
    let settings: Vec<(String, String)> = load_dotenv(content)
        .into_iter()
        .map(|setting| (setting.key, setting.value))
        .collect();
    let wanted: Vec<(String, String)> = [("A", "1"), ("B", "two words"), ("", "empty"), ("D", "a=b")]
        .iter()
        .map(|(key, value)| (key.to_string(), value.to_string()))
        .collect();
    assert_eq!(settings, wanted);
}

#[test]
fn the_setup_starts_by_itself_once_the_terms_are_accepted() {
    let plain = words(&["app"]);
    let helper = words(&["app", "--elevated-setup"]);
    assert_eq!(startup_step(true, false, &helper), StartupStep::UseRuntime);
    assert_eq!(startup_step(false, false, &plain), StartupStep::AwaitTerms);
    assert_eq!(
        startup_step(false, true, &plain),
        StartupStep::RunSetup { hide_window: false }
    );
    assert_eq!(
        startup_step(false, true, &helper),
        StartupStep::RunSetup { hide_window: true }
    );
    assert_eq!(helper_exit_code(true, true), Some(0));
    assert_eq!(helper_exit_code(true, false), Some(1));
    assert_eq!(helper_exit_code(false, false), None);
}

#[test]
fn two_settings_do_more_than_being_saved() {
    assert_eq!(
        save_setting("preallocate_vram", Some(false)),
        SettingWrite::PlainAndVram(false)
    );
    assert_eq!(save_setting("preallocate_vram", None), SettingWrite::Plain);
    assert_eq!(
        save_setting("gemma_terms_accepted", Some(true)),
        SettingWrite::TermsRecord
    );
    assert_eq!(
        save_setting("gemma_terms_accepted", Some(false)),
        SettingWrite::Plain
    );
    assert_eq!(save_setting("other", Some(true)), SettingWrite::Plain);
}

#[test]
fn questions_have_defaults() {
    assert_eq!(model_or_default(None), "gemini-2.0-flash");
    assert_eq!(model_or_default(Some("m".to_string())), "m");
    let options = generation_options(Some("s".to_string()), None, None);
    assert_eq!(options.system_instruction.as_deref(), Some("s"));
    assert_eq!(options.temperature.as_deref(), Some(DEFAULT_TEMPERATURE));
    assert_eq!(options.max_output_tokens, Some(1024));
    assert_eq!(options.thinking_budget, Some(0));
    assert_eq!(
        generation_options(None, None, Some(false)).thinking_budget,
        None
    );
}

#[test]
fn the_root_of_an_import_is_looked_for_in_order() {
    let env = Some("/env".to_string());
    let exe = Some("/exe".to_string());
    assert_eq!(
        migration_root(&words(&["--root", "/arg", "more"]), &env, &exe),
        Ok("/arg".to_string())
    );
    assert_eq!(
        migration_root(&words(&["--root"]), &env, &exe),
        Err("usage: migrate_to_lance [--root <absolute-runtime-root>]".to_string())
    );
    assert!(migration_root(&words(&["--other", "x"]), &env, &exe).is_err());
    assert_eq!(migration_root(&Vec::new(), &env, &exe), Ok("/env".to_string()));
    assert_eq!(migration_root(&Vec::new(), &None, &exe), Ok("/exe".to_string()));
    assert_eq!(
        migration_root(&Vec::new(), &None, &None),
        Err("unable to resolve executable runtime root".to_string())
    );
}

#[test]
fn the_root_of_an_import_is_plain() {
    let good = PathShape {
        absolute: true,
        parts: vec![
            PathPart::Root("/".to_string()),
            PathPart::Normal("a".to_string()),
        ],
    };
    let relative = PathShape {
        absolute: false,
        parts: vec![PathPart::Normal("a".to_string())],
    };
    let rising = PathShape {
        absolute: true,
        parts: vec![PathPart::Root("/".to_string()), PathPart::ParentDir],
    };
    assert!(check_migration_root(&good, &vec![RootLink::Absent]).is_ok());
    let message = "migration root must be an absolute traversal-free path".to_string();
    assert_eq!(
        check_migration_root(&relative, &Vec::new()),
        Err(message.clone())
    );
    assert_eq!(check_migration_root(&rising, &Vec::new()), Err(message));
    assert_eq!(
        reject_links(&vec![RootLink::Absent, RootLink::ReparsePoint, RootLink::Symlink]),
        Err("migration root contains a reparse point".to_string())
    );
    assert_eq!(
        reject_links(&vec![RootLink::Symlink]),
        Err("migration root contains a symlink".to_string())
    );
}

#[test]
fn runtime_root_ignores_an_unrelated_process_cwd() {
    let exe = Some("/exe".to_string());
    assert_eq!(resolve_runtime_root(true, &exe, "/checkout"), "/checkout");
    assert_eq!(resolve_runtime_root(false, &exe, "/checkout"), "/exe");
    assert_eq!(resolve_project_root(false, &None, "/checkout"), "/checkout");
    assert_eq!(resolve_runtime_root_from_exe(&exe, "/checkout"), "/exe");
}

#[test]
fn sessions_and_warmups_need_a_ready_runtime() {
    let fine: Result<(), String> = Ok(());
    let bad: Result<(), String> = Err("x".to_string());
    assert!(session_start(&fine, &fine).is_ok());
    assert_eq!(session_start(&bad, &fine), Err("x".to_string()));
    assert_eq!(
        session_start(&fine, &bad),
        Err("ASR worker is not ready: x".to_string())
    );
    assert_eq!(
        warmup_asr(&bad, &fine),
        Err("ASR warmup blocked: x".to_string())
    );
    assert_eq!(warmup_asr(&fine, &bad), Err("x".to_string()));
    assert_eq!(
        warmup_asr(&fine, &fine),
        Ok("Warmup completed for Faster-Whisper CUDA INT8".to_string())
    );
    assert_eq!(
        restart_whisper(&bad, &fine),
        Err("Whisper restart blocked: x".to_string())
    );
    assert_eq!(
        restart_whisper(&fine, &fine),
        Ok("Whisper GPU worker restarted successfully".to_string())
    );
}
