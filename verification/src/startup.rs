//! What the program decides when it starts, and the defaults of its commands.
use vstd::prelude::*;

use crate::generation::{AiGenerateOptions, DEFAULT_TEMPERATURE};
use crate::lance_memory;
use crate::lance_memory::PathShape;
use crate::text;

verus! {

/// A variable of the environment.
#[derive(Debug)]
pub struct EnvSetting {
    pub key: String,
    pub value: String,
}

/// A variable of the environment.
pub struct SettingModel {
    pub key: Seq<char>,
    pub value: Seq<char>,
}

impl View for EnvSetting {
    type V = SettingModel;

    open spec fn view(&self) -> SettingModel {
        SettingModel { key: self.key@, value: self.value@ }
    }
}

pub open spec fn setting_views(list: Seq<EnvSetting>) -> Seq<SettingModel> {
    list.map_values(|s: EnvSetting| s@)
}

/// The variable that a line sets: what stands before the first equals sign, and
/// what stands after it. Blank lines and remarks set none.
pub open spec fn setting_of(line: Seq<char>) -> Option<SettingModel> {
    let trimmed = text::trimmed(line);
    if trimmed.len() == 0 || trimmed[0] == '#' {
        None
    } else {
        match text::find_from(trimmed, "="@, 0) {
            Some(at) => Some(
                SettingModel {
                    key: text::trimmed(trimmed.take(at)),
                    value: text::trimmed(trimmed.skip(at + 1)),
                },
            ),
            None => None,
        }
    }
}

/// The variables that some lines set, in order.
pub open spec fn settings_of(lines: Seq<Seq<char>>) -> Seq<SettingModel>
    decreases lines.len(),
{
    if lines.len() == 0 {
        Seq::empty()
    } else {
        match setting_of(lines.last()) {
            Some(setting) => settings_of(lines.drop_last()).push(setting),
            None => settings_of(lines.drop_last()),
        }
    }
}

pub open spec fn opt_setting(setting: Option<EnvSetting>) -> Option<SettingModel> {
    match setting {
        Some(found) => Some(found@),
        None => None,
    }
}

fn read_setting(line: &str) -> (res: Option<EnvSetting>)
    ensures
        opt_setting(res) == setting_of(line@),
{
    let trimmed = text::trim_text(line);
    let chars = text::chars_of(trimmed.as_str());
    if chars.len() == 0 || chars[0] == '#' {
        return None;
    }
    let equals: Vec<char> = vec!['='];
    proof {
        reveal_strlit("=");
        assert(equals@ == "="@);
        text::lemma_find_from(chars@, equals@, 0);
    }
    match text::find_text_from(&chars, &equals, 0) {
        Some(at) => {
            let total: usize = chars.len();
            let key = text::string_of_range(&chars, 0, at);
            let value = text::string_of_range(&chars, at + 1, total);
            assert(chars@.subrange(0, at as int) == chars@.take(at as int));
            assert(chars@.subrange(at + 1, total as int) == chars@.skip(at + 1));
            Some(
                EnvSetting {
                    key: text::trim_text(key.as_str()),
                    value: text::trim_text(value.as_str()),
                },
            )
        },
        None => None,
    }
}

/// The variables that a file sets, in order. Whoever applies them leaves alone
/// what is set already.
pub fn load_dotenv(content: &str) -> (res: Vec<EnvSetting>)
    ensures
        setting_views(res@) == settings_of(text::lines(content@)),
{
    let lines = text::split_lines(content);
    let ghost all = text::views(lines@);
    let mut res: Vec<EnvSetting> = Vec::new();
    let mut i: usize = 0;
    assert(setting_views(res@) == settings_of(all.take(0)));
    while i < lines.len()
        invariant
            i <= lines@.len(),
            all == text::views(lines@),
            setting_views(res@) == settings_of(all.take(i as int)),
        decreases lines@.len() - i,
    {
        let ghost before = res@;
        assert(all[i as int] == lines@[i as int]@);
        if let Some(setting) = read_setting(lines[i].as_str()) {
            let ghost model = setting@;
            res.push(setting);
            assert(setting_views(res@) == setting_views(before).push(model));
        }
        i += 1;
        assert(all.take(i as int).drop_last() == all.take(i - 1));
        assert(all.take(i as int).last() == all[i - 1]);
    }
    assert(all.take(i as int) == all);
    res
}

/// The name of a variable holds no equals sign: a line is divided at the first
/// one.
pub proof fn law_names_hold_no_equals_sign(line: Seq<char>)
    ensures
        match setting_of(line) {
            Some(setting) => forall|i: int|
                0 <= i < setting.key.len() ==> #[trigger] setting.key[i] != '=',
            None => true,
        },
{
    let trimmed = text::trimmed(line);
    reveal_strlit("=");
    if setting_of(line) is Some {
        let at = text::find_from(trimmed, "="@, 0)->0;
        text::lemma_find_from(trimmed, "="@, 0);
        let before = trimmed.take(at);
        assert forall|i: int| 0 <= i < before.len() implies #[trigger] before[i] != '=' by {
            if before[i] == '=' {
                assert(trimmed.subrange(i, i + 1) == "="@);
                assert(text::occurs_at(trimmed, "="@, i));
            }
        }
        text::lemma_trimmed_is_part(before);
        let key = text::trimmed(before);
        assert forall|i: int| 0 <= i < key.len() implies #[trigger] key[i] != '=' by {
            let from = choose|from: int|
                0 <= from && from + key.len() <= before.len() && #[trigger] before.subrange(
                    from,
                    from + key.len(),
                ) == key;
            assert(before.subrange(from, from + key.len())[i] == before[from + i]);
        }
    }
}

/// What is done about the setup when the program starts.
#[derive(Debug, Clone, Copy, PartialEq, Eq, Structural)]
pub enum StartupStep {
    /// The runtime is ready: nothing.
    UseRuntime,
    /// The setup runs. A helper with more rights shows no window of its own.
    RunSetup { hide_window: bool },
    /// The terms are awaited.
    AwaitTerms,
}

/// Whether the program was started as the helper that only runs the setup.
pub open spec fn is_helper(args: Seq<Seq<char>>) -> bool {
    args.contains("--elevated-setup"@)
}

/// Decides what is done about the setup when the program starts.
pub fn startup_step(ready: bool, terms_accepted: bool, args: &Vec<String>) -> (res: StartupStep)
    ensures
        res == (if ready {
            StartupStep::UseRuntime
        } else if terms_accepted {
            StartupStep::RunSetup { hide_window: is_helper(text::views(args@)) }
        } else {
            StartupStep::AwaitTerms
        }),
{
    if ready {
        return StartupStep::UseRuntime;
    }
    if !terms_accepted {
        return StartupStep::AwaitTerms;
    }
    StartupStep::RunSetup { hide_window: helper_asked(args) }
}

fn helper_asked(args: &Vec<String>) -> (res: bool)
    ensures
        res == is_helper(text::views(args@)),
{
    let ghost all = text::views(args@);
    let mut i: usize = 0;
    while i < args.len()
        invariant
            i <= args@.len(),
            all == text::views(args@),
            forall|k: int| 0 <= k < i ==> #[trigger] all[k] != "--elevated-setup"@,
        decreases args@.len() - i,
    {
        assert(all[i as int] == args@[i as int]@);
        if text::same_text(args[i].as_str(), "--elevated-setup") {
            return true;
        }
        i += 1;
    }
    false
}

/// The status that the helper ends with; the program itself goes on.
pub fn helper_exit_code(helper: bool, setup_succeeded: bool) -> (res: Option<i32>)
    ensures
        res == (if !helper {
            None::<i32>
        } else if setup_succeeded {
            Some(0i32)
        } else {
            Some(1i32)
        }),
{
    if !helper {
        None
    } else if setup_succeeded {
        Some(0)
    } else {
        Some(1)
    }
}

/// What saving a setting comes to.
#[derive(Debug, Clone, Copy, PartialEq, Eq, Structural)]
pub enum SettingWrite {
    /// The setting is written as it is.
    Plain,
    /// The setting is written, and the speech recognition is told.
    PlainAndVram(bool),
    /// The acceptance of the terms is written with their version, the model and
    /// the source, and an earlier error of the setup is cleared.
    TermsRecord,
}

/// Decides what saving a setting comes to; `flag` is its value, where that is a
/// truth value.
pub fn save_setting(key: &str, flag: Option<bool>) -> (res: SettingWrite)
    ensures
        res == (if key@ == "preallocate_vram"@ && flag is Some {
            SettingWrite::PlainAndVram(flag->0)
        } else if key@ == "gemma_terms_accepted"@ && flag == Some(true) {
            SettingWrite::TermsRecord
        } else {
            SettingWrite::Plain
        }),
{
    if text::same_text(key, "preallocate_vram") {
        if let Some(enable) = flag {
            return SettingWrite::PlainAndVram(enable);
        }
    }
    if text::same_text(key, "gemma_terms_accepted") {
        if let Some(accepted) = flag {
            if accepted {
                return SettingWrite::TermsRecord;
            }
        }
    }
    SettingWrite::Plain
}

/// The model that answers where none is named.
pub const DEFAULT_GEMINI_MODEL: &'static str = "gemini-2.0-flash";

/// The model that answers.
pub fn model_or_default(model: Option<String>) -> (res: String)
    ensures
        res@ == (match model {
            Some(given) => given@,
            None => DEFAULT_GEMINI_MODEL@,
        }),
{
    match model {
        Some(given) => given,
        None => DEFAULT_GEMINI_MODEL.to_owned(),
    }
}

/// The options of a single question. Thinking is switched off unless the
/// settings say otherwise.
pub fn generation_options(
    system_prompt: Option<String>,
    image_base64: Option<String>,
    disable_thinking: Option<bool>,
) -> (res: AiGenerateOptions)
    ensures
        res.system_instruction == system_prompt,
        text::opt_view(res.temperature) == Some(DEFAULT_TEMPERATURE@),
        res.max_output_tokens == Some(1024i32),
        res.image_base64 == image_base64,
        res.thinking_budget == (if disable_thinking == Some(false) {
            None::<i32>
        } else {
            Some(0i32)
        }),
{
    let disabled = match disable_thinking {
        Some(flag) => flag,
        None => true,
    };
    AiGenerateOptions {
        system_instruction: system_prompt,
        temperature: Some(DEFAULT_TEMPERATURE.to_owned()),
        max_output_tokens: Some(1024),
        image_base64,
        thinking_budget: if disabled {
            Some(0)
        } else {
            None
        },
    }
}

/// Where an import finds its root: in the argument, in the environment, or
/// beside the program.
pub open spec fn migration_root_of(
    args: Seq<Seq<char>>,
    env_root: Option<Seq<char>>,
    exe_dir: Option<Seq<char>>,
) -> Result<Seq<char>, Seq<char>> {
    if args.len() >= 2 && args[0] == "--root"@ {
        Ok(args[1])
    } else if args.len() > 0 {
        Err("usage: migrate_to_lance [--root <absolute-runtime-root>]"@)
    } else if env_root is Some {
        Ok(env_root->0)
    } else if exe_dir is Some {
        Ok(exe_dir->0)
    } else {
        Err("unable to resolve executable runtime root"@)
    }
}

/// Finds the root of an import.
pub fn migration_root(
    args: &Vec<String>,
    env_root: &Option<String>,
    exe_dir: &Option<String>,
) -> (res: Result<String, String>)
    ensures
        match migration_root_of(
            text::views(args@),
            text::opt_view(*env_root),
            text::opt_view(*exe_dir),
        ) {
            Ok(root) => res is Ok && res->Ok_0@ == root,
            Err(message) => res is Err && res->Err_0@ == message,
        },
{
    let ghost all = text::views(args@);
    if args.len() > 0 {
        assert(all[0] == args@[0]@);
        if args.len() >= 2 && text::same_text(args[0].as_str(), "--root") {
            assert(all[1] == args@[1]@);
            return Ok(args[1].clone());
        }
        return Err("usage: migrate_to_lance [--root <absolute-runtime-root>]".to_owned());
    }
    if let Some(root) = env_root {
        return Ok(root.clone());
    }
    if let Some(root) = exe_dir {
        return Ok(root.clone());
    }
    Err("unable to resolve executable runtime root".to_owned())
}

/// What a name on the way to the root of an import is.
#[derive(Debug, Clone, Copy, PartialEq, Eq, Structural)]
pub enum RootLink {
    /// No link, or nothing at all.
    Absent,
    Symlink,
    ReparsePoint,
}

/// What is wrong with the links on a way: the first one counts.
pub open spec fn link_error(found: Seq<RootLink>) -> Option<Seq<char>>
    decreases found.len(),
{
    if found.len() == 0 {
        None
    } else {
        match found[0] {
            RootLink::Absent => link_error(found.drop_first()),
            RootLink::Symlink => Some("migration root contains a symlink"@),
            RootLink::ReparsePoint => Some("migration root contains a reparse point"@),
        }
    }
}

/// Refuses a way that leads over a link.
pub fn reject_links(found: &Vec<RootLink>) -> (res: Result<(), String>)
    ensures
        match link_error(found@) {
            Some(message) => res is Err && res->Err_0@ == message,
            None => res is Ok,
        },
{
    let mut i: usize = 0;
    assert(found@.skip(0) == found@);
    while i < found.len()
        invariant
            i <= found@.len(),
            link_error(found@) == link_error(found@.skip(i as int)),
        decreases found@.len() - i,
    {
        assert(found@.skip(i as int).drop_first() == found@.skip(i + 1));
        match found[i] {
            RootLink::Absent => {},
            RootLink::Symlink => {
                return Err("migration root contains a symlink".to_owned());
            },
            RootLink::ReparsePoint => {
                return Err("migration root contains a reparse point".to_owned());
            },
        }
        i += 1;
    }
    Ok(())
}

/// What is wrong with the root of an import.
pub open spec fn migration_root_error(root: PathShape, found: Seq<RootLink>) -> Option<Seq<char>> {
    if !root.absolute || root.traverses() {
        Some("migration root must be an absolute traversal-free path"@)
    } else {
        link_error(found)
    }
}

/// Refuses a root of an import that is relative, goes up, or leads over a link.
pub fn check_migration_root(root: &PathShape, found: &Vec<RootLink>) -> (res: Result<(), String>)
    ensures
        match migration_root_error(*root, found@) {
            Some(message) => res is Err && res->Err_0@ == message,
            None => res is Ok,
        },
{
    if !root.absolute || lance_memory::has_traversal(root) {
        return Err("migration root must be an absolute traversal-free path".to_owned());
    }
    reject_links(found)
}

/// A root that is accepted is absolute, never goes up, and leads over no link.
pub proof fn law_accepted_migration_roots_are_plain(root: PathShape, found: Seq<RootLink>)
    requires
        migration_root_error(root, found) is None,
    ensures
        root.absolute,
        !root.traverses(),
        forall|i: int| 0 <= i < found.len() ==> #[trigger] found[i] is Absent,
{
    lemma_no_link(found);
}

proof fn lemma_no_link(found: Seq<RootLink>)
    requires
        link_error(found) is None,
    ensures
        forall|i: int| 0 <= i < found.len() ==> #[trigger] found[i] is Absent,
    decreases found.len(),
{
    if found.len() > 0 {
        let rest = found.drop_first();
        lemma_no_link(rest);
        assert forall|i: int| 0 <= i < found.len() implies #[trigger] found[i] is Absent by {
            if i > 0 {
                assert(rest[i - 1] == found[i]);
            }
        }
    }
}

/// The root of the runtime: the directory of the program, or, where that is not
/// known, the directory that the program was built in.
pub fn resolve_runtime_root_from_exe(exe_dir: &Option<String>, build_dir: &str) -> (res: String)
    ensures
        res@ == (match text::opt_view(*exe_dir) {
            Some(dir) => dir,
            None => build_dir@,
        }),
{
    match exe_dir {
        Some(dir) => dir.clone(),
        None => build_dir.to_owned(),
    }
}

/// The root of the runtime. A program that is being developed stands below the
/// directory that it was built in, so its own place does not count.
pub fn resolve_runtime_root(debug: bool, exe_dir: &Option<String>, build_dir: &str) -> (res: String)
    ensures
        res@ == (if !debug && text::opt_view(*exe_dir) is Some {
            text::opt_view(*exe_dir)->0
        } else {
            build_dir@
        }),
{
    if debug {
        resolve_runtime_root_from_exe(&None, build_dir)
    } else {
        resolve_runtime_root_from_exe(exe_dir, build_dir)
    }
}

/// The root of the runtime, for the program.
pub fn resolve_project_root(debug: bool, exe_dir: &Option<String>, build_dir: &str) -> (res: String)
    ensures
        res@ == (if !debug && text::opt_view(*exe_dir) is Some {
            text::opt_view(*exe_dir)->0
        } else {
            build_dir@
        }),
{
    resolve_runtime_root(debug, exe_dir, build_dir)
}

/// A message with what came before it.
pub open spec fn blocked(prefix: Seq<char>, error: Seq<char>) -> Seq<char> {
    prefix + error
}

fn blocked_message(prefix: &str, error: &str) -> (res: String)
    ensures
        res@ == blocked(prefix@, error@),
{
    let mut message = prefix.to_owned();
    text::append_text(&mut message, error);
    message
}

/// Decides whether a session may start: the runtime must be ready, and then the
/// speech recognition.
pub fn session_start(runtime: &Result<(), String>, asr: &Result<(), String>) -> (res: Result<
    (),
    String,
>)
    ensures
        match (*runtime, *asr) {
            (Err(error), _) => res is Err && res->Err_0@ == error@,
            (Ok(_), Err(error)) => res is Err && res->Err_0@ == blocked(
                "ASR worker is not ready: "@,
                error@,
            ),
            (Ok(_), Ok(_)) => res is Ok,
        },
{
    if let Err(error) = runtime {
        return Err(error.clone());
    }
    if let Err(error) = asr {
        return Err(blocked_message("ASR worker is not ready: ", error.as_str()));
    }
    Ok(())
}

/// What comes of loading the speech recognition ahead of time.
pub fn warmup_asr(runtime: &Result<(), String>, asr: &Result<(), String>) -> (res: Result<
    String,
    String,
>)
    ensures
        match (*runtime, *asr) {
            (Err(error), _) => res is Err && res->Err_0@ == blocked(
                "ASR warmup blocked: "@,
                error@,
            ),
            (Ok(_), Err(error)) => res is Err && res->Err_0@ == error@,
            (Ok(_), Ok(_)) => res is Ok && res->Ok_0@
                == "Warmup completed for Faster-Whisper CUDA INT8"@,
        },
{
    if let Err(error) = runtime {
        return Err(blocked_message("ASR warmup blocked: ", error.as_str()));
    }
    if let Err(error) = asr {
        return Err(error.clone());
    }
    Ok("Warmup completed for Faster-Whisper CUDA INT8".to_owned())
}

/// What comes of starting the speech recognition anew.
pub fn restart_whisper(runtime: &Result<(), String>, restarted: &Result<(), String>) -> (res: Result<
    String,
    String,
>)
    ensures
        match (*runtime, *restarted) {
            (Err(error), _) => res is Err && res->Err_0@ == blocked(
                "Whisper restart blocked: "@,
                error@,
            ),
            (Ok(_), Err(error)) => res is Err && res->Err_0@ == error@,
            (Ok(_), Ok(_)) => res is Ok && res->Ok_0@
                == "Whisper GPU worker restarted successfully"@,
        },
{
    if let Err(error) = runtime {
        return Err(blocked_message("Whisper restart blocked: ", error.as_str()));
    }
    if let Err(error) = restarted {
        return Err(error.clone());
    }
    Ok("Whisper GPU worker restarted successfully".to_owned())
}

proof fn lemma_first_equals_sign(clean: Seq<char>, at: int)
    requires
        0 <= at < clean.len(),
        clean[at] == '=',
        forall|k: int| 0 <= k < at ==> #[trigger] clean[k] != '=',
    ensures
        text::find_from(clean, "="@, 0) == Some(at),
{
    reveal_strlit("=");
    let mark = "="@;
    assert(clean.subrange(at, at + 1) == mark);
    assert(text::occurs_at(clean, mark, at));
    text::lemma_find_from(clean, mark, 0);
    let found = text::find_from(clean, mark, 0)->0;
    assert(clean.subrange(found, found + 1)[0] == clean[found]);
}

/// A line sets a variable where it holds an equals sign and is no comment: the
/// name is what stands before the first one, the value what stands after it,
/// both trimmed.
pub proof fn law_lines_are_divided_at_the_first_equals_sign(
    line: Seq<char>,
    key: Seq<char>,
    value: Seq<char>,
)
    requires
        text::trimmed(line) == key + seq!['='] + value,
        !key.contains('='),
        key.len() == 0 || key[0] != '#',
    ensures
        setting_of(line) == Some(
            SettingModel { key: text::trimmed(key), value: text::trimmed(value) },
        ),
{
    let clean = text::trimmed(line);
    let at = key.len() as int;
    assert forall|k: int| 0 <= k < at implies #[trigger] clean[k] != '=' by {
        assert(clean[k] == key[k]);
    }
    lemma_first_equals_sign(clean, at);
    assert(clean.take(at) == key);
    assert(clean.skip(at + 1) == value);
    if key.len() > 0 {
        assert(clean[0] == key[0]);
    } else {
        assert(clean[0] == '=');
    }
}

/// Blank lines, comments and lines without an equals sign set nothing; the
/// settings of some lines are those of each line, in their order.
pub proof fn law_other_lines_set_nothing(before: Seq<Seq<char>>, line: Seq<char>)
    ensures
        text::is_blank(line) ==> setting_of(line) is None,
        text::trimmed(line).len() > 0 && text::trimmed(line)[0] == '#' ==> setting_of(line) is None,
        !text::trimmed(line).contains('=') ==> setting_of(line) is None,
        settings_of(Seq::empty()) == Seq::<SettingModel>::empty(),
        setting_of(line) is None ==> settings_of(before.push(line)) == settings_of(before),
        setting_of(line) matches Some(setting) ==> settings_of(before.push(line)) == settings_of(
            before,
        ).push(setting),
{
    reveal_strlit("=");
    assert("="@ == seq!['=']);
    text::lemma_blank_iff_trimmed_empty(line);
    assert(before.push(line).drop_last() == before);
    assert(before.push(line).last() == line);
    let clean = text::trimmed(line);
    text::lemma_find_from(clean, "="@, 0);
    if let Some(at) = text::find_from(clean, "="@, 0) {
        assert(clean.subrange(at, at + 1)[0] == clean[at]);
    }
}

/// The root of a migration is the one that is asked for, then that of the
/// environment, then that of the program; any other argument is refused.
pub proof fn law_the_asked_root_comes_first(
    args: Seq<Seq<char>>,
    env_root: Option<Seq<char>>,
    exe_dir: Option<Seq<char>>,
)
    ensures
        args.len() >= 2 && args[0] == "--root"@ ==> migration_root_of(args, env_root, exe_dir)
            == Ok::<Seq<char>, Seq<char>>(args[1]),
        args.len() == 1 || args.len() > 1 && args[0] != "--root"@ ==> migration_root_of(
            args,
            env_root,
            exe_dir,
        ) is Err,
        args.len() == 0 && env_root is Some ==> migration_root_of(args, env_root, exe_dir) == Ok::<
            Seq<char>,
            Seq<char>,
        >(env_root->0),
        args.len() == 0 && env_root is None && exe_dir is Some ==> migration_root_of(
            args,
            env_root,
            exe_dir,
        ) == Ok::<Seq<char>, Seq<char>>(exe_dir->0),
        args.len() == 0 && env_root is None && exe_dir is None ==> migration_root_of(
            args,
            env_root,
            exe_dir,
        ) is Err,
{
}

/// A root without links is accepted where it is absolute and steps nowhere; the
/// first link on the way is the one that is named.
pub proof fn law_links_are_refused(root: PathShape, found: Seq<RootLink>, at: int)
    ensures
        (forall|i: int| 0 <= i < found.len() ==> #[trigger] found[i] is Absent) && root.absolute
            && !root.traverses() ==> migration_root_error(root, found) is None,
        !root.absolute || root.traverses() ==> migration_root_error(root, found) == Some(
            "migration root must be an absolute traversal-free path"@,
        ),
        0 <= at < found.len() && (forall|i: int| 0 <= i < at ==> #[trigger] found[i] is Absent)
            && found[at] is Symlink ==> link_error(found) == Some(
            "migration root contains a symlink"@,
        ),
        0 <= at < found.len() && (forall|i: int| 0 <= i < at ==> #[trigger] found[i] is Absent)
            && found[at] is ReparsePoint ==> link_error(found) == Some(
            "migration root contains a reparse point"@,
        ),
    decreases found.len(),
{
    if found.len() > 0 {
        let rest = found.drop_first();
        assert(forall|i: int| 0 <= i < rest.len() ==> #[trigger] rest[i] == found[i + 1]);
        law_links_are_refused(root, rest, at - 1);
        if found[0] is Absent {
            assert((forall|i: int| 0 <= i < found.len() ==> #[trigger] found[i] is Absent)
                ==> forall|i: int| 0 <= i < rest.len() ==> #[trigger] rest[i] is Absent);
            assert((forall|i: int| 0 <= i < at ==> #[trigger] found[i] is Absent) && at
                <= found.len() ==> forall|i: int|
                0 <= i < at - 1 ==> #[trigger] rest[i] is Absent);
        }
        if found[0] is Absent && 0 < at < found.len() {
            assert(rest[at - 1] == found[at]);
        }
        if at > 0 {
            assert((forall|i: int| 0 <= i < at ==> #[trigger] found[i] is Absent) ==> found[0]
                is Absent);
        }
    }
}

/// The program is the helper where it is told so, wherever that stands among
/// what it is told, and only there.
pub proof fn law_helpers_are_told_so(args: Seq<Seq<char>>, i: int)
    ensures
        0 <= i < args.len() && args[i] == "--elevated-setup"@ ==> is_helper(args),
        (forall|k: int| 0 <= k < args.len() ==> #[trigger] args[k] != "--elevated-setup"@)
            ==> !is_helper(args),
{
}

} // verus!
