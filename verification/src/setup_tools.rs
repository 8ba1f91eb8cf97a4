//! The commands of the setup, and what their results come to.
use vstd::prelude::*;

use crate::bootstrap;
use crate::bootstrap::{
    Diagnostic, RuntimeLayout, RuntimeValidationState, SetupModel, SetupStage, SetupState,
};
use crate::digest;
use crate::paths::{PathModel, RuntimePath};
use crate::setup_status;
use crate::text;

verus! {

/// The arguments of a command of the package manager: no settings of the
/// machine, and the cache of the runtime.
pub open spec fn uv_arguments(cache_dir: Seq<char>, args: Seq<Seq<char>>) -> Seq<Seq<char>> {
    seq!["--no-config"@, "--cache-dir"@, cache_dir] + args
}

fn append_all(target: &mut Vec<String>, list: &Vec<String>)
    ensures
        text::views(final(target)@) == text::views(old(target)@) + text::views(list@),
{
    let ghost before = text::views(target@);
    let ghost all = text::views(list@);
    let mut i: usize = 0;
    assert(before + all.take(0) == before);
    while i < list.len()
        invariant
            i <= list@.len(),
            all == text::views(list@),
            text::views(target@) == before + all.take(i as int),
        decreases list@.len() - i,
    {
        let ghost earlier = target@;
        target.push(list[i].clone());
        i += 1;
        assert(text::views(target@) == text::views(earlier).push(all[i - 1]));
        assert(before + all.take(i as int) == (before + all.take(i - 1)).push(all[i - 1]));
    }
    assert(all.take(i as int) == all);
}

/// The arguments of a command of the package manager.
pub fn uv_command_args(cache_dir: &str, args: &Vec<String>) -> (res: Vec<String>)
    ensures
        text::views(res@) == uv_arguments(cache_dir@, text::views(args@)),
{
    let mut command: Vec<String> = Vec::new();
    command.push("--no-config".to_owned());
    command.push("--cache-dir".to_owned());
    command.push(cache_dir.to_owned());
    assert(text::views(command@) == seq!["--no-config"@, "--cache-dir"@, cache_dir@]);
    append_all(&mut command, args);
    command
}

/// The command as it is shown.
pub fn uv_command_line(args: &Vec<String>) -> (res: String)
    ensures
        res@ == "uv "@ + text::joined(text::views(args@), " "@),
{
    let mut line = "uv ".to_owned();
    text::append_text(&mut line, text::join_texts(args, " ").as_str());
    line
}

/// The arguments that install Python.
pub fn python_install_args(python_dir: &str) -> (res: Vec<String>)
    ensures
        text::views(res@) == seq![
            "python"@,
            "install"@,
            "--install-dir"@,
            python_dir@,
            bootstrap::PYTHON_VERSION@,
        ],
{
    let mut args: Vec<String> = Vec::new();
    args.push("python".to_owned());
    args.push("install".to_owned());
    args.push("--install-dir".to_owned());
    args.push(python_dir.to_owned());
    args.push(bootstrap::PYTHON_VERSION.to_owned());
    assert(text::views(args@) == seq![
        "python"@,
        "install"@,
        "--install-dir"@,
        python_dir@,
        bootstrap::PYTHON_VERSION@,
    ]);
    args
}

/// The arguments that create the environment.
pub fn venv_args(venv_dir: &str) -> (res: Vec<String>)
    ensures
        text::views(res@) == seq!["venv"@, venv_dir@, "--python"@, bootstrap::PYTHON_VERSION@],
{
    let mut args: Vec<String> = Vec::new();
    args.push("venv".to_owned());
    args.push(venv_dir.to_owned());
    args.push("--python".to_owned());
    args.push(bootstrap::PYTHON_VERSION.to_owned());
    assert(text::views(args@) == seq![
        "venv"@,
        venv_dir@,
        "--python"@,
        bootstrap::PYTHON_VERSION@,
    ]);
    args
}

/// What is said of the graphics card to the package manager.
pub open spec fn backend_arguments(gpu: bool) -> Seq<Seq<char>> {
    if gpu {
        seq!["--torch-backend"@, bootstrap::GPU_TORCH_BACKEND@]
    } else {
        Seq::empty()
    }
}

/// The arguments that resolve the dependencies.
pub open spec fn compile_arguments(
    python: Seq<char>,
    output: Seq<char>,
    requirements: Seq<char>,
    gpu: bool,
) -> Seq<Seq<char>> {
    seq!["pip"@, "compile"@, "--python"@, python] + backend_arguments(gpu) + seq![
        "--generate-hashes"@,
        "--output-file"@,
        output,
        requirements,
    ]
}

/// The arguments that resolve the dependencies, with hashes. The graphics card
/// matters only to the packages that are built for it.
pub fn dependency_compile_args(python: &str, output: &str, requirements: &str, gpu: bool) -> (res:
    Vec<String>)
    ensures
        text::views(res@) == compile_arguments(python@, output@, requirements@, gpu),
{
    let mut args: Vec<String> = Vec::new();
    args.push("pip".to_owned());
    args.push("compile".to_owned());
    args.push("--python".to_owned());
    args.push(python.to_owned());
    if gpu {
        args.push("--torch-backend".to_owned());
        args.push(bootstrap::GPU_TORCH_BACKEND.to_owned());
    }
    args.push("--generate-hashes".to_owned());
    args.push("--output-file".to_owned());
    args.push(output.to_owned());
    args.push(requirements.to_owned());
    assert(text::views(args@) == compile_arguments(python@, output@, requirements@, gpu));
    args
}

/// The arguments that install the dependencies.
pub open spec fn sync_arguments(python: Seq<char>, lock: Seq<char>, gpu: bool) -> Seq<Seq<char>> {
    seq!["pip"@, "sync"@, "--python"@, python] + backend_arguments(gpu) + seq![lock]
}

/// The arguments that install the dependencies of the lock file.
pub fn dependency_sync_args(python: &str, lock: &str, gpu: bool) -> (res: Vec<String>)
    ensures
        text::views(res@) == sync_arguments(python@, lock@, gpu),
{
    let mut args: Vec<String> = Vec::new();
    args.push("pip".to_owned());
    args.push("sync".to_owned());
    args.push("--python".to_owned());
    args.push(python.to_owned());
    if gpu {
        args.push("--torch-backend".to_owned());
        args.push(bootstrap::GPU_TORCH_BACKEND.to_owned());
    }
    args.push(lock.to_owned());
    assert(text::views(args@) == sync_arguments(python@, lock@, gpu));
    args
}

/// Whether a variable of the environment belongs to the package manager of the
/// machine, and is kept from that of the runtime.
pub open spec fn is_manager_variable(key: Seq<char>) -> bool {
    text::begins_with(text::ascii_lowered(key), "uv_"@) || text::begins_with(
        text::ascii_lowered(key),
        "pip_"@,
    )
}

/// Tells whether a variable of the environment is kept from the package
/// manager.
pub fn removes_variable(key: &str) -> (res: bool)
    ensures
        res == is_manager_variable(key@),
{
    let lower = text::ascii_lower_text(key);
    text::text_begins_with(lower.as_str(), "uv_") || text::text_begins_with(lower.as_str(), "pip_")
}

/// A variable of the environment of a process.
#[derive(Debug)]
pub struct EnvVariable {
    pub name: &'static str,
    pub value: String,
}

impl View for EnvVariable {
    type V = (Seq<char>, Seq<char>);

    open spec fn view(&self) -> (Seq<char>, Seq<char>) {
        (self.name@, self.value@)
    }
}

/// The names and values of some variables.
pub open spec fn variables(list: Seq<EnvVariable>) -> Seq<(Seq<char>, Seq<char>)> {
    list.map_values(|v: EnvVariable| v@)
}

fn set_variable(list: &mut Vec<EnvVariable>, name: &'static str, value: &str)
    ensures
        variables(final(list)@) == variables(old(list)@).push((name@, value@)),
{
    list.push(EnvVariable { name, value: value.to_owned() });
    assert(variables(list@) == variables(old(list)@).push((name@, value@)));
}

/// What the package manager is told: to install Python in the runtime, to keep
/// its cache there, to read no configuration, and to show no progress.
pub open spec fn manager_variables(python_dir: Seq<char>, cache_dir: Seq<char>) -> Seq<
    (Seq<char>, Seq<char>),
> {
    seq![
        ("UV_PYTHON_INSTALL_DIR"@, python_dir),
        ("UV_CACHE_DIR"@, cache_dir),
        ("UV_NO_CONFIG"@, "1"@),
        ("UV_NO_PROGRESS"@, "1"@),
    ]
}

/// The variables that are set for the package manager.
pub fn uv_environment(python_dir: &str, cache_dir: &str) -> (res: Vec<EnvVariable>)
    ensures
        variables(res@) == manager_variables(python_dir@, cache_dir@),
{
    let mut list: Vec<EnvVariable> = Vec::new();
    set_variable(&mut list, "UV_PYTHON_INSTALL_DIR", python_dir);
    set_variable(&mut list, "UV_CACHE_DIR", cache_dir);
    set_variable(&mut list, "UV_NO_CONFIG", "1");
    set_variable(&mut list, "UV_NO_PROGRESS", "1");
    assert(variables(list@) == manager_variables(python_dir@, cache_dir@));
    list
}

/// The package manager is set up by the runtime alone: what is set for it is of
/// the kind that is taken from its environment first.
pub proof fn law_manager_variables_replace_those_of_the_machine(
    python_dir: Seq<char>,
    cache_dir: Seq<char>,
)
    ensures
        forall|i: int|
            0 <= i < manager_variables(python_dir, cache_dir).len() ==> is_manager_variable(
                (#[trigger] manager_variables(python_dir, cache_dir)[i]).0,
            ),
{
    let list = manager_variables(python_dir, cache_dir);
    reveal_strlit("uv_");
    reveal_strlit("UV_PYTHON_INSTALL_DIR");
    reveal_strlit("UV_CACHE_DIR");
    reveal_strlit("UV_NO_CONFIG");
    reveal_strlit("UV_NO_PROGRESS");
    assert forall|i: int| 0 <= i < list.len() implies is_manager_variable(
        (#[trigger] list[i]).0,
    ) by {
        let name = list[i].0;
        assert(text::ascii_lowered(name).take(3) == "uv_"@);
    }
}

/// Refuses to run a package manager that is not there.
pub fn check_uv(present: bool, uv_path: &str) -> (res: Result<(), String>)
    ensures
        present ==> res is Ok,
        !present ==> res is Err && res->Err_0@ == "uv.exe is missing at "@ + uv_path@,
{
    if present {
        return Ok(());
    }
    let mut message = "uv.exe is missing at ".to_owned();
    text::append_text(&mut message, uv_path);
    Err(message)
}

/// How a command of the package manager stands.
#[derive(Debug)]
pub enum CommandState {
    Running,
    Succeeded,
    /// It ended with this status.
    Failed(String),
    /// It cannot be watched any longer.
    Lost(String),
}

/// What is done about a command.
#[derive(Debug)]
pub enum CommandStep {
    /// Wait a quarter of a second.
    Wait,
    /// It is done.
    Done,
    /// The setup stage ends with this error; where `kill` is set, the process is
    /// stopped first.
    Fail { kill: bool, error: String },
}

/// The error of a setup that the user stopped.
pub const CANCELLED_MESSAGE: &'static str = "setup cancelled; run setup again to resume";

/// Decides what is done about a command that runs.
pub fn run_uv(state: &CommandState, cancelled: bool, command_line: &str, log_path: &str) -> (res:
    CommandStep)
    ensures
        match res {
            CommandStep::Wait => !cancelled && *state is Running,
            CommandStep::Done => !cancelled && *state is Succeeded,
            CommandStep::Fail { kill, error } => if cancelled {
                kill && error@ == CANCELLED_MESSAGE@
            } else {
                match *state {
                    CommandState::Failed(status) => !kill && error@ == command_line@
                        + " failed with status "@ + status@ + "; see "@ + log_path@
                        + " for details"@,
                    CommandState::Lost(problem) => kill && error@ == command_line@
                        + " process polling failed: "@ + problem@,
                    _ => false,
                }
            },
        },
{
    if cancelled {
        return CommandStep::Fail { kill: true, error: CANCELLED_MESSAGE.to_owned() };
    }
    match state {
        CommandState::Running => CommandStep::Wait,
        CommandState::Succeeded => CommandStep::Done,
        CommandState::Failed(status) => {
            let mut error = command_line.to_owned();
            text::append_text(&mut error, " failed with status ");
            text::append_text(&mut error, status.as_str());
            text::append_text(&mut error, "; see ");
            text::append_text(&mut error, log_path);
            text::append_text(&mut error, " for details");
            CommandStep::Fail { kill: false, error }
        },
        CommandState::Lost(problem) => {
            let mut error = command_line.to_owned();
            text::append_text(&mut error, " process polling failed: ");
            text::append_text(&mut error, problem.as_str());
            CommandStep::Fail { kill: true, error }
        },
    }
}

/// What a lock file needs: nothing, or to be made anew with this beginning.
pub fn ensure_lock_file(requirements: &[u8], existing: Option<&str>) -> (res: Option<String>)
    ensures
        ({
            let header = setup_status::lock_header_text(digest::fingerprint(requirements@));
            if existing is Some && text::begins_with(existing->0@, header) {
                res is None
            } else {
                res is Some && res->0@ == header
            }
        }),
{
    let hash = digest::sha256_hex(requirements);
    if setup_status::lockfile_requirements_match(existing, hash.as_str()) {
        return None;
    }
    Some(setup_status::lock_header(hash.as_str()))
}

/// The contents of a new lock file: its beginning, and what the package manager
/// resolved.
pub fn new_lock_file(header: &str, compiled: &[u8]) -> (res: Vec<u8>)
    ensures
        res@ == digest::text_bytes(header@) + compiled@,
{
    let mut bytes: Vec<u8> = Vec::new();
    digest::append_text_bytes(&mut bytes, header);
    digest::append_bytes(&mut bytes, compiled);
    assert(bytes@ == digest::text_bytes(header@) + compiled@);
    bytes
}

/// What some paths are.
pub open spec fn path_views(paths: Seq<RuntimePath>) -> Seq<PathModel> {
    paths.map_values(|path: RuntimePath| path@)
}

/// The directories of the runtime: those of Python, of the models and of the
/// caches, of the logs and the scripts, and that of the server for the
/// summaries.
pub open spec fn directories_of(layout: RuntimeLayout) -> Seq<PathModel> {
    let plain = seq![
        layout.python_dir@,
        layout.venv_dir@,
        layout.models_dir@,
        layout.uv_cache_dir@,
        layout.logs_dir@,
        layout.scripts_dir@,
    ];
    if layout.llama_server_path@.parts.len() > 0 {
        plain.push(layout.llama_server_path@.parent())
    } else {
        plain
    }
}

/// The directories that are created before anything is written out.
pub fn runtime_directories(layout: &RuntimeLayout) -> (res: Vec<RuntimePath>)
    ensures
        path_views(res@) == directories_of(*layout),
{
    let mut list: Vec<RuntimePath> = Vec::new();
    list.push(layout.python_dir.duplicate());
    list.push(layout.venv_dir.duplicate());
    list.push(layout.models_dir.duplicate());
    list.push(layout.uv_cache_dir.duplicate());
    list.push(layout.logs_dir.duplicate());
    list.push(layout.scripts_dir.duplicate());
    if let Some(parent) = layout.llama_server_path.parent() {
        list.push(parent);
    }
    assert(path_views(list@) == directories_of(*layout));
    list
}

/// A file that the program carries, and where it is written to.
#[derive(Debug)]
pub struct ResourceTarget {
    pub resource: &'static str,
    pub target: RuntimePath,
}

impl View for ResourceTarget {
    type V = (Seq<char>, PathModel);

    open spec fn view(&self) -> (Seq<char>, PathModel) {
        (self.resource@, self.target@)
    }
}

pub open spec fn target_views(list: Seq<ResourceTarget>) -> Seq<(Seq<char>, PathModel)> {
    list.map_values(|item: ResourceTarget| item@)
}

/// The scripts, the requirements, the notice, the package manager and the sounds
/// that acknowledge what was said, each with its place.
pub open spec fn targets_of(layout: RuntimeLayout) -> Seq<(Seq<char>, PathModel)> {
    let root = layout.root@;
    seq![
        ("asr_server.py"@, layout.scripts_dir@.join("asr_server.py"@)),
        ("vits2_server.py"@, layout.scripts_dir@.join("vits2_server.py"@)),
        ("requirements.txt"@, root.join("requirements.txt"@)),
        ("requirements-cpu.txt"@, root.join("requirements-cpu.txt"@)),
        ("requirements-gpu.txt"@, root.join("requirements-gpu.txt"@)),
        ("NOTICE-GEMMA.txt"@, root.join("NOTICE-GEMMA.txt"@)),
        ("uv.exe"@, layout.uv_path@),
        ("wav/nod/0.wav"@, root.join("wav/nod/0.wav"@)),
        ("wav/nod/1.wav"@, root.join("wav/nod/1.wav"@)),
        ("wav/nod/2.wav"@, root.join("wav/nod/2.wav"@)),
        ("wav/nod/4.wav"@, root.join("wav/nod/4.wav"@)),
        ("wav/nod/5.wav"@, root.join("wav/nod/5.wav"@)),
    ]
}

fn add_target(list: &mut Vec<ResourceTarget>, resource: &'static str, target: RuntimePath)
    ensures
        target_views(final(list)@) == target_views(old(list)@).push((resource@, target@)),
{
    list.push(ResourceTarget { resource, target });
    assert(target_views(list@) == target_views(old(list)@).push((resource@, target@)));
}

/// The files that the program carries, and where they are written to.
pub fn resource_targets(layout: &RuntimeLayout) -> (res: Vec<ResourceTarget>)
    ensures
        target_views(res@) == targets_of(*layout),
{
    let root = &layout.root;
    let mut list: Vec<ResourceTarget> = Vec::new();
    add_target(&mut list, "asr_server.py", layout.scripts_dir.join("asr_server.py"));
    add_target(&mut list, "vits2_server.py", layout.scripts_dir.join("vits2_server.py"));
    add_target(&mut list, "requirements.txt", root.join("requirements.txt"));
    add_target(&mut list, "requirements-cpu.txt", root.join("requirements-cpu.txt"));
    add_target(&mut list, "requirements-gpu.txt", root.join("requirements-gpu.txt"));
    add_target(&mut list, "NOTICE-GEMMA.txt", root.join("NOTICE-GEMMA.txt"));
    add_target(&mut list, "uv.exe", layout.uv_path.duplicate());
    add_target(&mut list, "wav/nod/0.wav", root.join("wav/nod/0.wav"));
    add_target(&mut list, "wav/nod/1.wav", root.join("wav/nod/1.wav"));
    add_target(&mut list, "wav/nod/2.wav", root.join("wav/nod/2.wav"));
    add_target(&mut list, "wav/nod/4.wav", root.join("wav/nod/4.wav"));
    add_target(&mut list, "wav/nod/5.wav", root.join("wav/nod/5.wav"));
    assert(target_views(list@) == targets_of(*layout));
    list
}

/// Where a file of the server for the summaries is written to: beside the
/// server.
pub fn llama_runtime_target(layout: &RuntimeLayout, name: &str) -> (res: Result<
    RuntimePath,
    String,
>)
    ensures
        if layout.llama_server_path@.parts.len() > 0 {
            res is Ok && res->Ok_0@ == layout.llama_server_path@.parent().join(name@)
        } else {
            res is Err && res->Err_0@ == "llama runtime path has no parent"@
        },
{
    match layout.llama_server_path.parent() {
        Some(parent) => Ok(parent.join(name)),
        None => Err("llama runtime path has no parent".to_owned()),
    }
}

/// Whether a file that the program carries has to be written out.
pub open spec fn must_extract(
    bytes: Seq<u8>,
    present: bool,
    file_sha256: Option<Seq<char>>,
) -> bool {
    bytes.len() > 0 && !(present && file_sha256 == Some(digest::fingerprint(bytes)))
}

/// Tells whether a file that the program carries has to be written out.
pub fn extract_embedded_resource(bytes: &[u8], present: bool, file_sha256: &Option<String>) -> (res:
    bool)
    ensures
        res == must_extract(bytes@, present, text::opt_view(*file_sha256)),
{
    if bytes.len() == 0 {
        return false;
    }
    let expected = digest::sha256_hex(bytes);
    !(present && text::is_text(file_sha256, expected.as_str()))
}

/// Refuses a file that was not written as it should have been.
pub fn check_extracted(bytes: &[u8], actual_sha256: &str, target: &str) -> (res: Result<
    (),
    String,
>)
    ensures
        actual_sha256@ == digest::fingerprint(bytes@) ==> res is Ok,
        actual_sha256@ != digest::fingerprint(bytes@) ==> res is Err && res->Err_0@
            == "embedded resource hash mismatch for "@ + target@,
{
    let expected = digest::sha256_hex(bytes);
    if text::same_text(actual_sha256, expected.as_str()) {
        return Ok(());
    }
    let mut message = "embedded resource hash mismatch for ".to_owned();
    text::append_text(&mut message, target);
    Err(message)
}

/// Tells whether a list of dependencies on disk is the one that the program
/// carries. One that is not there is not held against it.
pub fn manifest_current(present: bool, file_sha256: &Option<String>, embedded: &[u8]) -> (res: bool)
    ensures
        res == (!present || text::opt_view(*file_sha256) == Some(digest::fingerprint(embedded@))),
{
    if !present {
        return true;
    }
    let expected = digest::sha256_hex(embedded);
    text::is_text(file_sha256, expected.as_str())
}

/// Tells whether the two scripts on disk are those that the program carries.
pub fn scripts_present(
    asr_sha256: &Option<String>,
    vits2_sha256: &Option<String>,
    asr: &[u8],
    vits2: &[u8],
) -> (res: bool)
    ensures
        res == (text::opt_view(*asr_sha256) == Some(digest::fingerprint(asr@)) && text::opt_view(
            *vits2_sha256,
        ) == Some(digest::fingerprint(vits2@))),
{
    let expected_asr = digest::sha256_hex(asr);
    let expected_vits2 = digest::sha256_hex(vits2);
    text::is_text(asr_sha256, expected_asr.as_str()) && text::is_text(
        vits2_sha256,
        expected_vits2.as_str(),
    )
}

/// Whether the dependencies need not be installed again: the lock file is the
/// one that is remembered, and the marker names it. A lock file that cannot be
/// read counts as an empty fingerprint.
pub open spec fn dependencies_installed(
    lock_is_file: bool,
    lock_file_sha256: Option<Seq<char>>,
    marker: Option<Seq<char>>,
    lock_sha256: Seq<char>,
) -> bool {
    &&& lock_is_file
    &&& lock_sha256 == match lock_file_sha256 {
        Some(found) => found,
        None => Seq::empty(),
    }
    &&& marker is Some && text::trimmed(marker->0) == lock_sha256
}

/// Tells whether the stage of the dependencies has its result on disk.
pub fn dependencies_present(
    lock_is_file: bool,
    lock_file_sha256: &Option<String>,
    marker: &Option<String>,
    lock_sha256: &str,
) -> (res: bool)
    ensures
        res == dependencies_installed(
            lock_is_file,
            text::opt_view(*lock_file_sha256),
            text::opt_view(*marker),
            lock_sha256@,
        ),
{
    if !lock_is_file {
        return false;
    }
    let same_lock = match lock_file_sha256 {
        Some(found) => text::same_text(found.as_str(), lock_sha256),
        None => text::same_text("", lock_sha256),
    };
    proof {
        reveal_strlit("");
        assert(""@ == Seq::<char>::empty());
    }
    match marker {
        Some(value) => same_lock && text::same_text(
            text::trim_text(value.as_str()).as_str(),
            lock_sha256,
        ),
        None => false,
    }
}

/// The error of an operation on a file. One that needs more rights says so at
/// its beginning.
pub open spec fn io_error(
    action: Seq<char>,
    path: Seq<char>,
    denied: bool,
    error: Seq<char>,
) -> Seq<char> {
    if denied {
        "elevation_required: cannot "@ + action + " at "@ + path
            + " (run GameAssistant as administrator or move it to a writable folder)"@
    } else {
        action + " at "@ + path + ": "@ + error
    }
}

/// The error of an operation on a file.
pub fn map_io(action: &str, path: &str, denied: bool, error: &str) -> (res: String)
    ensures
        res@ == io_error(action@, path@, denied, error@),
{
    if denied {
        let mut message = "elevation_required: cannot ".to_owned();
        text::append_text(&mut message, action);
        text::append_text(&mut message, " at ");
        text::append_text(&mut message, path);
        text::append_text(
            &mut message,
            " (run GameAssistant as administrator or move it to a writable folder)",
        );
        return message;
    }
    let mut message = action.to_owned();
    text::append_text(&mut message, " at ");
    text::append_text(&mut message, path);
    text::append_text(&mut message, ": ");
    text::append_text(&mut message, error);
    message
}

/// Tells whether the graphics card is used: it can be reached, and the
/// environment does not hide it.
pub fn detect_nvidia_gpu(visible_devices: Option<&str>, reachable: bool) -> (res: bool)
    ensures
        res == (reachable && !(visible_devices is Some && text::trimmed(visible_devices->0@)
            == "-1"@)),
{
    match visible_devices {
        Some(value) => {
            if text::same_text(text::trim_text(value).as_str(), "-1") {
                return false;
            }
        },
        None => {},
    }
    reachable
}

/// The words that lines with secrets hold.
pub open spec fn secret_markers() -> Seq<Seq<char>> {
    seq![
        "api_key"@,
        "apikey"@,
        "access_token"@,
        "refresh_token"@,
        "client_secret"@,
        "authorization"@,
        "bearer "@,
        "password"@,
    ]
}

/// Whether a line may hold a secret.
pub open spec fn is_secret_line(line: Seq<char>) -> bool {
    exists|i: int|
        0 <= i < secret_markers().len() && text::contains_text(
            text::ascii_lowered(line),
            #[trigger] secret_markers()[i],
        )
}

/// What is kept of a line.
pub open spec fn safe_line(line: Seq<char>) -> Option<Seq<char>> {
    if is_secret_line(line) || text::trimmed(line).len() == 0 {
        None
    } else {
        Some(text::trimmed(line))
    }
}

/// What is kept of some lines.
pub open spec fn safe_lines(lines: Seq<Seq<char>>) -> Seq<Seq<char>>
    decreases lines.len(),
{
    if lines.len() == 0 {
        Seq::empty()
    } else {
        match safe_line(lines.last()) {
            Some(line) => safe_lines(lines.drop_last()).push(line),
            None => safe_lines(lines.drop_last()),
        }
    }
}

/// The beginning of a text, with a mark where something was cut off.
pub open spec fn shortened(s: Seq<char>) -> Seq<char> {
    if s.len() > 512 {
        s.take(512).push('…')
    } else {
        s
    }
}

/// What is kept of the output of a probe.
pub open spec fn safe_detail(detail: Seq<char>) -> Seq<char> {
    shortened(text::joined(safe_lines(text::lines(detail)), " | "@))
}

fn is_secret(line: &str) -> (res: bool)
    ensures
        res == is_secret_line(line@),
{
    let lower = text::ascii_lower_text(line);
    let markers: Vec<&'static str> = vec![
        "api_key",
        "apikey",
        "access_token",
        "refresh_token",
        "client_secret",
        "authorization",
        "bearer ",
        "password",
    ];
    let ghost all = secret_markers();
    assert(text::static_views(markers@) == all);
    let mut i: usize = 0;
    while i < markers.len()
        invariant
            i <= markers@.len(),
            all == secret_markers(),
            text::static_views(markers@) == all,
            lower@ == text::ascii_lowered(line@),
            forall|k: int| 0 <= k < i ==> !text::contains_text(lower@, #[trigger] all[k]),
        decreases markers@.len() - i,
    {
        assert(all[i as int] == markers@[i as int]@);
        if text::text_contains(lower.as_str(), markers[i]) {
            return true;
        }
        i += 1;
    }
    false
}

/// What is kept of the output of a probe: its lines, without those that may
/// hold a secret, joined and cut to a fixed length.
pub fn secret_free_probe_detail(detail: &str) -> (res: String)
    ensures
        res@ == safe_detail(detail@),
{
    let lines = text::split_lines(detail);
    let ghost all = text::views(lines@);
    let mut kept: Vec<String> = Vec::new();
    let mut i: usize = 0;
    assert(safe_lines(all.take(0)) == Seq::<Seq<char>>::empty());
    while i < lines.len()
        invariant
            i <= lines@.len(),
            all == text::views(lines@),
            text::views(kept@) == safe_lines(all.take(i as int)),
        decreases lines@.len() - i,
    {
        let ghost before = kept@;
        assert(all[i as int] == lines@[i as int]@);
        if !is_secret(lines[i].as_str()) {
            let trimmed = text::trim_text(lines[i].as_str());
            if !trimmed.as_str().is_empty() {
                kept.push(trimmed);
                assert(text::views(kept@) == text::views(before).push(
                    text::trimmed(all[i as int]),
                ));
            }
        }
        i += 1;
        assert(all.take(i as int).drop_last() == all.take(i - 1));
        assert(all.take(i as int).last() == all[i - 1]);
    }
    assert(all.take(i as int) == all);
    let joined = text::join_texts(&kept, " | ");
    let chars = text::chars_of(joined.as_str());
    if chars.len() > 512 {
        let mut cut = text::string_of_range(&chars, 0, 512);
        cut.push('…');
        assert(chars@.subrange(0, 512) == chars@.take(512));
        return cut;
    }
    joined
}

/// Whether a text is one of some lines, trimmed, and that line holds no secret.
pub open spec fn is_public_line(lines: Seq<Seq<char>>, kept: Seq<char>) -> bool {
    exists|k: int|
        0 <= k < lines.len() && !is_secret_line(#[trigger] lines[k]) && text::trimmed(lines[k])
            == kept
}

/// No line that may hold a secret is kept, and the rest is bounded.
pub proof fn law_no_secret_line_is_kept(detail: Seq<char>)
    ensures
        safe_detail(detail).len() <= 513,
        forall|i: int|
            0 <= i < safe_lines(text::lines(detail)).len() ==> is_public_line(
                text::lines(detail),
                #[trigger] safe_lines(text::lines(detail))[i],
            ),
{
    let lines = text::lines(detail);
    assert forall|i: int| 0 <= i < safe_lines(lines).len() implies is_public_line(
        lines,
        #[trigger] safe_lines(lines)[i],
    ) by {
        lemma_safe_line(lines, i);
    }
}

proof fn lemma_safe_line(lines: Seq<Seq<char>>, i: int)
    requires
        0 <= i < safe_lines(lines).len(),
    ensures
        is_public_line(lines, safe_lines(lines)[i]),
    decreases lines.len(),
{
    let rest = safe_lines(lines.drop_last());
    if i < rest.len() {
        lemma_safe_line(lines.drop_last(), i);
        let k = choose|k: int|
            0 <= k < lines.drop_last().len() && !is_secret_line(#[trigger] lines.drop_last()[k])
                && text::trimmed(lines.drop_last()[k]) == rest[i];
        assert(lines[k] == lines.drop_last()[k]);
    } else {
        assert(lines[lines.len() - 1] == lines.last());
    }
}

/// How a probe ended.
#[derive(Debug)]
pub enum ProbeEnd {
    Succeeded,
    /// It could not be started.
    NotStarted(String),
    TimedOut,
    /// It could not be watched.
    Lost(String),
    /// Its output could not be read.
    Unread(String),
    /// It failed with this status and output.
    Failed { status: String, output: String },
}

/// The error of a probe, where it has one.
pub open spec fn probe_error(end: ProbeEnd, label: Seq<char>) -> Option<Seq<char>> {
    match end {
        ProbeEnd::Succeeded => None,
        ProbeEnd::NotStarted(error) => Some(label + " probe could not start: "@ + error@),
        ProbeEnd::TimedOut => Some(label + " probe timed out after 180s"@),
        ProbeEnd::Lost(error) => Some(label + " probe process polling failed: "@ + error@),
        ProbeEnd::Unread(error) => Some(label + " probe output could not be read: "@ + error@),
        ProbeEnd::Failed { status, output } => if safe_detail(output@).len() == 0 {
            Some(label + " probe failed with status "@ + status@)
        } else {
            Some(label + " probe failed: "@ + safe_detail(output@))
        },
    }
}

fn labelled(label: &str, problem: &str, detail: &str) -> (res: String)
    ensures
        res@ == label@ + problem@ + detail@,
{
    let mut message = label.to_owned();
    text::append_text(&mut message, problem);
    text::append_text(&mut message, detail);
    message
}

/// What a probe is told: where the runtime and its models are, one cache for
/// every library that keeps one, and to stay off the network.
pub open spec fn probe_variables(
    root: Seq<char>,
    models_dir: Seq<char>,
    cache_dir: Seq<char>,
) -> Seq<(Seq<char>, Seq<char>)> {
    seq![
        ("RUNTIME_ROOT"@, root),
        ("MODELS_DIR"@, models_dir),
        ("CACHE_DIR"@, cache_dir),
        ("HF_HOME"@, cache_dir),
        ("TRANSFORMERS_CACHE"@, cache_dir),
        ("HF_HUB_CACHE"@, cache_dir),
        ("HUGGINGFACE_HUB_CACHE"@, cache_dir),
        ("SENTENCE_TRANSFORMERS_HOME"@, cache_dir),
        ("HF_HUB_OFFLINE"@, "1"@),
        ("TRANSFORMERS_OFFLINE"@, "1"@),
    ]
}

/// The variables that are set for a probe.
pub fn probe_environment(root: &str, models_dir: &str, cache_dir: &str) -> (res: Vec<EnvVariable>)
    ensures
        variables(res@) == probe_variables(root@, models_dir@, cache_dir@),
{
    let mut list: Vec<EnvVariable> = Vec::new();
    set_variable(&mut list, "RUNTIME_ROOT", root);
    set_variable(&mut list, "MODELS_DIR", models_dir);
    set_variable(&mut list, "CACHE_DIR", cache_dir);
    set_variable(&mut list, "HF_HOME", cache_dir);
    set_variable(&mut list, "TRANSFORMERS_CACHE", cache_dir);
    set_variable(&mut list, "HF_HUB_CACHE", cache_dir);
    set_variable(&mut list, "HUGGINGFACE_HUB_CACHE", cache_dir);
    set_variable(&mut list, "SENTENCE_TRANSFORMERS_HOME", cache_dir);
    set_variable(&mut list, "HF_HUB_OFFLINE", "1");
    set_variable(&mut list, "TRANSFORMERS_OFFLINE", "1");
    assert(variables(list@) == probe_variables(root@, models_dir@, cache_dir@));
    list
}

/// Refuses to probe a runtime whose Python is not there.
pub fn check_probe_python(present: bool, python_path: &str) -> (res: Result<(), String>)
    ensures
        present ==> res is Ok,
        !present ==> res is Err && res->Err_0@ == "portable Python executable is missing at "@
            + python_path@,
{
    if present {
        return Ok(());
    }
    let mut message = "portable Python executable is missing at ".to_owned();
    text::append_text(&mut message, python_path);
    Err(message)
}

/// What the end of a probe comes to.
pub fn run_python_probe(end: &ProbeEnd, label: &str) -> (res: Result<(), String>)
    ensures
        match probe_error(*end, label@) {
            Some(error) => res is Err && res->Err_0@ == error,
            None => res is Ok,
        },
{
    match end {
        ProbeEnd::Succeeded => Ok(()),
        ProbeEnd::NotStarted(error) => Err(
            labelled(label, " probe could not start: ", error.as_str()),
        ),
        ProbeEnd::TimedOut => {
            let mut message = label.to_owned();
            text::append_text(&mut message, " probe timed out after 180s");
            Err(message)
        },
        ProbeEnd::Lost(error) => Err(
            labelled(label, " probe process polling failed: ", error.as_str()),
        ),
        ProbeEnd::Unread(error) => Err(
            labelled(label, " probe output could not be read: ", error.as_str()),
        ),
        ProbeEnd::Failed { status, output } => {
            let detail = secret_free_probe_detail(output.as_str());
            if detail.as_str().is_empty() {
                Err(labelled(label, " probe failed with status ", status.as_str()))
            } else {
                Err(labelled(label, " probe failed: ", detail.as_str()))
            }
        },
    }
}

/// A layer of the runtime that is probed.
#[derive(Debug, Clone, Copy, PartialEq, Eq, Structural)]
pub enum Probe {
    PythonImport,
    Tokenizer,
    Embedding,
}

impl Probe {
    /// The name of the probe.
    pub fn stage(self) -> (res: &'static str)
        ensures
            res@ == probe_stage(self),
    {
        match self {
            Probe::PythonImport => "python-import",
            Probe::Tokenizer => "tokenizer",
            Probe::Embedding => "embedding",
        }
    }

    /// What the probe is called where it is shown.
    pub fn label(self) -> (res: &'static str)
        ensures
            res@ == probe_label(self),
    {
        match self {
            Probe::PythonImport => "Python import",
            Probe::Tokenizer => "Tokenizer initialization",
            Probe::Embedding => "Embedding model initialization",
        }
    }
}

/// The name of a probe.
pub open spec fn probe_stage(probe: Probe) -> Seq<char> {
    match probe {
        Probe::PythonImport => "python-import"@,
        Probe::Tokenizer => "tokenizer"@,
        Probe::Embedding => "embedding"@,
    }
}

/// What a probe is called where it is shown.
pub open spec fn probe_label(probe: Probe) -> Seq<char> {
    match probe {
        Probe::PythonImport => "Python import"@,
        Probe::Tokenizer => "Tokenizer initialization"@,
        Probe::Embedding => "Embedding model initialization"@,
    }
}

/// What is said of a probe that succeeded.
pub open spec fn probe_success(probe: Probe) -> Seq<char> {
    match probe {
        Probe::PythonImport => "python_import_ready"@,
        Probe::Tokenizer => "tokenizer_ready"@,
        Probe::Embedding => "embedding_ready"@,
    }
}

/// What is said of a probe.
pub open spec fn probe_finding(probe: Probe, error: Option<Seq<char>>) -> Seq<char> {
    match error {
        Some(message) => message,
        None => probe_success(probe),
    }
}

/// The texts that are there.
pub open spec fn given(a: Option<Seq<char>>) -> Seq<Seq<char>> {
    match a {
        Some(t) => seq![t],
        None => Seq::empty(),
    }
}

/// What the probes found, by their errors.
pub open spec fn validation_of(
    fingerprint: Seq<char>,
    python_import: Option<Seq<char>>,
    tokenizer: Option<Seq<char>>,
    embedding: Option<Seq<char>>,
) -> bootstrap::ValidationModel {
    bootstrap::ValidationModel {
        fingerprint,
        python_import_ready: python_import is None,
        tokenizer_ready: tokenizer is None,
        embedding_ready: embedding is None,
        diagnostics: Map::<Seq<char>, Seq<char>>::empty().insert(
            "python-import"@,
            probe_finding(Probe::PythonImport, python_import),
        ).insert("tokenizer"@, probe_finding(Probe::Tokenizer, tokenizer)).insert(
            "embedding"@,
            probe_finding(Probe::Embedding, embedding),
        ),
    }
}

/// The errors of the probes, in order.
pub open spec fn probe_failures(
    python_import: Option<Seq<char>>,
    tokenizer: Option<Seq<char>>,
    embedding: Option<Seq<char>>,
) -> Seq<Seq<char>> {
    given(python_import) + given(tokenizer) + given(embedding)
}

/// The state after the probes.
pub open spec fn validated(
    state: SetupModel,
    validation: bootstrap::ValidationModel,
    failures: Seq<Seq<char>>,
) -> SetupModel {
    if failures.len() == 0 {
        SetupModel { validation, last_error: None, ..state }
    } else {
        SetupModel {
            validation,
            current_stage: SetupStage::Models,
            last_error: Some("runtime validation failed: "@ + text::joined(failures, "; "@)),
            ..state
        }
    }
}

fn note_probe(
    list: &mut Vec<Diagnostic>,
    failures: &mut Vec<String>,
    probe: Probe,
    error: &Option<String>,
)
    ensures
        bootstrap::diagnostic_map(final(list)@) == bootstrap::diagnostic_map(old(list)@).insert(
            probe_stage(probe),
            probe_finding(probe, text::opt_view(*error)),
        ),
        text::views(final(failures)@) == text::views(old(failures)@) + given(
            text::opt_view(*error),
        ),
{
    let ghost before = failures@;
    match error {
        Some(message) => {
            bootstrap::add_diagnostic(list, probe.stage(), message.as_str());
            failures.push(message.clone());
        },
        None => {
            let finding = match probe {
                Probe::PythonImport => "python_import_ready",
                Probe::Tokenizer => "tokenizer_ready",
                Probe::Embedding => "embedding_ready",
            };
            bootstrap::add_diagnostic(list, probe.stage(), finding);
        },
    }
    assert(text::views(failures@) == text::views(before) + given(text::opt_view(*error)));
}

/// Takes the results of the three probes: the error of each, where it had one.
/// Success and failure are both remembered, so that a stale environment is not
/// taken for a checked one.
pub fn validate_runtime(
    state: &mut SetupState,
    fingerprint: &str,
    python_import: &Option<String>,
    tokenizer: &Option<String>,
    embedding: &Option<String>,
) -> (res: Result<(), String>)
    ensures
        ({
            let failures = probe_failures(
                text::opt_view(*python_import),
                text::opt_view(*tokenizer),
                text::opt_view(*embedding),
            );
            let validation = validation_of(
                fingerprint@,
                text::opt_view(*python_import),
                text::opt_view(*tokenizer),
                text::opt_view(*embedding),
            );
            &&& final(state)@ == validated(old(state)@, validation, failures)
            &&& failures.len() == 0 ==> res is Ok
            &&& failures.len() > 0 ==> res is Err && res->Err_0@ == "runtime validation failed: "@
                + text::joined(failures, "; "@)
        }),
{
    let mut list: Vec<Diagnostic> = Vec::new();
    let mut failures: Vec<String> = Vec::new();
    assert(bootstrap::diagnostic_map(list@) == Map::<Seq<char>, Seq<char>>::empty());
    assert(text::views(failures@) == Seq::<Seq<char>>::empty());
    note_probe(&mut list, &mut failures, Probe::PythonImport, python_import);
    note_probe(&mut list, &mut failures, Probe::Tokenizer, tokenizer);
    note_probe(&mut list, &mut failures, Probe::Embedding, embedding);
    assert(text::views(failures@) == probe_failures(
        text::opt_view(*python_import),
        text::opt_view(*tokenizer),
        text::opt_view(*embedding),
    ));
    state.runtime_validation = RuntimeValidationState {
        fingerprint: fingerprint.to_owned(),
        python_import_ready: python_import.is_none(),
        tokenizer_ready: tokenizer.is_none(),
        embedding_ready: embedding.is_none(),
        diagnostics: list,
    };
    if failures.len() == 0 {
        state.last_error = None;
        return Ok(());
    }
    let mut message = "runtime validation failed: ".to_owned();
    text::append_text(&mut message, text::join_texts(&failures, "; ").as_str());
    state.current_stage = SetupStage::Models;
    state.last_error = Some(message.clone());
    Err(message)
}

/// The tool for packages is run without the settings of the machine and with
/// the cache of the runtime, whatever it is asked to do; the backend is named
/// only for a graphics card.
pub proof fn law_commands_do_not_read_the_machine(
    cache_dir: Seq<char>,
    args: Seq<Seq<char>>,
    python: Seq<char>,
    output: Seq<char>,
    requirements: Seq<char>,
    gpu: bool,
)
    ensures
        uv_arguments(cache_dir, args).len() == args.len() + 3,
        uv_arguments(cache_dir, args)[0] == "--no-config"@,
        uv_arguments(cache_dir, args)[1] == "--cache-dir"@,
        uv_arguments(cache_dir, args)[2] == cache_dir,
        uv_arguments(cache_dir, args).skip(3) == args,
        backend_arguments(false).len() == 0,
        backend_arguments(true) == seq!["--torch-backend"@, "cu128"@],
        compile_arguments(python, output, requirements, gpu).take(4) == seq![
            "pip"@,
            "compile"@,
            "--python"@,
            python,
        ],
        compile_arguments(python, output, requirements, gpu).last() == requirements,
        compile_arguments(python, output, requirements, gpu).contains("--generate-hashes"@),
        sync_arguments(python, output, gpu).take(4) == seq![
            "pip"@,
            "sync"@,
            "--python"@,
            python,
        ],
        sync_arguments(python, output, gpu).last() == output,
{
    assert(uv_arguments(cache_dir, args).skip(3) == args);
    let compile = compile_arguments(python, output, requirements, gpu);
    assert(compile.take(4) == seq!["pip"@, "compile"@, "--python"@, python]);
    let at: int = if gpu {
        6
    } else {
        4
    };
    assert(compile[at] == "--generate-hashes"@);
    assert(sync_arguments(python, output, gpu).take(4) == seq![
        "pip"@,
        "sync"@,
        "--python"@,
        python,
    ]);
}

/// Variables of the package tools are taken out in any spelling, and no others.
pub proof fn law_variables_of_the_tools_are_taken_out(key: Seq<char>)
    ensures
        is_manager_variable(key) == ({
            ||| key.len() >= 3 && (key[0] == 'u' || key[0] == 'U') && (key[1] == 'v' || key[1]
                == 'V') && key[2] == '_'
            ||| key.len() >= 4 && (key[0] == 'p' || key[0] == 'P') && (key[1] == 'i' || key[1]
                == 'I') && (key[2] == 'p' || key[2] == 'P') && key[3] == '_'
        }),
{
    reveal_strlit("uv_");
    reveal_strlit("pip_");
    let lowered = text::ascii_lowered(key);
    assert(lowered.len() == key.len());
    if key.len() >= 3 {
        assert(lowered.subrange(0, 3)[0] == lowered[0] && lowered.subrange(0, 3)[1] == lowered[1]
            && lowered.subrange(0, 3)[2] == lowered[2]);
        if lowered[0] == 'u' && lowered[1] == 'v' && lowered[2] == '_' {
            assert(lowered.subrange(0, 3) =~= "uv_"@);
        }
    }
    if key.len() >= 4 {
        assert(lowered.subrange(0, 4)[0] == lowered[0] && lowered.subrange(0, 4)[1] == lowered[1]
            && lowered.subrange(0, 4)[2] == lowered[2] && lowered.subrange(0, 4)[3] == lowered[3]);
        if lowered[0] == 'p' && lowered[1] == 'i' && lowered[2] == 'p' && lowered[3] == '_' {
            assert(lowered.subrange(0, 4) =~= "pip_"@);
        }
    }
}

/// A file of the program is written where it is missing or differs from it, and
/// left where it is the same; nothing is written for an empty one.
pub proof fn law_changed_files_are_written_again(bytes: Seq<u8>, file_sha256: Seq<char>)
    ensures
        bytes.len() > 0 ==> must_extract(bytes, false, Some(file_sha256)),
        bytes.len() > 0 ==> must_extract(bytes, true, None),
        bytes.len() > 0 ==> must_extract(bytes, true, Some(file_sha256)) == (file_sha256
            != digest::fingerprint(bytes)),
        bytes.len() == 0 ==> !must_extract(bytes, false, None),
{
}

/// The packages are there exactly where the lock file is the one remembered
/// and the mark names it.
pub proof fn law_packages_are_there_when_marked(
    lock_is_file: bool,
    found: Seq<char>,
    marker: Option<Seq<char>>,
    lock_sha256: Seq<char>,
)
    ensures
        dependencies_installed(lock_is_file, Some(found), marker, lock_sha256) == (lock_is_file
            && found == lock_sha256 && marker is Some && text::trimmed(marker->0) == lock_sha256),
{
}

/// A refusal by the system asks for elevation, and any other failure names
/// itself; either names the action and the place.
pub proof fn law_refusals_ask_for_elevation(
    action: Seq<char>,
    path: Seq<char>,
    error: Seq<char>,
)
    ensures
        io_error(action, path, true, error) == "elevation_required: cannot "@ + action + " at "@
            + path
            + " (run GameAssistant as administrator or move it to a writable folder)"@,
        io_error(action, path, false, error) == action + " at "@ + path + ": "@ + error,
{
}

/// Lines without secrets are kept, trimmed and in their order; blank ones and
/// those with a mark of a secret in any spelling are left out.
pub proof fn law_plain_lines_are_kept(before: Seq<Seq<char>>, line: Seq<char>)
    ensures
        safe_lines(Seq::empty()) == Seq::<Seq<char>>::empty(),
        ({
            let lowered = text::ascii_lowered(line);
            let secret = text::contains_text(lowered, "api_key"@) || text::contains_text(
                lowered,
                "apikey"@,
            ) || text::contains_text(lowered, "access_token"@) || text::contains_text(
                lowered,
                "refresh_token"@,
            ) || text::contains_text(lowered, "client_secret"@) || text::contains_text(
                lowered,
                "authorization"@,
            ) || text::contains_text(lowered, "bearer "@) || text::contains_text(
                lowered,
                "password"@,
            );
            &&& secret || text::is_blank(line) ==> safe_lines(before.push(line)) == safe_lines(
                before,
            )
            &&& !secret && !text::is_blank(line) ==> safe_lines(before.push(line)) == safe_lines(
                before,
            ).push(text::trimmed(line))
        }),
{
    text::lemma_blank_iff_trimmed_empty(line);
    assert(before.push(line).drop_last() == before);
    assert(before.push(line).last() == line);
    let marks = secret_markers();
    assert(marks.len() == 8);
    assert(marks[0] == "api_key"@ && marks[1] == "apikey"@ && marks[2] == "access_token"@
        && marks[3] == "refresh_token"@ && marks[4] == "client_secret"@ && marks[5]
        == "authorization"@ && marks[6] == "bearer "@ && marks[7] == "password"@);
}

/// Long findings are cut after five hundred and twelve characters, and the cut
/// is shown; others are kept as they are.
pub proof fn law_long_findings_are_cut(s: Seq<char>)
    ensures
        s.len() <= 512 ==> shortened(s) == s,
        s.len() > 512 ==> shortened(s).len() == 513 && shortened(s).take(512) == s.take(512)
            && shortened(s).last() == '…',
{
    if s.len() > 512 {
        assert(shortened(s).take(512) == s.take(512));
    }
}

/// A probe that succeeded has nothing wrong with it, and any other end names
/// the probe and what became of it.
pub proof fn law_failed_probes_say_why(end: ProbeEnd, label: Seq<char>)
    ensures
        (probe_error(end, label) is None) == (end is Succeeded),
        end is TimedOut ==> probe_error(end, label) == Some(label + " probe timed out after 180s"@),
        end matches ProbeEnd::NotStarted(error) ==> probe_error(end, label) == Some(
            label + " probe could not start: "@ + error@,
        ),
        end matches ProbeEnd::Failed { status, output } ==> safe_detail(output@).len() > 0
            ==> probe_error(end, label) == Some(
            label + " probe failed: "@ + safe_detail(output@),
        ),
        end matches ProbeEnd::Failed { status, output } ==> safe_detail(output@).len() == 0
            ==> probe_error(end, label) == Some(
            label + " probe failed with status "@ + status@,
        ),
{
}

/// A validation fails exactly where a probe does, tells of every failure in
/// their order, and leaves the setup at the models; one that succeeds forgets
/// the error before it.
pub proof fn law_a_validation_fails_with_a_probe(
    state: SetupModel,
    fingerprint: Seq<char>,
    python: Option<Seq<char>>,
    tokenizer: Option<Seq<char>>,
    embedding: Option<Seq<char>>,
)
    ensures
        ({
            let failures = probe_failures(python, tokenizer, embedding);
            let found = validation_of(fingerprint, python, tokenizer, embedding);
            let after = validated(state, found, failures);
            &&& (failures.len() == 0) == (python is None && tokenizer is None && embedding is None)
            &&& python matches Some(error) ==> failures[0] == error
            &&& embedding matches Some(error) ==> failures.last() == error
            &&& tokenizer matches Some(error) ==> failures.contains(error)
            &&& after.validation == found
            &&& after.completed == state.completed
            &&& failures.len() == 0 ==> after.last_error is None && after.current_stage
                == state.current_stage
            &&& failures.len() > 0 ==> after.last_error is Some && after.current_stage
                == SetupStage::Models
            &&& python is Some && tokenizer is None && embedding is None ==> after.last_error
                == Some("runtime validation failed: "@ + python->0)
            &&& found.fingerprint == fingerprint
            &&& found.python_import_ready == (python is None)
            &&& found.tokenizer_ready == (tokenizer is None)
            &&& found.embedding_ready == (embedding is None)
        }),
{
    let failures = probe_failures(python, tokenizer, embedding);
    if let Some(error) = tokenizer {
        let at: int = if python is Some {
            1
        } else {
            0
        };
        assert(failures[at] == error);
    }
    if python is Some && tokenizer is None && embedding is None {
        assert(failures == seq![python->0]);
        assert(text::joined(failures, "; "@) == python->0);
    }
}

/// Every directory of a runtime is created: those of Python, the environment,
/// the models, the cache, the logs and the scripts, and the one that the server
/// for the summaries stands in.
pub proof fn law_all_directories_are_created(layout: RuntimeLayout, root: PathModel)
    requires
        bootstrap::is_layout(layout, root),
    ensures
        directories_of(layout).contains(root.join(".python"@)),
        directories_of(layout).contains(root.join("venv"@)),
        directories_of(layout).contains(root.join("models"@)),
        directories_of(layout).contains(root.join(".uv-cache"@)),
        directories_of(layout).contains(root.join("logs"@)),
        directories_of(layout).contains(root.join("scripts"@)),
        directories_of(layout).contains(root.join("runtime"@).join("llama"@)),
{
    let list = directories_of(layout);
    assert(layout.llama_server_path@.parent().parts == root.parts.push("runtime"@).push("llama"@));
    assert(list[0] == root.join(".python"@));
    assert(list[1] == root.join("venv"@));
    assert(list[2] == root.join("models"@));
    assert(list[3] == root.join(".uv-cache"@));
    assert(list[4] == root.join("logs"@));
    assert(list[5] == root.join("scripts"@));
    assert(list[6] == root.join("runtime"@).join("llama"@));
}

/// Every resource is put below the root under its own name: the servers among
/// the scripts, everything else in the root itself.
pub proof fn law_resources_keep_their_names(layout: RuntimeLayout, root: PathModel, i: int)
    requires
        bootstrap::is_layout(layout, root),
        0 <= i < targets_of(layout).len(),
    ensures
        targets_of(layout).len() == 12,
        targets_of(layout)[i].1.root == root.root,
        targets_of(layout)[i].1.parts.last() == targets_of(layout)[i].0,
        i < 2 ==> targets_of(layout)[i].1.parent().parts == root.parts.push("scripts"@),
        i >= 2 ==> targets_of(layout)[i].1.parent().parts == root.parts,
        targets_of(layout)[0].0 == "asr_server.py"@,
        targets_of(layout)[2].0 == "requirements.txt"@,
        targets_of(layout)[6].0 == "uv.exe"@,
{
    let target = targets_of(layout)[i].1;
    if i < 2 {
        assert(target.parent().parts == root.parts.push("scripts"@));
    } else {
        assert(target.parent().parts == root.parts);
    }
}

/// A probe looks for its models where they are, keeps every cache in one place,
/// and stays off the network.
pub proof fn law_probes_stay_off_the_network(
    root: Seq<char>,
    models_dir: Seq<char>,
    cache_dir: Seq<char>,
)
    ensures
        ({
            let told = probe_variables(root, models_dir, cache_dir);
            &&& told.contains(("HF_HUB_OFFLINE"@, "1"@))
            &&& told.contains(("TRANSFORMERS_OFFLINE"@, "1"@))
            &&& told.contains(("RUNTIME_ROOT"@, root))
            &&& told.contains(("MODELS_DIR"@, models_dir))
            &&& told.contains(("CACHE_DIR"@, cache_dir))
            &&& told.contains(("HF_HOME"@, cache_dir))
            &&& told.contains(("TRANSFORMERS_CACHE"@, cache_dir))
            &&& told.contains(("HF_HUB_CACHE"@, cache_dir))
            &&& told.contains(("HUGGINGFACE_HUB_CACHE"@, cache_dir))
            &&& told.contains(("SENTENCE_TRANSFORMERS_HOME"@, cache_dir))
        }),
{
    let told = probe_variables(root, models_dir, cache_dir);
    assert(told[8] == ("HF_HUB_OFFLINE"@, "1"@));
    assert(told[9] == ("TRANSFORMERS_OFFLINE"@, "1"@));
    assert(told[0] == ("RUNTIME_ROOT"@, root));
    assert(told[1] == ("MODELS_DIR"@, models_dir));
    assert(told[2] == ("CACHE_DIR"@, cache_dir));
    assert(told[3] == ("HF_HOME"@, cache_dir));
    assert(told[4] == ("TRANSFORMERS_CACHE"@, cache_dir));
    assert(told[5] == ("HF_HUB_CACHE"@, cache_dir));
    assert(told[6] == ("HUGGINGFACE_HUB_CACHE"@, cache_dir));
    assert(told[7] == ("SENTENCE_TRANSFORMERS_HOME"@, cache_dir));
}

/// Each probe has a finding under its own name: its error, or that it went
/// well; and a probe is ready where it had no error.
pub proof fn law_findings_stand_under_their_probe(
    fingerprint: Seq<char>,
    python: Option<Seq<char>>,
    tokenizer: Option<Seq<char>>,
    embedding: Option<Seq<char>>,
)
    ensures
        ({
            let found = validation_of(fingerprint, python, tokenizer, embedding);
            &&& found.fingerprint == fingerprint
            &&& found.python_import_ready == (python is None)
            &&& found.tokenizer_ready == (tokenizer is None)
            &&& found.embedding_ready == (embedding is None)
            &&& found.diagnostics.dom().contains("python-import"@)
            &&& found.diagnostics.dom().contains("tokenizer"@)
            &&& found.diagnostics.dom().contains("embedding"@)
            &&& python matches Some(error) ==> found.diagnostics["python-import"@] == error
            &&& tokenizer matches Some(error) ==> found.diagnostics["tokenizer"@] == error
            &&& embedding matches Some(error) ==> found.diagnostics["embedding"@] == error
            &&& tokenizer is None ==> found.diagnostics["tokenizer"@] == probe_success(
                Probe::Tokenizer,
            )
        }),
{
    reveal_strlit("python-import");
    reveal_strlit("tokenizer");
    reveal_strlit("embedding");
    assert("tokenizer"@[0] == 't' && "embedding"@[0] == 'e' && "python-import"@[0] == 'p');
}

} // verus!
