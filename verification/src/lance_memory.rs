//! The rules of the long-term memory: what is kept, what is summarised, and in
//! which states a summary can be.
use vstd::prelude::*;

use crate::clock;
use crate::identifiers;
use crate::ordering;
use crate::text;

verus! {

pub const LANCE_DB_DIR: &'static str = "data/lancedb";

/// The older table, which is only read.
pub const MEMORIES_TABLE: &'static str = "memories";

/// The table that is written.
pub const MEMORY_V2_TABLE: &'static str = "memories_v2";

pub const VECTOR_DIM: i32 = 768;

pub const LEGACY_IMPORT_MARKER: &'static str = ".legacy_memories_v1.imported";

/// How many rows are imported at a time.
pub const IMPORT_BATCH_SIZE: usize = 2048;

pub const MEMORY_SCHEMA_VERSION: u32 = 2;

pub const SUMMARY_STATUS_PENDING: &'static str = "pending";

pub const SUMMARY_STATUS_COMPLETED: &'static str = "completed";

pub const SUMMARY_STATUS_SKIPPED: &'static str = "skipped";

pub const SUMMARY_STATUS_FALLBACK: &'static str = "fallback";

pub const SUMMARY_STATUS_ERROR: &'static str = "error";

pub const SUMMARY_STATUS_LEGACY: &'static str = "legacy";

pub const SUMMARY_STATUS_DELETED: &'static str = "deleted";

pub const VECTOR_SOURCE_DOCUMENT: &'static str = "document";

pub const VECTOR_SOURCE_SUMMARY: &'static str = "summary";

pub const VECTOR_SOURCE_NONE: &'static str = "none";

pub const SUMMARY_MODEL_ID: &'static str = "gemma-3-1b-it-Q4_K_S.gguf";

/// The version of the contract that summaries are made under. Summaries of
/// another version can be made again.
pub const SUMMARY_PROMPT_VERSION: &'static str = "v3";

/// How far the import of the older table has come.
#[derive(Debug)]
pub struct MemoryMigrationStatus {
    pub status: String,
    pub processed: usize,
    pub total: Option<usize>,
    pub message: String,
    pub error: Option<String>,
}

/// How far an import has come.
pub struct MigrationModel {
    pub status: Seq<char>,
    pub processed: usize,
    pub total: Option<usize>,
    pub message: Seq<char>,
    pub error: Option<Seq<char>>,
}

impl View for MemoryMigrationStatus {
    type V = MigrationModel;

    open spec fn view(&self) -> MigrationModel {
        MigrationModel {
            status: self.status@,
            processed: self.processed,
            total: self.total,
            message: self.message@,
            error: text::opt_view(self.error),
        }
    }
}

/// The state before any import.
pub open spec fn idle_migration() -> MigrationModel {
    MigrationModel {
        status: "idle"@,
        processed: 0,
        total: None,
        message: Seq::empty(),
        error: None,
    }
}

impl MigrationModel {
    /// The rows reported never exceed the rows there are.
    pub open spec fn bounded(self) -> bool {
        self.total matches Some(total) ==> self.processed <= total
    }

    pub open spec fn begun(self, total: usize) -> MigrationModel {
        MigrationModel {
            status: "running"@,
            processed: 0,
            total: Some(total),
            message: "Migrating legacy LanceDB memories..."@,
            error: None,
        }
    }

    pub open spec fn updated(self, processed: usize) -> MigrationModel {
        MigrationModel {
            processed: match self.total {
                Some(total) => if processed <= total {
                    processed
                } else {
                    total
                },
                None => processed,
            },
            ..self
        }
    }

    pub open spec fn completed(self, total: usize) -> MigrationModel {
        MigrationModel {
            status: "completed"@,
            processed: total,
            total: Some(total),
            message: "Legacy LanceDB memories migrated."@,
            error: None,
        }
    }

    pub open spec fn failed(self, error: Seq<char>) -> MigrationModel {
        MigrationModel {
            status: "error"@,
            message: "Legacy LanceDB migration failed."@,
            error: Some(error),
            ..self
        }
    }
}

impl Default for MemoryMigrationStatus {
    fn default() -> (res: Self)
        ensures
            res@ == idle_migration(),
    {
        MemoryMigrationStatus {
            status: "idle".to_owned(),
            processed: 0,
            total: None,
            message: String::new(),
            error: None,
        }
    }
}

/// Follows an import while it runs.
pub struct MemoryMigrationProgress {
    status: MemoryMigrationStatus,
}

impl View for MemoryMigrationProgress {
    type V = MigrationModel;

    closed spec fn view(&self) -> MigrationModel {
        self.status@
    }
}

impl Default for MemoryMigrationProgress {
    fn default() -> (res: Self)
        ensures
            res@ == idle_migration(),
    {
        MemoryMigrationProgress { status: MemoryMigrationStatus::default() }
    }
}

impl MemoryMigrationProgress {
    /// How far the import has come.
    pub fn snapshot(&self) -> (res: MemoryMigrationStatus)
        ensures
            res@ == self@,
    {
        MemoryMigrationStatus {
            status: self.status.status.clone(),
            processed: self.status.processed,
            total: self.status.total,
            message: self.status.message.clone(),
            error: duplicate_option(&self.status.error),
        }
    }

    /// The import begins.
    pub fn begin(&mut self, total: usize)
        ensures
            final(self)@ == old(self)@.begun(total),
    {
        self.status.status = "running".to_owned();
        self.status.processed = 0;
        self.status.total = Some(total);
        self.status.message = "Migrating legacy LanceDB memories...".to_owned();
        self.status.error = None;
    }

    /// Some rows are done.
    pub fn update(&mut self, processed: usize)
        ensures
            final(self)@ == old(self)@.updated(processed),
    {
        self.status.processed = match self.status.total {
            Some(total) => if processed <= total {
                processed
            } else {
                total
            },
            None => processed,
        };
    }

    /// The import is done.
    pub fn complete(&mut self, total: usize)
        ensures
            final(self)@ == old(self)@.completed(total),
    {
        self.status.status = "completed".to_owned();
        self.status.processed = total;
        self.status.total = Some(total);
        self.status.message = "Legacy LanceDB memories migrated.".to_owned();
        self.status.error = None;
    }

    /// The import failed.
    pub fn fail(&mut self, error: &str)
        ensures
            final(self)@ == old(self)@.failed(error@),
    {
        self.status.status = "error".to_owned();
        self.status.message = "Legacy LanceDB migration failed.".to_owned();
        self.status.error = Some(error.to_owned());
    }
}

/// Whatever is reported, the rows done never exceed the rows there are.
pub proof fn law_migration_progress_is_bounded(
    progress: MigrationModel,
    total: usize,
    processed: usize,
    error: Seq<char>,
)
    requires
        progress.bounded(),
    ensures
        idle_migration().bounded(),
        progress.begun(total).bounded(),
        progress.updated(processed).bounded(),
        progress.completed(total).bounded(),
        progress.failed(error).bounded(),
{
}

/// A text that may be missing, once more.
pub fn duplicate_option(value: &Option<String>) -> (res: Option<String>)
    ensures
        text::opt_view(res) == text::opt_view(*value),
        res == *value,
{
    match value {
        Some(t) => Some(t.clone()),
        None => None,
    }
}

/// Whether an event may be summarised.
#[derive(Debug, Clone, Copy, PartialEq, Eq, Structural)]
pub enum SummaryAdmission {
    /// The kind of event is allowed, and its content can be used.
    Eligible,
    /// The kind of event is never summarised.
    NotApplicable,
    /// The kind of event is allowed, but its content is empty, cannot be used,
    /// or says nothing that lasts.
    Invalid,
}

/// Whether events of a kind are said by a human, and may be summarised.
pub open spec fn is_candidate_type(memory_type: Seq<char>) -> bool {
    memory_type == "user_speech"@ || memory_type == "discord_speech"@ || memory_type
        == "twitch_chat"@
}

/// Tells whether events of a kind may be summarised.
pub fn is_summary_candidate_type(memory_type: &str) -> (res: bool)
    ensures
        res == is_candidate_type(memory_type@),
{
    text::same_text(memory_type, "user_speech") || text::same_text(memory_type, "discord_speech")
        || text::same_text(memory_type, "twitch_chat")
}

/// The utterances that carry no lasting fact.
pub open spec fn ephemeral_texts() -> Seq<Seq<char>> {
    seq![
        "ああ"@,
        "あー"@,
        "ええ"@,
        "えー"@,
        "おお"@,
        "おー"@,
        "はい"@,
        "はいはい"@,
        "うん"@,
        "うんうん"@,
        "そう"@,
        "そうそう"@,
        "そうですね"@,
        "なるほど"@,
        "なるほどね"@,
        "いいね"@,
        "どうも"@,
        "こんにちは"@,
        "こんばんは"@,
        "よろしく"@,
        "よろしくお願いします"@,
        "ありがとう"@,
        "ありがとうございます"@,
        "またね"@,
        "お疲れ様"@,
        "お疲れ様でした"@,
        "おつかれさま"@,
        "おつかれさまでした"@,
        "了解"@,
        "わかりました"@,
        "分かりました"@,
        "ok"@,
        "ｗ"@,
        "www"@,
    ]
}

/// The text without white space, in lower case as far as ASCII goes.
pub open spec fn compact_text(content: Seq<char>) -> Seq<char> {
    text::ascii_lowered(text::without_white(text::trimmed(content)))
}

/// Whether a text is one character at most, or one of the utterances that carry
/// no lasting fact.
pub open spec fn is_ephemeral(content: Seq<char>) -> bool {
    compact_text(content).len() <= 1 || ephemeral_texts().contains(compact_text(content))
}

/// Tells whether a text carries no lasting fact. Only whole utterances are
/// compared.
pub fn is_ephemeral_summary_text(content: &str) -> (res: bool)
    ensures
        res == is_ephemeral(content@),
{
    let trimmed = text::trim_text(content);
    let spoken = text::remove_white(trimmed.as_str());
    let compact = text::ascii_lower_text(spoken.as_str());
    let chars = text::chars_of(compact.as_str());
    if chars.len() <= 1 {
        return true;
    }
    let list: Vec<&'static str> = vec![
        "ああ",
        "あー",
        "ええ",
        "えー",
        "おお",
        "おー",
        "はい",
        "はいはい",
        "うん",
        "うんうん",
        "そう",
        "そうそう",
        "そうですね",
        "なるほど",
        "なるほどね",
        "いいね",
        "どうも",
        "こんにちは",
        "こんばんは",
        "よろしく",
        "よろしくお願いします",
        "ありがとう",
        "ありがとうございます",
        "またね",
        "お疲れ様",
        "お疲れ様でした",
        "おつかれさま",
        "おつかれさまでした",
        "了解",
        "わかりました",
        "分かりました",
        "ok",
        "ｗ",
        "www",
    ];
    assert(text::static_views(list@) == ephemeral_texts());
    text::is_one_of(&list, compact.as_str())
}

/// Whether a character keeps a text out of the model: a control character other
/// than the ends of lines and the tabulator.
pub open spec fn is_forbidden(c: char) -> bool {
    text::is_control(c) && c != '\n' && c != '\r' && c != '\t'
}

/// Whether a content can be handed to the privacy policy at all.
pub open spec fn is_admissible(content: Seq<char>) -> bool {
    &&& text::trimmed(content).len() > 0
    &&& forall|i: int|
        0 <= i < text::trimmed(content).len() ==> !is_forbidden(
            #[trigger] text::trimmed(content)[i],
        )
}

/// The text that the privacy policy is asked about, if there is any.
pub fn summary_input(content: &str) -> (res: Option<String>)
    ensures
        is_admissible(content@) ==> res is Some && res->0@ == text::trimmed(content@),
        !is_admissible(content@) ==> res is None,
{
    let input = text::trim_text(content);
    let chars = text::chars_of(input.as_str());
    if chars.len() == 0 {
        return None;
    }
    let mut i: usize = 0;
    while i < chars.len()
        invariant
            i <= chars@.len(),
            chars@ == text::trimmed(content@),
            forall|k: int| 0 <= k < i ==> !is_forbidden(#[trigger] text::trimmed(content@)[k]),
        decreases chars@.len() - i,
    {
        let c: char = chars[i];
        if text::is_control_char(c) && c != '\n' && c != '\r' && c != '\t' {
            assert(is_forbidden(text::trimmed(content@)[i as int]));
            return None;
        }
        i += 1;
    }
    Some(input)
}

/// The document that a model may see: what the privacy policy left of the
/// content, where it left anything. `redaction` is the policy's answer on the
/// trimmed content; `None` where it refused.
pub open spec fn redacted_document(content: Seq<char>, redaction: Option<Seq<char>>) -> Option<
    Seq<char>,
> {
    match redaction {
        Some(kept) => if is_admissible(content) && text::trimmed(kept).len() > 0 {
            Some(text::trimmed(kept))
        } else {
            None
        },
        None => None,
    }
}

/// Whether an event may be summarised, given the answer of the privacy policy.
pub open spec fn admission(
    event_type: Seq<char>,
    content: Seq<char>,
    redaction: Option<Seq<char>>,
) -> SummaryAdmission {
    if !is_candidate_type(event_type) {
        SummaryAdmission::NotApplicable
    } else {
        match redacted_document(content, redaction) {
            Some(document) => if is_ephemeral(document) {
                SummaryAdmission::Invalid
            } else {
                SummaryAdmission::Eligible
            },
            None => SummaryAdmission::Invalid,
        }
    }
}

/// The document that a model may see, given the answer of the privacy policy.
pub fn redacted_summary_document(content: &str, redaction: &Option<String>) -> (res: Option<String>)
    ensures
        text::opt_view(res) == redacted_document(content@, text::opt_view(*redaction)),
{
    match redaction {
        Some(kept) => {
            if summary_input(content).is_none() {
                return None;
            }
            let document = text::trim_text(kept.as_str());
            if document.as_str().is_empty() {
                None
            } else {
                Some(document)
            }
        },
        None => None,
    }
}

/// Classifies an event, given the answer of the privacy policy on its content.
pub fn summary_admission(
    event_type: &str,
    content: &str,
    redaction: &Option<String>,
) -> (res: SummaryAdmission)
    ensures
        res == admission(event_type@, content@, text::opt_view(*redaction)),
{
    if !is_summary_candidate_type(event_type) {
        return SummaryAdmission::NotApplicable;
    }
    match redacted_summary_document(content, redaction) {
        Some(document) => {
            if is_ephemeral_summary_text(document.as_str()) {
                SummaryAdmission::Invalid
            } else {
                SummaryAdmission::Eligible
            }
        },
        None => SummaryAdmission::Invalid,
    }
}

/// The document of an event that may be summarised, given the answer of the
/// privacy policy; else why it may not.
pub fn admit_summary_document(
    event_type: &str,
    content: &str,
    redaction: &Option<String>,
) -> (res: Result<String, SummaryAdmission>)
    ensures
        match res {
            Ok(document) => admission(event_type@, content@, text::opt_view(*redaction))
                == SummaryAdmission::Eligible && redacted_document(
                content@,
                text::opt_view(*redaction),
            ) == Some(document@),
            Err(reason) => reason != SummaryAdmission::Eligible && admission(
                event_type@,
                content@,
                text::opt_view(*redaction),
            ) == reason,
        },
{
    match summary_admission(event_type, content, redaction) {
        SummaryAdmission::Eligible => match redacted_summary_document(content, redaction) {
            Some(document) => Ok(document),
            None => Err(SummaryAdmission::Invalid),
        },
        other => Err(other),
    }
}

/// Only events said by humans reach the model, whatever the privacy policy
/// answers.
pub proof fn law_only_human_events_are_admitted(
    event_type: Seq<char>,
    content: Seq<char>,
    redaction: Option<Seq<char>>,
)
    ensures
        admission(event_type, content, redaction) == SummaryAdmission::Eligible
            ==> is_candidate_type(event_type) && is_admissible(content) && redaction is Some,
        !is_candidate_type(event_type) ==> admission(event_type, content, redaction)
            == SummaryAdmission::NotApplicable,
        text::is_blank(content) ==> admission(event_type, content, redaction)
            != SummaryAdmission::Eligible,
{
    text::lemma_blank_iff_trimmed_empty(content);
}

/// What one name of a path is.
#[derive(Debug, PartialEq, Eq)]
pub enum PathPart {
    /// The beginning of an absolute path.
    Root(String),
    /// The directory itself.
    CurDir,
    /// The directory above.
    ParentDir,
    Normal(String),
}

/// What a name of a path is.
pub enum PathPartModel {
    Root(Seq<char>),
    CurDir,
    ParentDir,
    Normal(Seq<char>),
}

impl View for PathPart {
    type V = PathPartModel;

    open spec fn view(&self) -> PathPartModel {
        match self {
            PathPart::Root(name) => PathPartModel::Root(name@),
            PathPart::CurDir => PathPartModel::CurDir,
            PathPart::ParentDir => PathPartModel::ParentDir,
            PathPart::Normal(name) => PathPartModel::Normal(name@),
        }
    }
}

/// A path, taken apart.
#[derive(Debug)]
pub struct PathShape {
    pub absolute: bool,
    pub parts: Vec<PathPart>,
}

pub open spec fn part_views(parts: Seq<PathPart>) -> Seq<PathPartModel> {
    parts.map_values(|p: PathPart| p@)
}

impl PathShape {
    /// Whether the path goes up or stays in place somewhere.
    pub open spec fn traverses(self) -> bool {
        exists|i: int|
            0 <= i < self.parts@.len() && (#[trigger] self.parts@[i] is CurDir || self.parts@[i] is ParentDir)
    }

    /// Whether the path begins with all the names of `base`.
    pub open spec fn starts_with(self, base: PathShape) -> bool {
        &&& base.parts@.len() <= self.parts@.len()
        &&& part_views(self.parts@).take(base.parts@.len() as int) == part_views(base.parts@)
    }
}

/// What was found at one of the components of a path.
#[derive(Debug)]
pub enum FoundComponent {
    /// A file or directory that is no link.
    Plain,
    Missing,
    Link,
    /// It could not be looked at.
    Failed(String),
}

/// Tells whether a path goes up or stays in place somewhere.
pub fn has_traversal(path: &PathShape) -> (res: bool)
    ensures
        res == path.traverses(),
{
    let mut i: usize = 0;
    while i < path.parts.len()
        invariant
            i <= path.parts@.len(),
            forall|k: int|
                0 <= k < i ==> !(#[trigger] path.parts@[k] is CurDir) && !(path.parts@[k] is ParentDir),
        decreases path.parts@.len() - i,
    {
        match &path.parts[i] {
            PathPart::CurDir => {
                return true;
            },
            PathPart::ParentDir => {
                return true;
            },
            _ => {},
        }
        i += 1;
    }
    false
}

fn same_part(a: &PathPart, b: &PathPart) -> (res: bool)
    ensures
        res == (a@ == b@),
{
    match (a, b) {
        (PathPart::Root(x), PathPart::Root(y)) => text::same_text(x.as_str(), y.as_str()),
        (PathPart::CurDir, PathPart::CurDir) => true,
        (PathPart::ParentDir, PathPart::ParentDir) => true,
        (PathPart::Normal(x), PathPart::Normal(y)) => text::same_text(x.as_str(), y.as_str()),
        _ => false,
    }
}

fn path_starts_with(path: &PathShape, base: &PathShape) -> (res: bool)
    ensures
        res == path.starts_with(*base),
{
    let ghost p = part_views(path.parts@);
    let ghost b = part_views(base.parts@);
    if base.parts.len() > path.parts.len() {
        return false;
    }
    let mut i: usize = 0;
    while i < base.parts.len()
        invariant
            i <= base.parts@.len() <= path.parts@.len(),
            p == part_views(path.parts@),
            b == part_views(base.parts@),
            p.take(i as int) == b.take(i as int),
        decreases base.parts@.len() - i,
    {
        assert(p[i as int] == path.parts@[i as int]@ && b[i as int] == base.parts@[i as int]@);
        if !same_part(&path.parts[i], &base.parts[i]) {
            assert(p.take(b.len() as int)[i as int] != b[i as int]);
            return false;
        }
        assert(p.take(i + 1) == p.take(i as int).push(p[i as int]));
        assert(b.take(i + 1) == b.take(i as int).push(b[i as int]));
        i += 1;
    }
    assert(b.take(b.len() as int) == b);
    true
}

/// What is wrong with a path because of what was found at its components, the
/// path itself first and the directories above it after it: the first link or
/// failure counts, and what is missing does not.
pub open spec fn link_error(label: Seq<char>, found: Seq<FoundComponent>) -> Option<Seq<char>>
    decreases found.len(),
{
    if found.len() == 0 {
        None
    } else {
        match found[0] {
            FoundComponent::Link => Some(label + " must not contain links or reparse points"@),
            FoundComponent::Failed(error) => Some("Failed to inspect "@ + label + ": "@ + error@),
            _ => link_error(label, found.drop_first()),
        }
    }
}

/// Refuses a path on which there is a link, or that could not be inspected.
pub fn validate_no_reparse_components(found: &Vec<FoundComponent>, label: &str) -> (res: Result<
    (),
    String,
>)
    ensures
        match link_error(label@, found@) {
            Some(message) => res is Err && res->Err_0@ == message,
            None => res is Ok,
        },
{
    let mut i: usize = 0;
    assert(found@.skip(0) == found@);
    while i < found.len()
        invariant
            i <= found@.len(),
            link_error(label@, found@) == link_error(label@, found@.skip(i as int)),
        decreases found@.len() - i,
    {
        assert(found@.skip(i as int).drop_first() == found@.skip(i + 1));
        match &found[i] {
            FoundComponent::Link => {
                let mut message = label.to_owned();
                text::append_text(&mut message, " must not contain links or reparse points");
                return Err(message);
            },
            FoundComponent::Failed(error) => {
                let mut message = "Failed to inspect ".to_owned();
                text::append_text(&mut message, label);
                text::append_text(&mut message, ": ");
                text::append_text(&mut message, error.as_str());
                return Err(message);
            },
            _ => {},
        }
        i += 1;
    }
    Ok(())
}

/// Whether nothing on a path leads elsewhere.
pub open spec fn is_link_free(found: Seq<FoundComponent>) -> bool {
    forall|i: int|
        0 <= i < found.len() ==> #[trigger] found[i] is Plain || found[i] is Missing
}

proof fn lemma_link_free(label: Seq<char>, found: Seq<FoundComponent>)
    ensures
        link_error(label, found) is None <==> is_link_free(found),
    decreases found.len(),
{
    if found.len() > 0 {
        let rest = found.drop_first();
        lemma_link_free(label, rest);
        if is_link_free(rest) && (found[0] is Plain || found[0] is Missing) {
            assert forall|i: int| 0 <= i < found.len() implies #[trigger] found[i] is Plain
                || found[i] is Missing by {
                if i > 0 {
                    assert(rest[i - 1] == found[i]);
                }
            }
        }
        if is_link_free(found) {
            assert forall|i: int| 0 <= i < rest.len() implies #[trigger] rest[i] is Plain
                || rest[i] is Missing by {
                assert(rest[i] == found[i + 1]);
            }
        }
    }
}

/// What is wrong with a database root, if anything is.
pub open spec fn root_error(root: PathShape, links: Seq<FoundComponent>) -> Option<Seq<char>> {
    if !root.absolute {
        Some("LanceDB root must be absolute"@)
    } else if root.traverses() {
        Some("LanceDB root must not contain traversal components"@)
    } else {
        link_error("LanceDB root"@, links)
    }
}

/// Refuses a database root that is relative, goes up, or leads over a link.
pub fn validate_root_dir(root: &PathShape, links: &Vec<FoundComponent>) -> (res: Result<(), String>)
    ensures
        match root_error(*root, links@) {
            Some(message) => res is Err && res->Err_0@ == message,
            None => res is Ok,
        },
{
    if !root.absolute {
        return Err("LanceDB root must be absolute".to_owned());
    }
    if has_traversal(root) {
        return Err("LanceDB root must not contain traversal components".to_owned());
    }
    validate_no_reparse_components(links, "LanceDB root")
}

/// What is wrong with a path that has to stay below the root, if anything is.
pub open spec fn inside_error(
    root: PathShape,
    root_links: Seq<FoundComponent>,
    path: PathShape,
    links: Seq<FoundComponent>,
    label: Seq<char>,
) -> Option<Seq<char>> {
    match root_error(root, root_links) {
        Some(message) => Some(message),
        None => if path.traverses() {
            Some(label + " must not contain traversal components"@)
        } else if !path.starts_with(root) {
            Some(label + " must remain inside the LanceDB root"@)
        } else {
            link_error(label, links)
        },
    }
}

/// Refuses a path that leaves the root, goes up, or leads over a link.
pub fn validate_path_inside_root(
    root: &PathShape,
    root_links: &Vec<FoundComponent>,
    path: &PathShape,
    links: &Vec<FoundComponent>,
    label: &str,
) -> (res: Result<(), String>)
    ensures
        match inside_error(*root, root_links@, *path, links@, label@) {
            Some(message) => res is Err && res->Err_0@ == message,
            None => res is Ok,
        },
{
    match validate_root_dir(root, root_links) {
        Err(message) => {
            return Err(message);
        },
        Ok(_) => {},
    }
    if has_traversal(path) {
        let mut message = label.to_owned();
        text::append_text(&mut message, " must not contain traversal components");
        return Err(message);
    }
    if !path_starts_with(path, root) {
        let mut message = label.to_owned();
        text::append_text(&mut message, " must remain inside the LanceDB root");
        return Err(message);
    }
    validate_no_reparse_components(links, label)
}

/// A path that is accepted stays below its root.
pub proof fn law_accepted_paths_stay_inside(
    root: PathShape,
    root_links: Seq<FoundComponent>,
    path: PathShape,
    links: Seq<FoundComponent>,
    label: Seq<char>,
)
    ensures
        inside_error(root, root_links, path, links, label) is None ==> root.absolute
            && path.starts_with(root) && !path.traverses() && is_link_free(links) && is_link_free(
            root_links,
        ),
{
    lemma_link_free("LanceDB root"@, root_links);
    lemma_link_free(label, links);
}

/// Whether a text is one plain name of a file or directory.
pub open spec fn is_safe_component(value: Seq<char>) -> bool {
    &&& value.len() > 0
    &&& value != "."@
    &&& value != ".."@
    &&& forall|i: int|
        0 <= i < value.len() ==> #[trigger] value[i] != '/' && value[i] != '\\' && value[i] != ':'
            && value[i] != '\0'
}

/// Refuses a name that is empty, leads elsewhere, or holds a separator.
pub fn validate_safe_component(value: &str, label: &str) -> (res: Result<(), String>)
    ensures
        is_safe_component(value@) ==> res is Ok,
        !is_safe_component(value@) ==> res is Err && res->Err_0@ == label@
            + " must be a single safe component"@,
{
    let chars = text::chars_of(value);
    let mut safe = chars.len() > 0 && !text::same_text(value, ".") && !text::same_text(value, "..");
    let mut i: usize = 0;
    while i < chars.len()
        invariant
            i <= chars@.len(),
            chars@ == value@,
            safe == (value@.len() > 0 && value@ != "."@ && value@ != ".."@ && forall|k: int|
                0 <= k < i ==> #[trigger] value@[k] != '/' && value@[k] != '\\' && value@[k] != ':'
                    && value@[k] != '\0'),
        decreases chars@.len() - i,
    {
        let c: char = chars[i];
        if c == '/' || c == '\\' || c == ':' || c == '\0' {
            safe = false;
        }
        i += 1;
    }
    if safe {
        Ok(())
    } else {
        let mut message = label.to_owned();
        text::append_text(&mut message, " must be a single safe component");
        Err(message)
    }
}

/// Whether a character can stand in a name made by this program.
pub open spec fn is_name_char(c: char) -> bool {
    text::is_ascii_letter(c) || text::is_ascii_digit(c) || c == '-' || c == '_'
}

/// Whether a text is made of letters, digits, hyphens and underscores.
pub open spec fn is_plain_name(name: Seq<char>) -> bool {
    name.len() > 0 && forall|i: int| 0 <= i < name.len() ==> is_name_char(#[trigger] name[i])
}

fn is_plain_name_text(name: &str) -> (res: bool)
    ensures
        res == is_plain_name(name@),
{
    let chars = text::chars_of(name);
    if chars.len() == 0 {
        return false;
    }
    let mut i: usize = 0;
    while i < chars.len()
        invariant
            i <= chars@.len(),
            chars@ == name@,
            forall|k: int| 0 <= k < i ==> is_name_char(#[trigger] name@[k]),
        decreases chars@.len() - i,
    {
        let c: char = chars[i];
        if !(text::is_ascii_letter_char(c) || text::is_ascii_digit_char(c) || c == '-' || c == '_') {
            assert(!is_name_char(name@[i as int]));
            return false;
        }
        i += 1;
    }
    true
}

proof fn lemma_plain_names_are_safe(name: Seq<char>)
    requires
        is_plain_name(name),
    ensures
        is_safe_component(name),
{
    reveal_strlit(".");
    reveal_strlit("..");
    assert(is_name_char(name[0]));
    assert forall|i: int| 0 <= i < name.len() implies #[trigger] name[i] != '/' && name[i] != '\\'
        && name[i] != ':' && name[i] != '\0' by {
        assert(is_name_char(name[i]));
    }
}

/// Refuses the name of a backup that is no plain name.
pub fn validate_safe_backup_name(name: &str) -> (res: Result<(), String>)
    ensures
        is_plain_name(name@) ==> res is Ok,
        !is_plain_name(name@) ==> res is Err && res->Err_0@
            == "Backup name must be a single safe component"@,
{
    proof {
        if is_plain_name(name@) {
            lemma_plain_names_are_safe(name@);
        }
        reveal_strlit("Backup name");
        reveal_strlit(" must be a single safe component");
        reveal_strlit("Backup name must be a single safe component");
        assert("Backup name"@ + " must be a single safe component"@
            == "Backup name must be a single safe component"@);
    }
    match validate_safe_component(name, "Backup name") {
        Err(message) => {
            return Err(message);
        },
        Ok(_) => {},
    }
    if is_plain_name_text(name) {
        Ok(())
    } else {
        Err("Backup name must be a single safe component".to_owned())
    }
}

/// Refuses an identifier that cannot be the name of a file.
pub fn validate_memory_id(id: &str) -> (res: Result<(), String>)
    ensures
        is_plain_name(id@) ==> res is Ok,
        !is_plain_name(id@) ==> res is Err && res->Err_0@
            == "memory id cannot be used for a raw document backup"@,
{
    if is_plain_name_text(id) {
        Ok(())
    } else {
        Err("memory id cannot be used for a raw document backup".to_owned())
    }
}

/// A name that is accepted for a backup or a raw document is a single name: it
/// leads to no other directory.
pub proof fn law_accepted_names_are_single_components(name: Seq<char>)
    requires
        is_plain_name(name),
    ensures
        is_safe_component(name),
        !text::contains_text(name, "/"@),
        !text::contains_text(name, ".."@),
{
    lemma_plain_names_are_safe(name);
    reveal_strlit("/");
    reveal_strlit("..");
    assert forall|at: int| !text::occurs_at(name, "/"@, at) by {
        if text::occurs_at(name, "/"@, at) {
            assert(name.subrange(at, at + 1)[0] == name[at]);
        }
    }
    assert forall|at: int| !text::occurs_at(name, ".."@, at) by {
        if text::occurs_at(name, ".."@, at) {
            assert(name.subrange(at, at + 2)[0] == name[at]);
            assert(is_name_char(name[at]));
        }
    }
}

/// What was found in the directory of the snapshots.
#[derive(Debug)]
pub enum BackupEntry {
    /// It could not be looked at; this is what is told of it.
    Unknown(String),
    /// A link, or another way out of the directory.
    Link,
    /// A directory whose name is no text.
    Unnamed,
    /// A directory.
    Directory(String),
    /// Anything else.
    Other,
}

/// What is wrong with an entry in the directory of the snapshots.
pub open spec fn backup_entry_error(entry: BackupEntry) -> Option<Seq<char>> {
    match entry {
        BackupEntry::Unknown(message) => Some(message@),
        BackupEntry::Link => Some(
            "LanceDB backup directory must not contain links or reparse points"@,
        ),
        BackupEntry::Unnamed => Some("LanceDB backup name is not valid UTF-8"@),
        BackupEntry::Directory(name) => if is_plain_name(name@) {
            None
        } else {
            Some("Backup name must be a single safe component"@)
        },
        BackupEntry::Other => None,
    }
}

/// The names of the snapshots, as they were found, or what is wrong with the
/// first entry that is in the way.
pub open spec fn found_backups(entries: Seq<BackupEntry>) -> Result<Seq<Seq<char>>, Seq<char>>
    decreases entries.len(),
{
    if entries.len() == 0 {
        Ok(Seq::empty())
    } else {
        match found_backups(entries.drop_last()) {
            Err(message) => Err(message),
            Ok(names) => match backup_entry_error(entries.last()) {
                Some(message) => Err(message),
                None => match entries.last() {
                    BackupEntry::Directory(name) => Ok(names.push(name@)),
                    _ => Ok(names),
                },
            },
        }
    }
}

proof fn lemma_backups_stop_at_an_error(entries: Seq<BackupEntry>, count: int)
    requires
        0 <= count <= entries.len(),
        found_backups(entries.take(count)) is Err,
    ensures
        found_backups(entries) == found_backups(entries.take(count)),
    decreases entries.len() - count,
{
    if count < entries.len() {
        assert(entries.take(count + 1).drop_last() == entries.take(count));
        lemma_backups_stop_at_an_error(entries, count + 1);
    } else {
        assert(entries.take(count) == entries);
    }
}

fn check_backup_entry(entry: &BackupEntry) -> (res: Result<(), String>)
    ensures
        match backup_entry_error(*entry) {
            Some(message) => res is Err && res->Err_0@ == message,
            None => res is Ok,
        },
{
    match entry {
        BackupEntry::Unknown(message) => Err(message.clone()),
        BackupEntry::Link => Err(
            "LanceDB backup directory must not contain links or reparse points".to_owned(),
        ),
        BackupEntry::Unnamed => Err("LanceDB backup name is not valid UTF-8".to_owned()),
        BackupEntry::Directory(name) => validate_safe_backup_name(name.as_str()),
        BackupEntry::Other => Ok(()),
    }
}

fn backup_names(entries: &Vec<BackupEntry>) -> (res: Result<Vec<String>, String>)
    ensures
        match found_backups(entries@) {
            Ok(names) => res is Ok && text::views(res->Ok_0@) == names,
            Err(message) => res is Err && res->Err_0@ == message,
        },
{
    let mut names: Vec<String> = Vec::new();
    let mut i: usize = 0;
    assert(text::views(names@) == Seq::<Seq<char>>::empty());
    assert(entries@.take(0) == Seq::<BackupEntry>::empty());
    while i < entries.len()
        invariant
            i <= entries@.len(),
            found_backups(entries@.take(i as int)) == Ok::<Seq<Seq<char>>, Seq<char>>(
                text::views(names@),
            ),
        decreases entries@.len() - i,
    {
        let ghost before = names@;
        assert(entries@.take(i + 1).drop_last() == entries@.take(i as int));
        assert(entries@.take(i + 1).last() == entries@[i as int]);
        match check_backup_entry(&entries[i]) {
            Err(message) => {
                proof {
                    lemma_backups_stop_at_an_error(entries@, i + 1);
                }
                return Err(message);
            },
            Ok(_) => {},
        }
        if let BackupEntry::Directory(name) = &entries[i] {
            names.push(name.clone());
            assert(text::views(names@) == text::views(before).push(name@));
        }
        i += 1;
    }
    assert(entries@.take(i as int) == entries@);
    Ok(names)
}

/// How many snapshots are kept.
pub const KEPT_BACKUPS: usize = 5;

/// How many snapshots are too many.
pub open spec fn surplus_backups(count: int) -> int {
    if count > KEPT_BACKUPS {
        count - KEPT_BACKUPS
    } else {
        0
    }
}

/// The snapshots beside one of them, in order.
pub open spec fn other_backups(names: Seq<Seq<char>>, made: Seq<char>) -> Seq<Seq<char>>
    decreases names.len(),
{
    if names.len() == 0 {
        Seq::empty()
    } else {
        let rest = other_backups(names.drop_last(), made);
        if names.last() == made {
            rest
        } else {
            rest.push(names.last())
        }
    }
}

/// How many of the other snapshots are deleted.
pub open spec fn removal_count(names: Seq<Seq<char>>, made: Seq<char>) -> int {
    let surplus = surplus_backups(names.len() as int);
    let others = other_backups(names, made).len() as int;
    if surplus < others {
        surplus
    } else {
        others
    }
}

/// The snapshots that are deleted after one was made: the oldest of the others,
/// so that five are left. The name of a snapshot begins with the time, which
/// tells the age of the others; the one that was just made is the newest,
/// whatever its name.
pub open spec fn surplus(names: Seq<Seq<char>>, made: Seq<char>) -> Seq<Seq<char>> {
    ordering::in_order(
        other_backups(names, made),
        ordering::ranking(other_backups(names, made), false).take(removal_count(names, made)),
    )
}

proof fn lemma_others(names: Seq<Seq<char>>, made: Seq<char>)
    ensures
        !other_backups(names, made).contains(made),
        forall|i: int|
            0 <= i < other_backups(names, made).len() ==> names.contains(
                #[trigger] other_backups(names, made)[i],
            ),
        names.no_duplicates() ==> other_backups(names, made).len() >= names.len() - 1,
        names.no_duplicates() && !names.contains(made) ==> other_backups(names, made).len()
            == names.len(),
    decreases names.len(),
{
    if names.len() > 0 {
        let before = names.drop_last();
        let rest = other_backups(before, made);
        lemma_others(before, made);
        assert forall|i: int| 0 <= i < other_backups(names, made).len() implies names.contains(
            #[trigger] other_backups(names, made)[i],
        ) by {
            if i < rest.len() {
                assert(before.contains(rest[i]));
                let k = before.index_of(rest[i]);
                assert(names[k] == rest[i]);
            } else {
                assert(names[names.len() - 1] == other_backups(names, made)[i]);
            }
        }
        if other_backups(names, made).contains(made) {
            let k = other_backups(names, made).index_of(made);
            if k < rest.len() {
                assert(rest[k] == made);
                assert(rest.contains(made));
            }
        }
        if names.no_duplicates() {
            assert(before.no_duplicates());
            if before.contains(made) {
                let k = before.index_of(made);
                assert(names[k] == made);
                assert(names.contains(made));
            }
            if names.last() == made && before.contains(made) {
                let k = before.index_of(made);
                assert(names[k] == names[names.len() - 1]);
            }
            if !names.contains(made) {
                assert(names.last() != made) by {
                    assert(names[names.len() - 1] == names.last());
                }
            }
        }
    }
}

proof fn lemma_removed(names: Seq<Seq<char>>, made: Seq<char>)
    ensures
        surplus(names, made).len() == removal_count(names, made),
        forall|i: int|
            0 <= i < surplus(names, made).len() ==> other_backups(names, made).contains(
                #[trigger] surplus(names, made)[i],
            ),
        !surplus(names, made).contains(made),
{
    let others = other_backups(names, made);
    let order = ordering::ranking(others, false);
    ordering::law_every_list_has_a_ranking(others, false);
    lemma_others(names, made);
    assert forall|i: int| 0 <= i < surplus(names, made).len() implies others.contains(
        #[trigger] surplus(names, made)[i],
    ) by {
        assert(0 <= order[i] < others.len());
        assert(others[order[i]] == surplus(names, made)[i]);
    }
    if surplus(names, made).contains(made) {
        let k = surplus(names, made).index_of(made);
        assert(others.contains(surplus(names, made)[k]));
    }
}

/// After a snapshot was made, as many are deleted as there are more than five:
/// the one that was just made is none of them, and of the others none that is
/// deleted is newer than one that is kept.
pub proof fn law_the_newest_backups_are_kept(
    names: Seq<Seq<char>>,
    made: Seq<char>,
    removed: int,
    kept: int,
)
    requires
        names.no_duplicates(),
        names.contains(made),
        0 <= removed < surplus_backups(names.len() as int) <= kept < names.len() - 1,
    ensures
        !surplus(names, made).contains(made),
        surplus(names, made).len() == surplus_backups(names.len() as int),
        surplus(names, made)[removed] == other_backups(names, made)[ordering::ranking(
            other_backups(names, made),
            false,
        )[removed]],
        !ordering::text_lt(
            other_backups(names, made)[ordering::ranking(other_backups(names, made), false)[kept]],
            surplus(names, made)[removed],
        ),
{
    let others = other_backups(names, made);
    lemma_others(names, made);
    lemma_removed(names, made);
    ordering::law_every_list_has_a_ranking(others, false);
    let order = ordering::ranking(others, false);
    assert(ordering::ranks_before(others, false, order[removed], order[kept]));
    ordering::lemma_lt_total(others[order[removed]], others[order[kept]]);
    ordering::lemma_lt_irreflexive(others[order[kept]]);
}

fn without_backup(names: &Vec<String>, made: &str) -> (res: Vec<String>)
    ensures
        text::views(res@) == other_backups(text::views(names@), made@),
{
    let ghost all = text::views(names@);
    let mut res: Vec<String> = Vec::new();
    let mut i: usize = 0;
    assert(text::views(res@) == other_backups(all.take(0), made@));
    while i < names.len()
        invariant
            i <= names@.len(),
            all == text::views(names@),
            text::views(res@) == other_backups(all.take(i as int), made@),
        decreases names@.len() - i,
    {
        let ghost before = res@;
        let same = text::same_text(names[i].as_str(), made);
        if !same {
            res.push(names[i].clone());
            assert(text::views(res@) == text::views(before).push(all[i as int]));
        }
        i += 1;
        assert(all.take(i as int).drop_last() == all.take(i - 1));
        assert(all.take(i as int).last() == all[i - 1]);
    }
    assert(all.take(i as int) == all);
    res
}

/// The snapshots that are deleted after a new one was made, or what is in the
/// way of looking for them.
pub fn backups_to_remove(entries: &Vec<BackupEntry>, made: &str) -> (res: Result<
    Vec<String>,
    String,
>)
    ensures
        match found_backups(entries@) {
            Ok(names) => {
                &&& res is Ok
                &&& text::views(res->Ok_0@) == surplus(names, made@)
                &&& !text::views(res->Ok_0@).contains(made@)
                &&& names.no_duplicates() ==> res->Ok_0@.len() == surplus_backups(
                    names.len() as int,
                )
            },
            Err(message) => res is Err && res->Err_0@ == message,
        },
{
    match backup_names(entries) {
        Ok(names) => {
            let others = without_backup(&names, made);
            proof {
                lemma_others(text::views(names@), made@);
                lemma_removed(text::views(names@), made@);
            }
            let surplus: usize = if names.len() > KEPT_BACKUPS {
                names.len() - KEPT_BACKUPS
            } else {
                0
            };
            let count: usize = if surplus < others.len() {
                surplus
            } else {
                others.len()
            };
            assert(text::views(others@).len() == others@.len());
            Ok(oldest_names(&others, count))
        },
        Err(message) => Err(message),
    }
}

fn oldest_names(names: &Vec<String>, count: usize) -> (res: Vec<String>)
    requires
        count <= names@.len(),
    ensures
        text::views(res@) == ordering::in_order(
            text::views(names@),
            ordering::ranking(text::views(names@), false).take(count as int),
        ),
        res@.len() == count,
{
    let keys = ordering::keys_of(names);
    let ghost all = text::views(names@);
    let order = ordering::rank_by_keys(&keys, false);
    let ghost ranks = ordering::indexes(order@);
    let mut res: Vec<String> = Vec::new();
    let mut i: usize = 0;
    while i < count
        invariant
            i <= count <= names@.len(),
            all == text::views(names@),
            order@.len() == names@.len(),
            ranks == ordering::indexes(order@),
            forall|k: int| 0 <= k < order@.len() ==> #[trigger] order@[k] < names@.len(),
            res@.len() == i,
            text::views(res@) == ordering::in_order(all, ranks.take(i as int)),
        decreases count - i,
    {
        let ghost before = res@;
        let at: usize = order[i];
        assert(ranks[i as int] == at);
        res.push(names[at].clone());
        i += 1;
        assert(ranks.take(i as int) == ranks.take(i - 1).push(ranks[i - 1]));
        assert(text::views(res@) == text::views(before).push(all[at as int]));
        assert(ordering::in_order(all, ranks.take(i as int)) == ordering::in_order(all, ranks.take(i - 1)).push(
            all[at as int],
        ));
    }
    res
}

/// Some snapshots, the newest first.
pub open spec fn newest_first(names: Seq<Seq<char>>) -> Seq<Seq<char>> {
    ordering::in_order(names, ordering::ranking(names, true))
}

/// Lists the snapshots, the newest first, or tells what is in the way.
pub fn list_lance_backups(entries: &Vec<BackupEntry>) -> (res: Result<Vec<String>, String>)
    ensures
        match found_backups(entries@) {
            Ok(names) => res is Ok && text::views(res->Ok_0@) == newest_first(names),
            Err(message) => res is Err && res->Err_0@ == message,
        },
{
    match backup_names(entries) {
        Ok(names) => Ok(sorted_names(&names)),
        Err(message) => Err(message),
    }
}

fn sorted_names(names: &Vec<String>) -> (res: Vec<String>)
    ensures
        text::views(res@) == newest_first(text::views(names@)),
{
    let keys = ordering::keys_of(names);
    let ghost all = text::views(names@);
    let order = ordering::rank_by_keys(&keys, true);
    let ghost ranks = ordering::indexes(order@);
    let mut res: Vec<String> = Vec::new();
    let mut i: usize = 0;
    while i < order.len()
        invariant
            i <= order@.len(),
            all == text::views(names@),
            order@.len() == names@.len(),
            ranks == ordering::indexes(order@),
            forall|k: int| 0 <= k < order@.len() ==> #[trigger] order@[k] < names@.len(),
            text::views(res@) == ordering::in_order(all, ranks.take(i as int)),
        decreases order@.len() - i,
    {
        let ghost before = res@;
        let at: usize = order[i];
        assert(ranks[i as int] == at);
        res.push(names[at].clone());
        i += 1;
        assert(ranks.take(i as int) == ranks.take(i - 1).push(ranks[i - 1]));
        assert(text::views(res@) == text::views(before).push(all[at as int]));
        assert(ordering::in_order(all, ranks.take(i as int)) == ordering::in_order(all, ranks.take(i - 1)).push(
            all[at as int],
        ));
    }
    assert(ranks.take(i as int) == ranks);
    res
}

/// The name of a new snapshot, from the time and an unique suffix.
pub fn backup_name(now: &str, suffix: &str) -> (res: String)
    ensures
        res@ == "backup_"@ + now@ + "_"@ + suffix@,
{
    let mut name = "backup_".to_owned();
    text::append_text(&mut name, now);
    text::append_text(&mut name, "_");
    text::append_text(&mut name, suffix);
    name
}

/// The name of a new snapshot, where it can be the name of a directory.
pub fn checked_backup_name(now: &str, suffix: &str) -> (res: Result<String, String>)
    ensures
        is_plain_name("backup_"@ + now@ + "_"@ + suffix@) ==> res is Ok && res->Ok_0@ == "backup_"@
            + now@ + "_"@ + suffix@,
        !is_plain_name("backup_"@ + now@ + "_"@ + suffix@) ==> res is Err && res->Err_0@
            == "Backup name must be a single safe component"@,
{
    let name = backup_name(now, suffix);
    match validate_safe_backup_name(name.as_str()) {
        Ok(_) => Ok(name),
        Err(message) => Err(message),
    }
}

/// The name of a new snapshot is accepted, as long as the year takes no plus.
pub proof fn law_new_snapshots_have_accepted_names(now: Seq<char>, suffix: Seq<char>)
    requires
        clock::is_file_time(now),
        now[0] != '+',
        identifiers::is_plain_identifier(suffix),
    ensures
        is_plain_name("backup_"@ + now + "_"@ + suffix),
{
    let name = "backup_"@ + now + "_"@ + suffix;
    reveal_strlit("backup_");
    reveal_strlit("_");
    assert forall|i: int| 0 <= i < name.len() implies is_name_char(#[trigger] name[i]) by {
        if 7 <= i < 7 + now.len() {
            let year = now.take(now.len() - 11);
            assert(name[i] == now[i - 7]);
            assert(i - 7 < year.len() ==> year[i - 7] == now[i - 7]);
        } else if i > 7 + now.len() {
            assert(name[i] == suffix[i - 8 - now.len()]);
            assert(identifiers::is_lower_hex(suffix[i - 8 - now.len()]));
        }
    }
}

/// Whether a summary may go from one status to another.
pub open spec fn transition_allowed(current: Option<Seq<char>>, next: Seq<char>) -> bool {
    ||| current == Some(next)
    ||| current == Some(SUMMARY_STATUS_PENDING@) && (next == SUMMARY_STATUS_COMPLETED@ || next
        == SUMMARY_STATUS_SKIPPED@ || next == SUMMARY_STATUS_FALLBACK@ || next
        == SUMMARY_STATUS_ERROR@)
    ||| next == SUMMARY_STATUS_PENDING@ && (current == Some(SUMMARY_STATUS_FALLBACK@) || current
        == Some(SUMMARY_STATUS_ERROR@) || current == Some(SUMMARY_STATUS_SKIPPED@))
}

/// The view of a text slice that may be missing.
pub open spec fn opt_str_view(value: Option<&str>) -> Option<Seq<char>> {
    match value {
        Some(t) => Some(t@),
        None => None,
    }
}

/// Tells whether a summary may go from one status to another. A status may be
/// set again; a pending summary may end; and an ended one may be opened again
/// by an explicit retry, unless it is completed.
pub fn summary_status_transition_allowed(current: Option<&str>, next: &str) -> (res: bool)
    ensures
        res == transition_allowed(opt_str_view(current), next@),
{
    match current {
        Some(status) => {
            text::same_text(status, next) || (text::same_text(status, SUMMARY_STATUS_PENDING) && (
            text::same_text(next, SUMMARY_STATUS_COMPLETED) || text::same_text(
                next,
                SUMMARY_STATUS_SKIPPED,
            ) || text::same_text(next, SUMMARY_STATUS_FALLBACK) || text::same_text(
                next,
                SUMMARY_STATUS_ERROR,
            ))) || (text::same_text(next, SUMMARY_STATUS_PENDING) && (text::same_text(
                status,
                SUMMARY_STATUS_FALLBACK,
            ) || text::same_text(status, SUMMARY_STATUS_ERROR) || text::same_text(
                status,
                SUMMARY_STATUS_SKIPPED,
            )))
        },
        None => false,
    }
}

/// The statuses begin with different letters.
pub proof fn lemma_statuses_differ()
    ensures
        SUMMARY_STATUS_PENDING@[0] == 'p',
        SUMMARY_STATUS_COMPLETED@[0] == 'c',
        SUMMARY_STATUS_SKIPPED@[0] == 's',
        SUMMARY_STATUS_FALLBACK@[0] == 'f',
        SUMMARY_STATUS_ERROR@[0] == 'e',
        SUMMARY_STATUS_LEGACY@[0] == 'l',
        SUMMARY_STATUS_DELETED@[0] == 'd',
{
    reveal_strlit("pending");
    reveal_strlit("completed");
    reveal_strlit("skipped");
    reveal_strlit("fallback");
    reveal_strlit("error");
    reveal_strlit("legacy");
    reveal_strlit("deleted");
}

/// A completed or deleted summary keeps its status for good, and what has no
/// status gets none.
pub proof fn law_final_statuses_stay(next: Seq<char>)
    ensures
        transition_allowed(Some(SUMMARY_STATUS_COMPLETED@), next) ==> next
            == SUMMARY_STATUS_COMPLETED@,
        transition_allowed(Some(SUMMARY_STATUS_DELETED@), next) ==> next == SUMMARY_STATUS_DELETED@,
        !transition_allowed(None, next),
{
    lemma_statuses_differ();
}

/// Setting the same status again is always allowed.
pub proof fn law_statuses_can_be_repeated(status: Seq<char>)
    ensures
        transition_allowed(Some(status), status),
{
}

/// An ended summary can be opened again only by going back to pending, and can
/// go to no other end.
pub proof fn law_ended_summaries_only_reopen(current: Seq<char>, next: Seq<char>)
    requires
        current == SUMMARY_STATUS_SKIPPED@ || current == SUMMARY_STATUS_FALLBACK@ || current
            == SUMMARY_STATUS_ERROR@,
        transition_allowed(Some(current), next),
    ensures
        next == current || next == SUMMARY_STATUS_PENDING@,
{
    lemma_statuses_differ();
}

/// One memory.
#[derive(Debug, Clone)]
pub struct MemoryItem {
    pub id: String,
    pub document: String,
    pub memory_type: String,
    pub source: String,
    pub timestamp: String,
    pub user_id: Option<String>,
}

/// What a memory is.
pub struct ItemModel {
    pub id: Seq<char>,
    pub document: Seq<char>,
    pub memory_type: Seq<char>,
    pub source: Seq<char>,
    pub timestamp: Seq<char>,
    pub user_id: Option<Seq<char>>,
}

impl View for MemoryItem {
    type V = ItemModel;

    open spec fn view(&self) -> ItemModel {
        ItemModel {
            id: self.id@,
            document: self.document@,
            memory_type: self.memory_type@,
            source: self.source@,
            timestamp: self.timestamp@,
            user_id: text::opt_view(self.user_id),
        }
    }
}

impl MemoryItem {
    /// The memory once more.
    pub fn duplicate(&self) -> (res: MemoryItem)
        ensures
            res@ == self@,
    {
        MemoryItem {
            id: self.id.clone(),
            document: self.document.clone(),
            memory_type: self.memory_type.clone(),
            source: self.source.clone(),
            timestamp: self.timestamp.clone(),
            user_id: duplicate_option(&self.user_id),
        }
    }
}

/// A page of memories.
#[derive(Debug, Clone)]
pub struct MemoryListResponse {
    pub success: bool,
    pub total: usize,
    pub memories: Vec<MemoryItem>,
}

/// What an import did.
#[derive(Debug, Clone)]
pub struct MigrationStats {
    pub success: bool,
    pub imported_count: usize,
    pub message: String,
}

/// A stored row, with the state of its summary.
#[derive(Debug, Clone)]
pub struct StoredMemory {
    pub id: String,
    pub document: String,
    pub memory_type: String,
    pub source: String,
    pub timestamp: String,
    pub user_id: Option<String>,
    pub summary: Option<String>,
    pub summary_status: Option<String>,
    pub summary_model: Option<String>,
    pub summary_prompt_version: Option<String>,
    pub vector_source: Option<String>,
}

/// What a stored row is.
pub struct StoredModel {
    pub item: ItemModel,
    pub summary: Option<Seq<char>>,
    pub summary_status: Option<Seq<char>>,
    pub summary_model: Option<Seq<char>>,
    pub summary_prompt_version: Option<Seq<char>>,
    pub vector_source: Option<Seq<char>>,
}

impl View for StoredMemory {
    type V = StoredModel;

    open spec fn view(&self) -> StoredModel {
        StoredModel {
            item: ItemModel {
                id: self.id@,
                document: self.document@,
                memory_type: self.memory_type@,
                source: self.source@,
                timestamp: self.timestamp@,
                user_id: text::opt_view(self.user_id),
            },
            summary: text::opt_view(self.summary),
            summary_status: text::opt_view(self.summary_status),
            summary_model: text::opt_view(self.summary_model),
            summary_prompt_version: text::opt_view(self.summary_prompt_version),
            vector_source: text::opt_view(self.vector_source),
        }
    }
}

/// A row found by a search. The document is the text as it was said.
#[derive(Debug, Clone)]
pub struct MemorySearchHit {
    pub item: MemoryItem,
    pub summary: Option<String>,
    pub summary_status: Option<String>,
    pub summary_model: Option<String>,
    pub summary_prompt_version: Option<String>,
    pub vector_source: Option<String>,
}

/// Whether a completed summary is there to be shown.
pub open spec fn shows_summary(status: Option<Seq<char>>, summary: Option<Seq<char>>) -> bool {
    status == Some(SUMMARY_STATUS_COMPLETED@) && summary is Some && summary->0.len() > 0
}

impl MemorySearchHit {
    /// The text to be shown: the summary where one is completed, else the
    /// document.
    pub fn searchable_text(&self) -> (res: &str)
        ensures
            res@ == if shows_summary(
                text::opt_view(self.summary_status),
                text::opt_view(self.summary),
            ) {
                self.summary->0@
            } else {
                self.item.document@
            },
    {
        if text::is_text(&self.summary_status, SUMMARY_STATUS_COMPLETED) {
            if let Some(summary) = &self.summary {
                if !summary.as_str().is_empty() {
                    return summary.as_str();
                }
            }
        }
        self.item.document.as_str()
    }
}

impl View for MemorySearchHit {
    type V = StoredModel;

    open spec fn view(&self) -> StoredModel {
        StoredModel {
            item: self.item@,
            summary: text::opt_view(self.summary),
            summary_status: text::opt_view(self.summary_status),
            summary_model: text::opt_view(self.summary_model),
            summary_prompt_version: text::opt_view(self.summary_prompt_version),
            vector_source: text::opt_view(self.vector_source),
        }
    }
}

/// The hit that shows a row.
pub fn hit_from_row(row: &StoredMemory) -> (res: MemorySearchHit)
    ensures
        res@ == row@,
{
    MemorySearchHit {
        item: MemoryItem {
            id: row.id.clone(),
            document: row.document.clone(),
            memory_type: row.memory_type.clone(),
            source: row.source.clone(),
            timestamp: row.timestamp.clone(),
            user_id: duplicate_option(&row.user_id),
        },
        summary: duplicate_option(&row.summary),
        summary_status: duplicate_option(&row.summary_status),
        summary_model: duplicate_option(&row.summary_model),
        summary_prompt_version: duplicate_option(&row.summary_prompt_version),
        vector_source: duplicate_option(&row.vector_source),
    }
}

/// Whether a row shows up in a search: it was not skipped, and there is a text
/// to show.
pub open spec fn is_searchable(row: StoredMemory) -> bool {
    &&& text::opt_view(row.summary_status) != Some(SUMMARY_STATUS_SKIPPED@)
    &&& row.document@.len() > 0 || shows_summary(
        text::opt_view(row.summary_status),
        text::opt_view(row.summary),
    )
}

fn is_searchable_row(row: &StoredMemory) -> (res: bool)
    ensures
        res == is_searchable(*row),
{
    if text::is_text(&row.summary_status, SUMMARY_STATUS_SKIPPED) {
        return false;
    }
    if row.document.as_str().is_empty() {
        let has_summary = match &row.summary {
            Some(summary) => !summary.as_str().is_empty(),
            None => false,
        };
        return text::is_text(&row.summary_status, SUMMARY_STATUS_COMPLETED) && has_summary;
    }
    true
}

/// The rows that show up in a search, in the order found.
pub open spec fn searchable_rows(rows: Seq<StoredMemory>) -> Seq<StoredMemory> {
    rows.filter(|row: StoredMemory| is_searchable(row))
}

/// The rows that are asked for so that enough are left when some do not show
/// up.
pub fn fetch_limit(limit: usize) -> (res: usize)
    requires
        limit <= usize::MAX - 50,
    ensures
        res == if limit <= 50 {
            2 * limit
        } else {
            limit + 50
        },
{
    if limit <= 50 {
        limit * 2
    } else {
        limit + 50
    }
}

/// The hits of a search: the rows that show up, no more than asked for.
pub fn search_similar_memories(rows: &Vec<StoredMemory>, limit: usize) -> (res: Vec<
    MemorySearchHit,
>)
    ensures
        res@.len() == (if searchable_rows(rows@).len() < limit {
            searchable_rows(rows@).len()
        } else {
            limit as nat
        }),
        forall|i: int|
            0 <= i < res@.len() ==> (#[trigger] res@[i])@ == searchable_rows(rows@)[i]@,
{
    let ghost shown = |row: StoredMemory| is_searchable(row);
    let mut hits: Vec<MemorySearchHit> = Vec::new();
    let mut i: usize = 0;
    assert(rows@.take(0).filter(shown) == Seq::<StoredMemory>::empty());
    while i < rows.len() && hits.len() < limit
        invariant
            i <= rows@.len(),
            shown == (|row: StoredMemory| is_searchable(row)),
            hits@.len() <= limit,
            hits@.len() == rows@.take(i as int).filter(shown).len(),
            forall|k: int|
                0 <= k < hits@.len() ==> (#[trigger] hits@[k])@ == rows@.take(i as int).filter(shown)[k]@,
        decreases rows@.len() - i,
    {
        let ghost before = hits@;
        let ghost earlier = rows@.take(i as int).filter(shown);
        proof {
            rows@.take(i as int).lemma_filter_push(rows@[i as int], shown);
            assert(rows@.take(i + 1) == rows@.take(i as int).push(rows@[i as int]));
        }
        if is_searchable_row(&rows[i]) {
            hits.push(hit_from_row(&rows[i]));
            assert forall|k: int| 0 <= k < hits@.len() implies (#[trigger] hits@[k])@
                == earlier.push(rows@[i as int])[k]@ by {
                if k < before.len() {
                    assert(hits@[k] == before[k]);
                }
            }
        }
        i += 1;
    }
    proof {
        lemma_filter_prefix(rows@, shown, i as int);
        if i == rows@.len() {
            assert(rows@.take(i as int) == rows@);
        }
    }
    hits
}

/// What is selected from a beginning of a list is the beginning of what is
/// selected from the list.
pub proof fn lemma_filter_prefix<A>(s: Seq<A>, pred: spec_fn(A) -> bool, n: int)
    requires
        0 <= n <= s.len(),
    ensures
        s.take(n).filter(pred).len() <= s.filter(pred).len(),
        forall|k: int|
            0 <= k < s.take(n).filter(pred).len() ==> #[trigger] s.take(n).filter(pred)[k]
                == s.filter(pred)[k],
    decreases s.len() - n,
{
    if n < s.len() {
        lemma_filter_prefix(s, pred, n + 1);
        s.take(n).lemma_filter_push(s[n], pred);
        assert(s.take(n + 1) == s.take(n).push(s[n]));
        let shorter = s.take(n).filter(pred);
        let longer = s.take(n + 1).filter(pred);
        assert forall|k: int| 0 <= k < shorter.len() implies #[trigger] shorter[k] == s.filter(
            pred,
        )[k] by {
            assert(longer[k] == shorter[k]);
        }
    } else {
        assert(s.take(n) == s);
    }
}

/// Skipped rows never show up in a search, and a row that does has a text to
/// show.
pub proof fn law_skipped_rows_are_not_found(row: StoredMemory)
    ensures
        text::opt_view(row.summary_status) == Some(SUMMARY_STATUS_SKIPPED@) ==> !is_searchable(row),
        is_searchable(row) ==> row.document@.len() > 0 || (row.summary is Some
            && row.summary->0@.len() > 0),
{
}

/// The times of some memories.
pub open spec fn timestamps(items: Seq<MemoryItem>) -> Seq<Seq<char>> {
    items.map_values(|item: MemoryItem| item.timestamp@)
}

pub open spec fn page_start(offset: Option<usize>) -> int {
    match offset {
        Some(n) => n as int,
        None => 0,
    }
}

/// The end of a page that begins at `start`.
pub open spec fn page_end(total: int, start: int, limit: Option<usize>) -> int {
    match limit {
        Some(n) => if start + n < total {
            start + n
        } else {
            total
        },
        None => total,
    }
}

/// Whether `page` holds the memories at the given places.
pub open spec fn page_of(page: Seq<MemoryItem>, items: Seq<MemoryItem>, order: Seq<int>) -> bool {
    &&& page.len() == order.len()
    &&& forall|k: int| 0 <= k < page.len() ==> (#[trigger] page[k])@ == items[order[k]]@
}

/// A page of the memories, the newest first. Memories of the same time keep
/// their order; the total counts all of them.
pub fn list_memories(
    items: &Vec<MemoryItem>,
    limit: Option<usize>,
    offset: Option<usize>,
) -> (res: MemoryListResponse)
    ensures
        res.success,
        res.total == items@.len(),
        page_start(offset) >= items@.len() ==> res.memories@.len() == 0,
        page_start(offset) < items@.len() ==> page_of(
            res.memories@,
            items@,
            ordering::ranking(timestamps(items@), true).subrange(
                page_start(offset),
                page_end(items@.len() as int, page_start(offset), limit),
            ),
        ),
{
    let total: usize = items.len();
    let start: usize = match offset {
        Some(n) => n,
        None => 0,
    };
    let mut memories: Vec<MemoryItem> = Vec::new();
    if start >= total {
        return MemoryListResponse { success: true, total, memories };
    }
    let end: usize = match limit {
        Some(n) => if n < total - start {
            start + n
        } else {
            total
        },
        None => total,
    };
    let ghost times = timestamps(items@);
    let mut keys: Vec<Vec<char>> = Vec::new();
    let mut i: usize = 0;
    while i < total
        invariant
            i <= total == items@.len(),
            times == timestamps(items@),
            ordering::key_views(keys@) == times.take(i as int),
        decreases total - i,
    {
        let ghost before = keys@;
        keys.push(text::chars_of(items[i].timestamp.as_str()));
        i += 1;
        assert(ordering::key_views(keys@) == ordering::key_views(before).push(times[i - 1]));
        assert(times.take(i as int) == times.take(i - 1).push(times[i - 1]));
    }
    assert(times.take(i as int) == times);
    assert(ordering::key_views(keys@).len() == keys@.len());
    let order = ordering::rank_by_keys(&keys, true);
    let ghost ranks = ordering::indexes(order@);
    let mut k: usize = start;
    while k < end
        invariant
            start <= k <= end <= total == items@.len(),
            order@.len() == total,
            ranks == ordering::indexes(order@),
            forall|m: int| 0 <= m < order@.len() ==> #[trigger] order@[m] < total,
            page_of(memories@, items@, ranks.subrange(start as int, k as int)),
        decreases end - k,
    {
        let ghost before = memories@;
        let at: usize = order[k];
        assert(ranks[k as int] == at);
        memories.push(items[at].duplicate());
        k += 1;
        assert(ranks.subrange(start as int, k as int) == ranks.subrange(start as int, k - 1).push(
            ranks[k - 1],
        ));
        assert forall|m: int| 0 <= m < memories@.len() implies (#[trigger] memories@[m])@
            == items@[ranks.subrange(start as int, k as int)[m]]@ by {
            if m < before.len() {
                assert(memories@[m] == before[m]);
            }
        }
    }
    MemoryListResponse { success: true, total, memories }
}

/// A text for a query, with its quotation marks doubled.
pub open spec fn escaped_sql(value: Seq<char>) -> Seq<char>
    decreases value.len(),
{
    if value.len() == 0 {
        Seq::empty()
    } else if value.last() == '\'' {
        escaped_sql(value.drop_last()).push('\'').push('\'')
    } else {
        escaped_sql(value.drop_last()).push(value.last())
    }
}

/// Doubles the quotation marks of a text, so that it can stand in a query.
pub fn escape_sql_literal(value: &str) -> (res: String)
    ensures
        res@ == escaped_sql(value@),
{
    let chars = text::chars_of(value);
    let mut escaped = String::new();
    let mut i: usize = 0;
    while i < chars.len()
        invariant
            i <= chars@.len(),
            chars@ == value@,
            escaped@ == escaped_sql(value@.take(i as int)),
        decreases chars@.len() - i,
    {
        if chars[i] == '\'' {
            escaped.push('\'');
        }
        escaped.push(chars[i]);
        i += 1;
        assert(value@.take(i as int).drop_last() == value@.take(i - 1));
        assert(value@.take(i as int).last() == value@[i - 1]);
    }
    assert(value@.take(i as int) == value@);
    escaped
}

/// Different texts stay different in a query.
pub proof fn law_escaping_loses_nothing(a: Seq<char>, b: Seq<char>)
    requires
        escaped_sql(a) == escaped_sql(b),
    ensures
        a == b,
    decreases a.len(),
{
    if a.len() > 0 && b.len() > 0 {
        assert(escaped_sql(a).last() == a.last());
        assert(escaped_sql(b).last() == b.last());
        let ea = escaped_sql(a.drop_last());
        let eb = escaped_sql(b.drop_last());
        if a.last() == '\'' {
            assert(escaped_sql(a).drop_last().drop_last() == ea);
            assert(escaped_sql(b).drop_last().drop_last() == eb);
        } else {
            assert(escaped_sql(a).drop_last() == ea);
            assert(escaped_sql(b).drop_last() == eb);
        }
        law_escaping_loses_nothing(a.drop_last(), b.drop_last());
        assert(a == a.drop_last().push(a.last()));
        assert(b == b.drop_last().push(b.last()));
    } else if a.len() > 0 {
        assert(escaped_sql(a).len() > 0);
    } else if b.len() > 0 {
        assert(escaped_sql(b).len() > 0);
    } else {
        assert(a == b);
    }
}

/// A text between quotation marks in a query.
pub open spec fn sql_quoted(value: Seq<char>) -> Seq<char> {
    "'"@ + escaped_sql(value) + "'"@
}

fn append_quoted(target: &mut String, value: &str)
    ensures
        final(target)@ == old(target)@ + sql_quoted(value@),
{
    text::append_text(target, "'");
    text::append_text(target, escape_sql_literal(value).as_str());
    text::append_text(target, "'");
    assert(target@ == old(target)@ + sql_quoted(value@));
}

/// A text between quotation marks, for a query.
pub fn sql_literal(value: &str) -> (res: String)
    ensures
        res@ == sql_quoted(value@),
{
    let mut literal = String::new();
    append_quoted(&mut literal, value);
    assert(literal@ == sql_quoted(value@));
    literal
}

/// The condition for one row.
pub open spec fn id_condition(id: Seq<char>) -> Seq<char> {
    "id = "@ + sql_quoted(id)
}

/// The condition for one row.
pub fn id_predicate(id: &str) -> (res: String)
    ensures
        res@ == id_condition(id@),
{
    let mut condition = "id = ".to_owned();
    append_quoted(&mut condition, id);
    condition
}

/// The condition for the status of a row, or for its absence.
pub open spec fn status_condition(status: Option<Seq<char>>) -> Seq<char> {
    match status {
        Some(s) => "summary_status = "@ + sql_quoted(s),
        None => "summary_status IS NULL"@,
    }
}

/// The condition for the status of a row, or for its absence.
pub fn status_predicate(status: &Option<String>) -> (res: String)
    ensures
        res@ == status_condition(text::opt_view(*status)),
{
    match status {
        Some(s) => {
            let mut condition = "summary_status = ".to_owned();
            append_quoted(&mut condition, s.as_str());
            condition
        },
        None => "summary_status IS NULL".to_owned(),
    }
}

/// The condition for one row in a given state.
pub open spec fn guarded_condition(id: Seq<char>, status: Option<Seq<char>>) -> Seq<char> {
    id_condition(id) + " AND "@ + status_condition(status)
}

/// The condition for one row in a given state.
pub fn guarded_predicate(id: &str, status: &Option<String>) -> (res: String)
    ensures
        res@ == guarded_condition(id@, text::opt_view(*status)),
{
    let mut condition = id_predicate(id);
    text::append_text(&mut condition, " AND ");
    text::append_text(&mut condition, status_predicate(status).as_str());
    condition
}

/// The condition for one row without a vector.
pub fn missing_vector_predicate(id: &str) -> (res: String)
    ensures
        res@ == id_condition(id@) + " AND vector IS NULL"@,
{
    let mut condition = id_predicate(id);
    text::append_text(&mut condition, " AND vector IS NULL");
    condition
}

/// The condition for some rows.
pub open spec fn ids_condition(ids: Seq<Seq<char>>) -> Seq<char> {
    "id IN ("@ + text::joined(ids.map_values(|id: Seq<char>| sql_quoted(id)), ", "@) + ")"@
}

/// The condition for some rows; none where there are no rows.
pub fn ids_predicate(ids: &Vec<String>) -> (res: Option<String>)
    ensures
        ids@.len() == 0 ==> res is None,
        ids@.len() > 0 ==> res is Some && res->0@ == ids_condition(text::views(ids@)),
{
    if ids.len() == 0 {
        return None;
    }
    let ghost wanted = text::views(ids@).map_values(|id: Seq<char>| sql_quoted(id));
    let mut literals: Vec<String> = Vec::new();
    let mut i: usize = 0;
    while i < ids.len()
        invariant
            i <= ids@.len(),
            wanted == text::views(ids@).map_values(|id: Seq<char>| sql_quoted(id)),
            text::views(literals@) == wanted.take(i as int),
        decreases ids@.len() - i,
    {
        let ghost before = literals@;
        literals.push(sql_literal(ids[i].as_str()));
        i += 1;
        assert(text::views(literals@) == text::views(before).push(wanted[i - 1]));
        assert(wanted.take(i as int) == wanted.take(i - 1).push(wanted[i - 1]));
    }
    assert(wanted.take(i as int) == wanted);
    let mut condition = "id IN (".to_owned();
    text::append_text(&mut condition, text::join_texts(&literals, ", ").as_str());
    text::append_text(&mut condition, ")");
    Some(condition)
}

/// What is wrong with a vector, if anything is.
pub open spec fn vector_error(len: int, all_finite: bool) -> Option<Seq<char>> {
    if len != VECTOR_DIM {
        Some("Vector length mismatch: expected 768, got "@ + text::decimal(len as nat))
    } else if !all_finite {
        Some("Vector values must be finite"@)
    } else {
        None
    }
}

/// Refuses a vector of the wrong length or with values that are not finite.
pub fn validate_vector(len: usize, all_finite: bool) -> (res: Result<(), String>)
    ensures
        match vector_error(len as int, all_finite) {
            Some(message) => res is Err && res->Err_0@ == message,
            None => res is Ok,
        },
{
    if len != 768 {
        let mut message = "Vector length mismatch: expected 768, got ".to_owned();
        text::append_decimal(&mut message, len as u64);
        return Err(message);
    }
    if !all_finite {
        return Err("Vector values must be finite".to_owned());
    }
    Ok(())
}

/// Refuses a batch in which rows and vectors do not go together.
pub fn check_vector_count(items: usize, vectors: usize) -> (res: Result<(), String>)
    ensures
        items == vectors ==> res is Ok,
        items != vectors ==> res is Err && res->Err_0@ == "Vector count mismatch: expected "@
            + text::decimal(items as nat) + ", got "@ + text::decimal(vectors as nat),
{
    if items == vectors {
        return Ok(());
    }
    let mut message = "Vector count mismatch: expected ".to_owned();
    text::append_decimal(&mut message, items as u64);
    text::append_text(&mut message, ", got ");
    text::append_decimal(&mut message, vectors as u64);
    Err(message)
}

/// The kind of a column.
#[derive(Debug, Clone, Copy, PartialEq, Eq, Structural)]
pub enum ColumnKind {
    /// Text.
    Utf8,
    /// A list of numbers of fixed length.
    FixedSizeList { dimension: i32, item_float32: bool, item_nullable: bool },
    /// Anything else.
    Other,
}

/// A column of a table.
#[derive(Debug)]
pub struct Column {
    pub name: String,
    pub kind: ColumnKind,
    pub nullable: bool,
}

/// What a column is.
pub struct ColumnModel {
    pub name: Seq<char>,
    pub kind: ColumnKind,
    pub nullable: bool,
}

impl View for Column {
    type V = ColumnModel;

    open spec fn view(&self) -> ColumnModel {
        ColumnModel { name: self.name@, kind: self.kind, nullable: self.nullable }
    }
}

pub open spec fn column_views(columns: Seq<Column>) -> Seq<ColumnModel> {
    columns.map_values(|c: Column| c@)
}

pub open spec fn text_column(name: Seq<char>, nullable: bool) -> ColumnModel {
    ColumnModel { name, kind: ColumnKind::Utf8, nullable }
}

/// The kind of the column of vectors.
pub open spec fn vector_kind() -> ColumnKind {
    ColumnKind::FixedSizeList { dimension: 768, item_float32: true, item_nullable: false }
}

/// The columns of the older table.
pub open spec fn legacy_columns() -> Seq<ColumnModel> {
    seq![
        text_column("id"@, false),
        text_column("document"@, false),
        text_column("memory_type"@, false),
        text_column("source"@, false),
        text_column("timestamp"@, false),
        text_column("user_id"@, true),
        ColumnModel { name: "vector"@, kind: vector_kind(), nullable: true },
    ]
}

/// The columns of the table: those of the older one, and those of the summary.
pub open spec fn memory_columns() -> Seq<ColumnModel> {
    legacy_columns() + seq![
        text_column("summary"@, true),
        text_column("summary_status"@, true),
        text_column("summary_model"@, true),
        text_column("summary_prompt_version"@, true),
        text_column("vector_source"@, true),
    ]
}

fn new_text_column(name: &str, nullable: bool) -> (res: Column)
    ensures
        res@ == text_column(name@, nullable),
{
    Column { name: name.to_owned(), kind: ColumnKind::Utf8, nullable }
}

/// The columns of the older table.
pub fn legacy_memory_schema() -> (res: Vec<Column>)
    ensures
        column_views(res@) == legacy_columns(),
{
    let mut columns: Vec<Column> = Vec::new();
    columns.push(new_text_column("id", false));
    columns.push(new_text_column("document", false));
    columns.push(new_text_column("memory_type", false));
    columns.push(new_text_column("source", false));
    columns.push(new_text_column("timestamp", false));
    columns.push(new_text_column("user_id", true));
    columns.push(
        Column {
            name: "vector".to_owned(),
            kind: ColumnKind::FixedSizeList {
                dimension: 768,
                item_float32: true,
                item_nullable: false,
            },
            nullable: true,
        },
    );
    assert(column_views(columns@) == legacy_columns());
    columns
}

/// The columns of the table.
pub fn get_memory_schema() -> (res: Vec<Column>)
    ensures
        column_views(res@) == memory_columns(),
{
    let mut columns = legacy_memory_schema();
    let ghost first = columns@;
    columns.push(new_text_column("summary", true));
    columns.push(new_text_column("summary_status", true));
    columns.push(new_text_column("summary_model", true));
    columns.push(new_text_column("summary_prompt_version", true));
    columns.push(new_text_column("vector_source", true));
    assert(column_views(columns@) == column_views(first) + seq![
        text_column("summary"@, true),
        text_column("summary_status"@, true),
        text_column("summary_model"@, true),
        text_column("summary_prompt_version"@, true),
        text_column("vector_source"@, true),
    ]);
    columns
}

/// Whether two kinds of columns go together. The store does not keep whether
/// the numbers of a list may be missing, so that is not compared.
pub open spec fn kinds_match(actual: ColumnKind, expected: ColumnKind) -> bool {
    match (actual, expected) {
        (
            ColumnKind::FixedSizeList { dimension: a, item_float32: x, item_nullable: _ },
            ColumnKind::FixedSizeList { dimension: b, item_float32: y, item_nullable: _ },
        ) => a == b && x == y,
        _ => actual == expected,
    }
}

/// Tells whether two kinds of columns go together.
pub fn compatible_memory_data_type(actual: &ColumnKind, expected: &ColumnKind) -> (res: bool)
    ensures
        res == kinds_match(*actual, *expected),
{
    match (actual, expected) {
        (
            ColumnKind::FixedSizeList { dimension: a, item_float32: x, item_nullable: _ },
            ColumnKind::FixedSizeList { dimension: b, item_float32: y, item_nullable: _ },
        ) => *a == *b && *x == *y,
        _ => *actual == *expected,
    }
}

/// Whether the columns are those of the table, in that order.
pub open spec fn is_memory_v2(columns: Seq<ColumnModel>) -> bool {
    let expected = memory_columns();
    &&& columns.len() == expected.len()
    &&& forall|i: int|
        0 <= i < columns.len() ==> (#[trigger] columns[i]).name == expected[i].name && kinds_match(
            columns[i].kind,
            expected[i].kind,
        ) && columns[i].nullable == expected[i].nullable
}

/// Tells whether the columns are those of the table.
pub fn schema_matches_memory_v2(columns: &Vec<Column>) -> (res: bool)
    ensures
        res == is_memory_v2(column_views(columns@)),
{
    let expected = get_memory_schema();
    let ghost actual_view = column_views(columns@);
    let ghost expected_view = memory_columns();
    assert(expected_view.len() == expected@.len());
    if columns.len() != expected.len() {
        return false;
    }
    let mut i: usize = 0;
    while i < columns.len()
        invariant
            i <= columns@.len() == expected@.len(),
            actual_view == column_views(columns@),
            expected_view == column_views(expected@),
            expected_view == memory_columns(),
            forall|k: int|
                0 <= k < i ==> (#[trigger] actual_view[k]).name == expected_view[k].name
                    && kinds_match(actual_view[k].kind, expected_view[k].kind)
                    && actual_view[k].nullable == expected_view[k].nullable,
        decreases columns@.len() - i,
    {
        assert(actual_view[i as int] == columns@[i as int]@);
        assert(expected_view[i as int] == expected@[i as int]@);
        if !text::same_text(columns[i].name.as_str(), expected[i].name.as_str())
            || !compatible_memory_data_type(&columns[i].kind, &expected[i].kind)
            || columns[i].nullable != expected[i].nullable {
            assert(!(actual_view[i as int].name == memory_columns()[i as int].name && kinds_match(
                actual_view[i as int].kind,
                memory_columns()[i as int].kind,
            ) && actual_view[i as int].nullable == memory_columns()[i as int].nullable));
            return false;
        }
        i += 1;
    }
    true
}

/// The version that the columns of a table belong to.
pub fn detect_memory_schema_version(columns: &Vec<Column>) -> (res: u32)
    ensures
        res == if is_memory_v2(column_views(columns@)) {
            MEMORY_SCHEMA_VERSION
        } else {
            1
        },
{
    if schema_matches_memory_v2(columns) {
        MEMORY_SCHEMA_VERSION
    } else {
        1
    }
}

/// A row with a document is found unless its summary was skipped, whatever
/// else its status is, and with or without a summary. A row without a document
/// is found only by a completed summary that is not empty.
pub proof fn law_rows_with_a_document_are_found(row: StoredMemory)
    ensures
        row.document@.len() > 0 && text::opt_view(row.summary_status) != Some("skipped"@)
            ==> is_searchable(row),
        text::opt_view(row.summary_status) == Some("skipped"@) ==> !is_searchable(row),
        row.document@.len() == 0 ==> is_searchable(row) == (text::opt_view(row.summary_status)
            == Some("completed"@) && row.summary is Some && row.summary->0@.len() > 0),
{
    lemma_statuses_differ();
}

/// A search passes over the rows that are not shown and over no other: every
/// row with a document that was not skipped is among the hits, in the order in
/// which the rows came, as long as there is room for it.
pub proof fn law_a_search_finds_every_row_with_a_document(rows: Seq<StoredMemory>, i: int) -> (at:
    int)
    requires
        0 <= i < rows.len(),
        rows[i].document@.len() > 0,
        text::opt_view(rows[i].summary_status) != Some("skipped"@),
    ensures
        0 <= at <= i,
        at < searchable_rows(rows).len(),
        searchable_rows(rows)[at] == rows[i],
        at == searchable_rows(rows.take(i)).len(),
{
    let shown = |row: StoredMemory| is_searchable(row);
    law_rows_with_a_document_are_found(rows[i]);
    rows.take(i).lemma_filter_push(rows[i], shown);
    assert(rows.take(i + 1) == rows.take(i).push(rows[i]));
    lemma_filter_prefix(rows, shown, i + 1);
    rows.take(i).lemma_filter_len(shown);
    let at = rows.take(i).filter(shown).len() as int;
    assert(rows.take(i + 1).filter(shown)[at] == rows[i]);
    at
}

/// Where every row has a document and none was skipped, a search hands all of
/// them out as they came.
pub proof fn law_nothing_is_passed_over_without_need(rows: Seq<StoredMemory>)
    requires
        forall|i: int|
            0 <= i < rows.len() ==> (#[trigger] rows[i]).document@.len() > 0 && text::opt_view(
                rows[i].summary_status,
            ) != Some("skipped"@),
    ensures
        searchable_rows(rows) == rows,
    decreases rows.len(),
{
    let shown = |row: StoredMemory| is_searchable(row);
    reveal(Seq::filter);
    if rows.len() > 0 {
        let front = rows.drop_last();
        assert forall|i: int| 0 <= i < front.len() implies (#[trigger] front[i]).document@.len() > 0
            && text::opt_view(front[i].summary_status) != Some("skipped"@) by {
            assert(front[i] == rows[i]);
        }
        law_nothing_is_passed_over_without_need(front);
        law_rows_with_a_document_are_found(rows.last());
        assert(shown(rows.last()));
        assert(front.push(rows.last()) == rows);
    }
}

/// The text of a hit is the summary exactly where it is completed and not
/// empty; a summary of any other status is never shown.
pub proof fn law_only_completed_summaries_are_shown(
    status: Option<Seq<char>>,
    summary: Option<Seq<char>>,
)
    ensures
        status == Some("completed"@) && summary is Some && summary->0.len() > 0 ==> shows_summary(
            status,
            summary,
        ),
        status != Some("completed"@) ==> !shows_summary(status, summary),
        summary is None || summary->0.len() == 0 ==> !shows_summary(status, summary),
{
}

/// A pending summary may end in every way there is, and a summary that was
/// skipped, failed or fell back may be opened again; a completed one, a
/// deleted one or one of an older kind may not.
pub proof fn law_pending_summaries_may_end(status: Seq<char>)
    ensures
        status == "completed"@ || status == "skipped"@ || status == "fallback"@ || status
            == "error"@ ==> transition_allowed(Some("pending"@), status),
        status == "skipped"@ || status == "fallback"@ || status == "error"@ ==> transition_allowed(
            Some(status),
            "pending"@,
        ),
        !transition_allowed(Some("completed"@), "pending"@),
        !transition_allowed(Some("deleted"@), "pending"@),
        !transition_allowed(Some("legacy"@), "pending"@),
        !transition_allowed(Some("pending"@), "deleted"@),
        !transition_allowed(Some("pending"@), "legacy"@),
{
    lemma_statuses_differ();
}

/// The course of an import is told as it goes: it begins with nothing done,
/// counts the rows that are done up to all of them, and ends completed or with
/// the error, which leaves the count as it is.
pub proof fn law_the_course_of_an_import(
    progress: MigrationModel,
    total: usize,
    processed: usize,
    error: Seq<char>,
)
    ensures
        progress.begun(total).status == "running"@,
        progress.begun(total).processed == 0,
        progress.begun(total).total == Some(total),
        progress.begun(total).error is None,
        progress.begun(total).updated(processed).processed == if processed <= total {
            processed
        } else {
            total
        },
        progress.begun(total).updated(processed).status == "running"@,
        progress.begun(total).updated(processed).total == Some(total),
        progress.completed(total).status == "completed"@,
        progress.completed(total).processed == total,
        progress.completed(total).error is None,
        progress.failed(error).status == "error"@,
        progress.failed(error).error == Some(error),
        progress.failed(error).processed == progress.processed,
        progress.failed(error).total == progress.total,
        idle_migration().status == "idle"@,
        idle_migration().processed == 0,
{
}

/// What a person said is summarised: an event of one of the three kinds, whose
/// text is neither blank nor holds control characters other than line ends and
/// tabs, and of which the privacy policy leaves more than ten characters apart
/// from white space.
pub proof fn law_said_texts_are_eligible(event_type: Seq<char>, content: Seq<char>, kept: Seq<char>)
    requires
        event_type == "user_speech"@ || event_type == "discord_speech"@ || event_type
            == "twitch_chat"@,
        !text::is_blank(content),
        forall|i: int|
            0 <= i < content.len() ==> {
                ||| !text::is_control(#[trigger] content[i])
                ||| content[i] == '\n'
                ||| content[i] == '\r'
                ||| content[i] == '\t'
            },
        text::without_white(text::trimmed(kept)).len() > 10,
    ensures
        admission(event_type, content, Some(kept)) == SummaryAdmission::Eligible,
        redacted_document(content, Some(kept)) == Some(text::trimmed(kept)),
{
    text::lemma_blank_iff_trimmed_empty(content);
    text::lemma_trimmed_is_part(content);
    let clean = text::trimmed(content);
    let at = choose|at: int|
        0 <= at && at + clean.len() <= content.len() && #[trigger] content.subrange(
            at,
            at + clean.len(),
        ) == clean;
    assert forall|i: int| 0 <= i < clean.len() implies !is_forbidden(#[trigger] clean[i]) by {
        assert(clean[i] == content[at + i]);
    }
    assert(is_admissible(content));
    let document = text::trimmed(kept);
    if document.len() == 0 {
        assert(document == Seq::<char>::empty());
        document.lemma_filter_len(|c: char| !text::is_white(c));
    }
    text::lemma_trimmed_twice(kept);
    assert(compact_text(document).len() > 10);
    lemma_ephemeral_texts_are_short();
    if ephemeral_texts().contains(compact_text(document)) {
        let i = ephemeral_texts().index_of(compact_text(document));
        assert(ephemeral_texts()[i].len() <= 10);
    }
}

proof fn lemma_ephemeral_texts_are_short()
    ensures
        forall|i: int|
            0 <= i < ephemeral_texts().len() ==> (#[trigger] ephemeral_texts()[i]).len() <= 10,
{
    reveal_strlit("ああ");
    reveal_strlit("あー");
    reveal_strlit("ええ");
    reveal_strlit("えー");
    reveal_strlit("おお");
    reveal_strlit("おー");
    reveal_strlit("はい");
    reveal_strlit("はいはい");
    reveal_strlit("うん");
    reveal_strlit("うんうん");
    reveal_strlit("そう");
    reveal_strlit("そうそう");
    reveal_strlit("そうですね");
    reveal_strlit("なるほど");
    reveal_strlit("なるほどね");
    reveal_strlit("いいね");
    reveal_strlit("どうも");
    reveal_strlit("こんにちは");
    reveal_strlit("こんばんは");
    reveal_strlit("よろしく");
    reveal_strlit("よろしくお願いします");
    reveal_strlit("ありがとう");
    reveal_strlit("ありがとうございます");
    reveal_strlit("またね");
    reveal_strlit("お疲れ様");
    reveal_strlit("お疲れ様でした");
    reveal_strlit("おつかれさま");
    reveal_strlit("おつかれさまでした");
    reveal_strlit("了解");
    reveal_strlit("わかりました");
    reveal_strlit("分かりました");
    reveal_strlit("ok");
    reveal_strlit("ｗ");
    reveal_strlit("www");
}

/// Small talk is not summarised: a single character, and greetings, thanks,
/// agreement and laughter, however they are spaced or capitalised.
pub proof fn law_small_talk_is_not_summarised(
    event_type: Seq<char>,
    content: Seq<char>,
    kept: Seq<char>,
    said: Seq<char>,
)
    requires
        text::ascii_lowered(text::without_white(text::trimmed(kept))) == said,
        ({
            ||| said.len() <= 1
            ||| said == "はい"@
            ||| said == "うん"@
            ||| said == "そうですね"@
            ||| said == "なるほど"@
            ||| said == "いいね"@
            ||| said == "こんにちは"@
            ||| said == "こんばんは"@
            ||| said == "よろしくお願いします"@
            ||| said == "ありがとう"@
            ||| said == "ありがとうございます"@
            ||| said == "お疲れ様でした"@
            ||| said == "おつかれさま"@
            ||| said == "了解"@
            ||| said == "わかりました"@
            ||| said == "ok"@
            ||| said == "www"@
        }),
    ensures
        admission(event_type, content, Some(kept)) != SummaryAdmission::Eligible,
{
    text::lemma_trimmed_twice(kept);
    let all = ephemeral_texts();
    assert(all[6] == "はい"@ && all[8] == "うん"@ && all[12] == "そうですね"@ && all[13]
        == "なるほど"@ && all[15] == "いいね"@ && all[17] == "こんにちは"@ && all[18]
        == "こんばんは"@ && all[20] == "よろしくお願いします"@ && all[21] == "ありがとう"@
        && all[22] == "ありがとうございます"@ && all[25] == "お疲れ様でした"@ && all[26]
        == "おつかれさま"@ && all[28] == "了解"@ && all[29] == "わかりました"@ && all[31]
        == "ok"@ && all[33] == "www"@);
}

/// Without a policy's answer, with nothing left by it, or with a control
/// character in its text, an event is not summarised.
pub proof fn law_unclear_texts_are_not_summarised(
    event_type: Seq<char>,
    content: Seq<char>,
    redaction: Option<Seq<char>>,
    i: int,
)
    requires
        ({
            ||| redaction is None
            ||| text::is_blank(redaction->0)
            ||| 0 <= i < text::trimmed(content).len() && text::is_control(text::trimmed(content)[i])
                && text::trimmed(content)[i] != '\n' && text::trimmed(content)[i] != '\r'
                && text::trimmed(content)[i] != '\t'
        }),
    ensures
        admission(event_type, content, redaction) != SummaryAdmission::Eligible,
        redacted_document(content, redaction) is None,
{
    if redaction is Some {
        text::lemma_blank_iff_trimmed_empty(redaction->0);
    }
}

/// The model reads what the policy left and nothing else: the document does
/// not depend on what was said otherwise.
pub proof fn law_only_the_redacted_text_is_read(
    a: Seq<char>,
    b: Seq<char>,
    redaction: Option<Seq<char>>,
)
    requires
        redacted_document(a, redaction) is Some,
        redacted_document(b, redaction) is Some,
    ensures
        redacted_document(a, redaction) == redacted_document(b, redaction),
        redacted_document(a, redaction) == Some(text::trimmed(redaction->0)),
{
}

/// A sound path is accepted: below an absolute root, without steps to this or
/// the parent directory in either, and without links on the way.
pub proof fn law_sound_paths_are_accepted(
    root: PathShape,
    root_links: Seq<FoundComponent>,
    path: PathShape,
    links: Seq<FoundComponent>,
    label: Seq<char>,
)
    requires
        root.absolute,
        forall|i: int|
            0 <= i < root.parts@.len() ==> !(#[trigger] root.parts@[i] is CurDir)
                && !(root.parts@[i] is ParentDir),
        forall|i: int|
            0 <= i < path.parts@.len() ==> !(#[trigger] path.parts@[i] is CurDir)
                && !(path.parts@[i] is ParentDir),
        root.parts@.len() <= path.parts@.len(),
        forall|i: int| 0 <= i < root.parts@.len() ==> #[trigger] path.parts@[i]@ == root.parts@[i]@,
        forall|i: int|
            0 <= i < root_links.len() ==> #[trigger] root_links[i] is Plain
                || root_links[i] is Missing,
        forall|i: int| 0 <= i < links.len() ==> #[trigger] links[i] is Plain || links[i] is Missing,
    ensures
        root_error(root, root_links) is None,
        inside_error(root, root_links, path, links, label) is None,
{
    lemma_link_free("LanceDB root"@, root_links);
    lemma_link_free(label, links);
    assert(part_views(path.parts@).take(root.parts@.len() as int) == part_views(root.parts@));
}

/// Every path that leaves its root, steps to a parent directory or passes a
/// link is refused.
pub proof fn law_unsound_paths_are_refused(
    root: PathShape,
    root_links: Seq<FoundComponent>,
    path: PathShape,
    links: Seq<FoundComponent>,
    label: Seq<char>,
    i: int,
)
    requires
        ({
            ||| !root.absolute
            ||| 0 <= i < root.parts@.len() && (root.parts@[i] is CurDir || root.parts@[i] is ParentDir)
            ||| 0 <= i < path.parts@.len() && (path.parts@[i] is CurDir || path.parts@[i] is ParentDir)
            ||| 0 <= i < root_links.len() && root_links[i] is Link
            ||| 0 <= i < links.len() && links[i] is Link
            ||| path.parts@.len() < root.parts@.len()
            ||| 0 <= i < root.parts@.len() <= path.parts@.len() && path.parts@[i]@
                != root.parts@[i]@
        }),
    ensures
        inside_error(root, root_links, path, links, label) is Some,
{
    lemma_link_free("LanceDB root"@, root_links);
    lemma_link_free(label, links);
    if 0 <= i < root.parts@.len() <= path.parts@.len() && path.parts@[i]@ != root.parts@[i]@ {
        assert(part_views(path.parts@).take(root.parts@.len() as int)[i] == path.parts@[i]@);
        assert(part_views(root.parts@)[i] == root.parts@[i]@);
    }
    if 0 <= i < root_links.len() && root_links[i] is Link {
        assert(!is_link_free(root_links));
    }
    if 0 <= i < links.len() && links[i] is Link {
        assert(!is_link_free(links));
    }
}

/// A name for a backup or a raw document is made of ASCII letters, digits, the
/// hyphen and the underscore: one character is a name exactly where it is one
/// of these, and putting names together gives a name.
pub proof fn law_plain_names_are_made_of_plain_characters(a: Seq<char>, b: Seq<char>, c: char)
    ensures
        is_plain_name(seq![c]) == ({
            ||| 'a' <= c && c <= 'z'
            ||| 'A' <= c && c <= 'Z'
            ||| '0' <= c && c <= '9'
            ||| c == '-'
            ||| c == '_'
        }),
        a.len() > 0 && b.len() > 0 ==> is_plain_name(a + b) == (is_plain_name(a) && is_plain_name(
            b,
        )),
        !is_plain_name(Seq::empty()),
{
    let one = seq![c];
    assert(one[0] == c);
    if is_plain_name(one) {
        assert(is_name_char(one[0]));
    }
    let both = a + b;
    if a.len() > 0 && b.len() > 0 {
        if is_plain_name(both) {
            assert forall|i: int| 0 <= i < a.len() implies is_name_char(#[trigger] a[i]) by {
                assert(both[i] == a[i]);
            }
            assert forall|i: int| 0 <= i < b.len() implies is_name_char(#[trigger] b[i]) by {
                assert(both[a.len() + i] == b[i]);
            }
        }
        if is_plain_name(a) && is_plain_name(b) {
            assert forall|i: int| 0 <= i < both.len() implies is_name_char(#[trigger] both[i]) by {
                if i < a.len() {
                    assert(both[i] == a[i]);
                } else {
                    assert(both[i] == b[i - a.len()]);
                }
            }
        }
    }
}

/// An export is written to one file of its directory: a name with a slash, a
/// backslash, a colon or a null character, an empty one and the names of this
/// and the parent directory are refused, and no others.
pub proof fn law_export_names_lead_nowhere_else(value: Seq<char>, i: int)
    ensures
        0 <= i < value.len() && (value[i] == '/' || value[i] == '\\' || value[i] == ':' || value[i]
            == '\0') ==> !is_safe_component(value),
        value.len() == 0 ==> !is_safe_component(value),
        value == seq!['.'] || value == seq!['.', '.'] ==> !is_safe_component(value),
        value.len() > 2 && (forall|k: int|
            0 <= k < value.len() ==> #[trigger] value[k] != '/' && value[k] != '\\' && value[k]
                != ':' && value[k] != '\0') ==> is_safe_component(value),
{
    reveal_strlit(".");
    reveal_strlit("..");
    assert("."@ == seq!['.']);
    assert(".."@ == seq!['.', '.']);
}

/// Looking through a directory of backups goes entry by entry: a directory
/// with a plain name is a backup, any other entry is passed over, and a link,
/// an odd name or an entry that cannot be read ends the search with an error.
pub proof fn law_backups_are_found_one_by_one(
    before: Seq<BackupEntry>,
    entry: BackupEntry,
    names: Seq<Seq<char>>,
)
    requires
        found_backups(before) == Ok::<Seq<Seq<char>>, Seq<char>>(names),
    ensures
        entry matches BackupEntry::Directory(name) ==> is_plain_name(name@) ==> found_backups(
            before.push(entry),
        ) == Ok::<Seq<Seq<char>>, Seq<char>>(names.push(name@)),
        entry matches BackupEntry::Directory(name) ==> !is_plain_name(name@) ==> found_backups(
            before.push(entry),
        ) is Err,
        entry is Other ==> found_backups(before.push(entry)) == Ok::<Seq<Seq<char>>, Seq<char>>(
            names,
        ),
        entry is Link || entry is Unnamed || entry is Unknown ==> found_backups(
            before.push(entry),
        ) is Err,
        found_backups(Seq::empty()) == Ok::<Seq<Seq<char>>, Seq<char>>(Seq::empty()),
{
    assert(before.push(entry).drop_last() == before);
    assert(before.push(entry).last() == entry);
}

proof fn lemma_others_hold(names: Seq<Seq<char>>, made: Seq<char>, name: Seq<char>)
    requires
        names.contains(name),
        name != made,
    ensures
        other_backups(names, made).contains(name),
    decreases names.len(),
{
    let rest = other_backups(names.drop_last(), made);
    let all = other_backups(names, made);
    if names.last() == name {
        assert(all[all.len() - 1] == name);
    } else {
        let i = names.index_of(name);
        assert(names.drop_last()[i] == name);
        lemma_others_hold(names.drop_last(), made, name);
        let k = rest.index_of(name);
        assert(all[k] == name);
    }
}

/// Five backups are kept: with no more, nothing is deleted; with more, all but
/// five are, the new one never, and none that is newer than one that stays.
pub proof fn law_five_backups_are_kept(
    names: Seq<Seq<char>>,
    made: Seq<char>,
    gone: Seq<char>,
    left: Seq<char>,
)
    requires
        names.no_duplicates(),
        names.contains(made),
    ensures
        names.len() <= 5 ==> surplus(names, made).len() == 0,
        names.len() > 5 ==> surplus(names, made).len() == names.len() - 5,
        surplus(names, made).contains(gone) ==> names.contains(gone) && gone != made,
        surplus(names, made).contains(gone) && names.contains(left) && left != made && !surplus(
            names,
            made,
        ).contains(left) ==> !ordering::text_lt(left, gone),
{
    let others = other_backups(names, made);
    let order = ordering::ranking(others, false);
    let count = removal_count(names, made);
    lemma_others(names, made);
    lemma_removed(names, made);
    ordering::law_every_list_has_a_ranking(others, false);
    let removed = surplus(names, made);
    if removed.contains(gone) {
        let i = removed.index_of(gone);
        assert(others[order[i]] == gone);
        assert(others.contains(gone));
        if names.contains(left) && left != made && !removed.contains(left) {
            lemma_others_hold(names, made, left);
            let at = others.index_of(left);
            assert(order.contains(at));
            let j = order.index_of(at);
            if j < count {
                assert(removed[j] == left);
            }
            ordering::law_rankings_sort(others, false, i, j);
        }
    }
}

/// Backups are listed with the newest first, and each of them.
pub proof fn law_backups_are_listed_newest_first(names: Seq<Seq<char>>, i: int, j: int)
    requires
        0 <= i < j < names.len(),
    ensures
        newest_first(names).len() == names.len(),
        !ordering::text_lt(newest_first(names)[i], newest_first(names)[j]),
        newest_first(names).contains(names[i]),
        newest_first(names).contains(names[j]),
{
    ordering::law_every_list_has_a_ranking(names, true);
    ordering::law_rankings_sort(names, true, i, j);
    let order = ordering::ranking(names, true);
    let a = order.index_of(i);
    let b = order.index_of(j);
    assert(order.contains(j));
    assert(newest_first(names)[a] == names[i]);
    assert(newest_first(names)[b] == names[j]);
}

/// A page begins at the offset and holds as many memories as are asked for, as
/// far as there are any; without an offset it begins with the first, and
/// without a limit it goes to the end. The next page follows on it.
pub proof fn law_pages_follow_one_another(total: usize, offset: usize, limit: usize)
    ensures
        page_start(None) == 0,
        page_start(Some(offset)) == offset,
        page_end(total as int, offset as int, None) == total,
        offset + limit <= total ==> page_end(total as int, offset as int, Some(limit)) == offset
            + limit,
        offset + limit > total ==> page_end(total as int, offset as int, Some(limit)) == total,
        offset + limit <= usize::MAX ==> page_start(Some((offset + limit) as usize)) == offset
            + limit,
{
}

/// Memories are listed with the newest first, and those of the same time in
/// the order in which they were stored.
pub proof fn law_the_newest_memories_come_first(items: Seq<MemoryItem>, i: int, j: int)
    requires
        0 <= i < j < items.len(),
    ensures
        ({
            let order = ordering::ranking(timestamps(items), true);
            &&& order.len() == items.len()
            &&& !ordering::text_lt(items[order[i]].timestamp@, items[order[j]].timestamp@)
            &&& items[order[i]].timestamp@ == items[order[j]].timestamp@ ==> order[i] < order[j]
        }),
{
    ordering::law_rankings_sort(timestamps(items), true, i, j);
    ordering::law_rankings_sort(timestamps(items), true, i, j);
    let order = ordering::ranking(timestamps(items), true);
    ordering::law_every_list_has_a_ranking(timestamps(items), true);
    assert(timestamps(items)[order[i]] == items[order[i]].timestamp@);
    assert(timestamps(items)[order[j]] == items[order[j]].timestamp@);
}

/// In a query only the quotation marks of a text are changed, each to two of
/// them, and the text stands between quotation marks.
pub proof fn law_quotation_marks_are_doubled(a: Seq<char>, b: Seq<char>)
    ensures
        escaped_sql(a + b) == escaped_sql(a) + escaped_sql(b),
        escaped_sql(seq!['\'']) == seq!['\'', '\''],
        !a.contains('\'') ==> escaped_sql(a) == a,
        sql_quoted(a) == seq!['\''] + escaped_sql(a) + seq!['\''],
    decreases a.len() + b.len(),
{
    reveal_strlit("'");
    assert("'"@ == seq!['\'']);
    assert(escaped_sql(Seq::<char>::empty()) == Seq::<char>::empty());
    assert(seq!['\''].drop_last() == Seq::<char>::empty());
    assert(escaped_sql(seq!['\'']) == Seq::<char>::empty().push('\'').push('\''));
    assert(escaped_sql(seq!['\'']) == seq!['\'', '\'']);
    if b.len() > 0 {
        law_quotation_marks_are_doubled(a, b.drop_last());
        assert((a + b).drop_last() == a + b.drop_last());
        assert((a + b).last() == b.last());
        assert(escaped_sql(a + b) == escaped_sql(a) + escaped_sql(b));
    } else {
        assert(a + b == a);
        assert(escaped_sql(a) + escaped_sql(b) == escaped_sql(a));
    }
    if !a.contains('\'') && a.len() > 0 {
        law_quotation_marks_are_doubled(a.drop_last(), Seq::empty());
        assert(a.last() == a[a.len() - 1]);
        if a.drop_last().contains('\'') {
            let k = a.drop_last().index_of('\'');
            assert(a[k] == '\'');
        }
        assert(a.drop_last().push(a.last()) == a);
    } else if a.len() == 0 {
        assert(escaped_sql(a) == a);
    }
}

/// A row is written to only while it has the status that was read: the
/// condition names the row and that status, or that there is none.
pub proof fn law_conditions_name_the_row_and_its_status(id: Seq<char>, status: Seq<char>)
    ensures
        id_condition(id) == "id = "@ + sql_quoted(id),
        guarded_condition(id, Some(status)) == "id = "@ + sql_quoted(id) + " AND "@
            + "summary_status = "@ + sql_quoted(status),
        guarded_condition(id, None) == "id = "@ + sql_quoted(id) + " AND "@
            + "summary_status IS NULL"@,
        ids_condition(seq![id]) == "id IN ("@ + sql_quoted(id) + ")"@,
{
    assert("id = "@ + sql_quoted(id) + " AND "@ + ("summary_status = "@ + sql_quoted(status))
        == "id = "@ + sql_quoted(id) + " AND "@ + "summary_status = "@ + sql_quoted(status));
    let list = seq![id].map_values(|id: Seq<char>| sql_quoted(id));
    assert(list == seq![sql_quoted(id)]);
    assert(text::joined(list, ", "@) == sql_quoted(id));
}

/// A vector is taken exactly where it has the length of the model's vectors
/// and holds numbers only.
pub proof fn law_vectors_have_one_length(len: int, all_finite: bool)
    ensures
        (vector_error(len, all_finite) is None) == (len == 768 && all_finite),
{
}

/// A table of the current layout has the columns of the older one and then
/// those of the summaries; the older layout is told from it, and whether the
/// numbers of a vector may be missing is overlooked.
pub proof fn law_layouts_are_told_apart(columns: Seq<ColumnModel>, nullable: bool)
    ensures
        memory_columns().len() == 12,
        legacy_columns().len() == 7,
        memory_columns().take(7) == legacy_columns(),
        is_memory_v2(memory_columns()),
        !is_memory_v2(legacy_columns()),
        is_memory_v2(columns) ==> columns.len() == 12 && columns[0].name == "id"@ && columns[1].name
            == "document"@ && columns[6].name == "vector"@ && columns[8].name
            == "summary_status"@,
        is_memory_v2(columns) ==> is_memory_v2(
            columns.update(
                6,
                ColumnModel {
                    kind: ColumnKind::FixedSizeList {
                        dimension: 768,
                        item_float32: true,
                        item_nullable: nullable,
                    },
                    ..columns[6]
                },
            ),
        ),
{
    assert(memory_columns().take(7) == legacy_columns());
    assert(legacy_columns()[0].name == "id"@);
    assert(memory_columns()[0] == legacy_columns()[0] && memory_columns()[1] == legacy_columns()[1]
        && memory_columns()[6] == legacy_columns()[6]);
    assert(memory_columns()[8].name == "summary_status"@);
    if is_memory_v2(columns) {
        assert(columns[0].name == memory_columns()[0].name);
        assert(columns[1].name == memory_columns()[1].name);
        assert(columns[6].name == memory_columns()[6].name);
        assert(columns[8].name == memory_columns()[8].name);
    }
}

/// A page holds the memories at its places, one for each place, in order.
pub proof fn law_pages_hold_the_memories_at_their_places(
    page: Seq<MemoryItem>,
    items: Seq<MemoryItem>,
    order: Seq<int>,
    k: int,
)
    requires
        page_of(page, items, order),
        0 <= k < order.len(),
    ensures
        page.len() == order.len(),
        page[k]@ == items[order[k]]@,
{
}

/// A path that is refused is refused for the first thing that is wrong with it,
/// under the name that it was given: the root, steps back, a place outside the
/// root, a link.
pub proof fn law_refused_paths_say_why(
    root: PathShape,
    root_links: Seq<FoundComponent>,
    path: PathShape,
    links: Seq<FoundComponent>,
    label: Seq<char>,
)
    ensures
        ({
            let error = inside_error(root, root_links, path, links, label);
            let sound = root_error(root, root_links) is None;
            &&& !sound ==> error == root_error(root, root_links)
            &&& sound && path.traverses() ==> error == Some(
                label + " must not contain traversal components"@,
            )
            &&& sound && !path.traverses() && !path.starts_with(root) ==> error == Some(
                label + " must remain inside the LanceDB root"@,
            )
            &&& sound && !path.traverses() && path.starts_with(root) ==> error == link_error(
                label,
                links,
            )
        }),
{
}

} // verus!
