//! A snapshot of the memory is made step by step: the tables are checked, a
//! directory of its own is reserved, the tables and the journal are copied, and
//! only then the oldest snapshots are removed.
use vstd::prelude::*;

use crate::identifiers;
use crate::lance_memory;
use crate::lance_memory::{BackupEntry, FoundComponent, PathShape};
use crate::text;

verus! {

/// What is to be done next.
#[derive(Debug, Clone, Copy, PartialEq, Eq, Structural)]
pub enum BackupPoint {
    /// The place of the tables is checked.
    CheckDatabase,
    /// The tables are looked for.
    FindDatabase,
    /// Everything among the tables is checked.
    CheckDatabaseTree,
    /// The directory of the snapshots is checked.
    CheckBackups,
    /// The directory of the snapshots is created, where it is missing.
    CreateBackups,
    /// The directory of the snapshots is checked once more.
    CheckBackupsAgain,
    /// A name is drawn.
    Name,
    /// The place of the snapshot is checked.
    CheckTarget,
    /// The directory of the snapshot is created; it must not be there yet.
    Reserve,
    /// The tables are copied.
    CopyDatabase,
    /// The place of the journal is checked.
    CheckJournal,
    /// The journal is looked for.
    FindJournal,
    /// Everything in the journal is checked.
    CheckJournalTree,
    /// The place of the journal in the snapshot is checked.
    CheckJournalTarget,
    /// The journal is copied.
    CopyJournal,
    /// The oldest snapshots are removed.
    Prune,
    /// The snapshot is made.
    Done,
    /// The snapshot could not be made.
    Failed,
}

/// What came of a step.
#[derive(Debug)]
pub enum BackupAnswer {
    Done,
    /// What the step is about is not there.
    Absent,
    /// The directory is there already.
    Taken,
    Failed(String),
}

/// What came of a step.
pub enum AnswerModel {
    Done,
    Absent,
    Taken,
    Failed(Seq<char>),
}

impl View for BackupAnswer {
    type V = AnswerModel;

    open spec fn view(&self) -> AnswerModel {
        match *self {
            BackupAnswer::Done => AnswerModel::Done,
            BackupAnswer::Absent => AnswerModel::Absent,
            BackupAnswer::Taken => AnswerModel::Taken,
            BackupAnswer::Failed(error) => AnswerModel::Failed(error@),
        }
    }
}

/// What is known of the journal.
#[derive(Debug, Clone, Copy, PartialEq, Eq, Structural)]
pub enum JournalPart {
    Unknown,
    /// There is none.
    Absent,
    /// There is one, and it is to be copied.
    Found,
    Copied,
}

/// The step that follows on one that went well.
pub open spec fn following(point: BackupPoint) -> BackupPoint {
    match point {
        BackupPoint::CheckDatabase => BackupPoint::FindDatabase,
        BackupPoint::FindDatabase => BackupPoint::CheckDatabaseTree,
        BackupPoint::CheckDatabaseTree => BackupPoint::CheckBackups,
        BackupPoint::CheckBackups => BackupPoint::CreateBackups,
        BackupPoint::CreateBackups => BackupPoint::CheckBackupsAgain,
        BackupPoint::CheckBackupsAgain => BackupPoint::Name,
        BackupPoint::Name => BackupPoint::CheckTarget,
        BackupPoint::CheckTarget => BackupPoint::Reserve,
        BackupPoint::Reserve => BackupPoint::CopyDatabase,
        BackupPoint::CopyDatabase => BackupPoint::CheckJournal,
        BackupPoint::CheckJournal => BackupPoint::FindJournal,
        BackupPoint::FindJournal => BackupPoint::CheckJournalTree,
        BackupPoint::CheckJournalTree => BackupPoint::CheckJournalTarget,
        BackupPoint::CheckJournalTarget => BackupPoint::CopyJournal,
        BackupPoint::CopyJournal => BackupPoint::Prune,
        BackupPoint::Prune => BackupPoint::Done,
        other => other,
    }
}

/// What the error of a step begins with.
pub open spec fn failure_start(point: BackupPoint) -> Seq<char> {
    match point {
        BackupPoint::Reserve => "Failed to create LanceDB backup target: "@,
        BackupPoint::CopyDatabase => "Failed to copy LanceDB snapshot: "@,
        BackupPoint::CopyJournal => "Failed to copy memory-v2 snapshot: "@,
        _ => ""@,
    }
}

/// How far a snapshot has come.
pub struct BackupState {
    /// The time that its name begins with.
    pub now: Seq<char>,
    pub name: Option<Seq<char>>,
    pub point: BackupPoint,
    /// Whether everything among the tables was checked.
    pub checked: bool,
    /// Whether the tables are in the snapshot.
    pub copied: bool,
    pub journal: JournalPart,
    pub error: Option<Seq<char>>,
}

impl BackupState {
    pub open spec fn started(now: Seq<char>) -> BackupState {
        BackupState {
            now,
            name: None,
            point: BackupPoint::CheckDatabase,
            checked: false,
            copied: false,
            journal: JournalPart::Unknown,
            error: None,
        }
    }

    /// Nothing is created before the tables are checked, nothing is copied
    /// before a directory with a plain name is reserved, and nothing is removed
    /// before the tables and the journal are copied.
    pub open spec fn valid(self) -> bool {
        &&& self.name is Some ==> lance_memory::is_plain_name(self.name->0)
        &&& match self.point {
            BackupPoint::CheckDatabase | BackupPoint::FindDatabase
            | BackupPoint::CheckDatabaseTree | BackupPoint::Failed => true,
            BackupPoint::CheckBackups | BackupPoint::CreateBackups
            | BackupPoint::CheckBackupsAgain | BackupPoint::Name => self.checked,
            BackupPoint::CheckTarget | BackupPoint::Reserve | BackupPoint::CopyDatabase =>
                self.checked && self.name is Some,
            BackupPoint::CheckJournal | BackupPoint::FindJournal => self.checked && self.name
                is Some && self.copied,
            BackupPoint::CheckJournalTree | BackupPoint::CheckJournalTarget
            | BackupPoint::CopyJournal => self.checked && self.name is Some && self.copied
                && self.journal == JournalPart::Found,
            BackupPoint::Prune | BackupPoint::Done => self.checked && self.name is Some
                && self.copied && (self.journal == JournalPart::Absent || self.journal
                == JournalPart::Copied),
        }
    }

    /// Whether the next step is one whose outcome is answered.
    pub open spec fn awaits_answer(self) -> bool {
        self.point != BackupPoint::Name && self.point != BackupPoint::Prune && self.point
            != BackupPoint::Done && self.point != BackupPoint::Failed
    }

    pub open spec fn failed(self, error: Seq<char>) -> BackupState {
        BackupState { point: BackupPoint::Failed, error: Some(error), ..self }
    }

    /// The error that an answer ends the snapshot with, if it does. That the
    /// directory of the snapshots could not be created is found by its check.
    pub open spec fn failure(self, answer: AnswerModel) -> Option<Seq<char>> {
        match answer {
            AnswerModel::Failed(error) => if self.point == BackupPoint::CreateBackups {
                None
            } else {
                Some(failure_start(self.point) + error)
            },
            AnswerModel::Absent => if self.point == BackupPoint::FindDatabase {
                Some("LanceDB directory does not exist"@)
            } else {
                None
            },
            _ => None,
        }
    }

    /// The state after an answer. A directory that is there already gets another
    /// name, and a journal that is not there is left out.
    pub open spec fn after(self, answer: AnswerModel) -> BackupState {
        match self.failure(answer) {
            Some(error) => self.failed(error),
            None => if self.point == BackupPoint::Reserve && answer is Taken {
                BackupState { point: BackupPoint::Name, name: None, ..self }
            } else if self.point == BackupPoint::FindJournal && answer is Absent {
                BackupState {
                    point: BackupPoint::Prune,
                    journal: JournalPart::Absent,
                    ..self
                }
            } else {
                BackupState {
                    point: following(self.point),
                    checked: self.checked || self.point == BackupPoint::CheckDatabaseTree,
                    copied: self.copied || self.point == BackupPoint::CopyDatabase,
                    journal: if self.point == BackupPoint::FindJournal {
                        JournalPart::Found
                    } else if self.point == BackupPoint::CopyJournal {
                        JournalPart::Copied
                    } else {
                        self.journal
                    },
                    ..self
                }
            },
        }
    }

    /// The state after a suffix was drawn.
    pub open spec fn named(self, suffix: Seq<char>) -> BackupState {
        let name = "backup_"@ + self.now + "_"@ + suffix;
        if lance_memory::is_plain_name(name) {
            BackupState { point: BackupPoint::CheckTarget, name: Some(name), ..self }
        } else {
            self.failed("Backup name must be a single safe component"@)
        }
    }

    /// The state after the snapshots were listed; where they could not be,
    /// nothing is removed.
    pub open spec fn pruned(self, listed: Option<Seq<BackupEntry>>) -> BackupState {
        match listed {
            Some(entries) => match lance_memory::found_backups(entries) {
                Ok(names) => BackupState { point: BackupPoint::Done, ..self },
                Err(error) => self.failed(error),
            },
            None => BackupState { point: BackupPoint::Done, ..self },
        }
    }

    /// The snapshots that are removed.
    pub open spec fn removed(self, listed: Option<Seq<BackupEntry>>) -> Seq<Seq<char>> {
        match listed {
            Some(entries) => match lance_memory::found_backups(entries) {
                Ok(names) => lance_memory::surplus(names, self.name->0),
                Err(error) => Seq::empty(),
            },
            None => Seq::empty(),
        }
    }
}

/// A snapshot in the making.
pub struct BackupRun {
    now: String,
    name: Option<String>,
    point: BackupPoint,
    checked: bool,
    copied: bool,
    journal: JournalPart,
    error: Option<String>,
}

impl View for BackupRun {
    type V = BackupState;

    closed spec fn view(&self) -> BackupState {
        BackupState {
            now: self.now@,
            name: text::opt_view(self.name),
            point: self.point,
            checked: self.checked,
            copied: self.copied,
            journal: self.journal,
            error: text::opt_view(self.error),
        }
    }
}

/// The list of the snapshots, where it could be read.
pub open spec fn opt_entries(listed: Option<&Vec<BackupEntry>>) -> Option<Seq<BackupEntry>> {
    match listed {
        Some(entries) => Some(entries@),
        None => None,
    }
}

/// Begins a snapshot, unless the root of the runtime is refused.
pub fn backup_lance_db(root: &PathShape, links: &Vec<FoundComponent>, now: &str) -> (res: Result<
    BackupRun,
    String,
>)
    ensures
        match lance_memory::root_error(*root, links@) {
            Some(message) => res is Err && res->Err_0@ == message,
            None => res matches Ok(run) && run@ == BackupState::started(now@) && run@.valid(),
        },
{
    lance_memory::validate_root_dir(root, links)?;
    Ok(
        BackupRun {
            now: now.to_owned(),
            name: None,
            point: BackupPoint::CheckDatabase,
            checked: false,
            copied: false,
            journal: JournalPart::Unknown,
            error: None,
        },
    )
}

fn next_point(point: BackupPoint) -> (res: BackupPoint)
    ensures
        res == following(point),
{
    match point {
        BackupPoint::CheckDatabase => BackupPoint::FindDatabase,
        BackupPoint::FindDatabase => BackupPoint::CheckDatabaseTree,
        BackupPoint::CheckDatabaseTree => BackupPoint::CheckBackups,
        BackupPoint::CheckBackups => BackupPoint::CreateBackups,
        BackupPoint::CreateBackups => BackupPoint::CheckBackupsAgain,
        BackupPoint::CheckBackupsAgain => BackupPoint::Name,
        BackupPoint::Name => BackupPoint::CheckTarget,
        BackupPoint::CheckTarget => BackupPoint::Reserve,
        BackupPoint::Reserve => BackupPoint::CopyDatabase,
        BackupPoint::CopyDatabase => BackupPoint::CheckJournal,
        BackupPoint::CheckJournal => BackupPoint::FindJournal,
        BackupPoint::FindJournal => BackupPoint::CheckJournalTree,
        BackupPoint::CheckJournalTree => BackupPoint::CheckJournalTarget,
        BackupPoint::CheckJournalTarget => BackupPoint::CopyJournal,
        BackupPoint::CopyJournal => BackupPoint::Prune,
        BackupPoint::Prune => BackupPoint::Done,
        BackupPoint::Done => BackupPoint::Done,
        BackupPoint::Failed => BackupPoint::Failed,
    }
}

impl BackupRun {
    /// What is to be done next.
    pub fn point(&self) -> (res: BackupPoint)
        ensures
            res == self@.point,
    {
        self.point
    }

    /// The name of the snapshot, once it is drawn.
    pub fn name(&self) -> (res: Option<&str>)
        ensures
            lance_memory::opt_str_view(res) == self@.name,
    {
        match &self.name {
            Some(name) => Some(name.as_str()),
            None => None,
        }
    }

    /// The error that the snapshot ended with.
    pub fn error(&self) -> (res: Option<&str>)
        ensures
            lance_memory::opt_str_view(res) == self@.error,
    {
        match &self.error {
            Some(error) => Some(error.as_str()),
            None => None,
        }
    }

    fn fail(&mut self, error: String)
        ensures
            final(self)@ == old(self)@.failed(error@),
    {
        self.point = BackupPoint::Failed;
        self.error = Some(error);
    }

    fn failure(&self, answer: &BackupAnswer) -> (res: Option<String>)
        ensures
            text::opt_view(res) == self@.failure(answer@),
    {
        match answer {
            BackupAnswer::Failed(error) => {
                let start = match self.point {
                    BackupPoint::CreateBackups => {
                        return None;
                    },
                    BackupPoint::Reserve => "Failed to create LanceDB backup target: ",
                    BackupPoint::CopyDatabase => "Failed to copy LanceDB snapshot: ",
                    BackupPoint::CopyJournal => "Failed to copy memory-v2 snapshot: ",
                    _ => "",
                };
                let mut message = start.to_owned();
                text::append_text(&mut message, error.as_str());
                Some(message)
            },
            BackupAnswer::Absent => {
                if self.point == BackupPoint::FindDatabase {
                    Some("LanceDB directory does not exist".to_owned())
                } else {
                    None
                }
            },
            _ => None,
        }
    }

    /// Takes what came of the step and goes on to the next one.
    pub fn answered(&mut self, answer: BackupAnswer)
        requires
            old(self)@.valid(),
            old(self)@.awaits_answer(),
        ensures
            final(self)@ == old(self)@.after(answer@),
            final(self)@.valid(),
    {
        if let Some(error) = self.failure(&answer) {
            self.fail(error);
            return;
        }
        let taken = match answer {
            BackupAnswer::Taken => true,
            _ => false,
        };
        let absent = match answer {
            BackupAnswer::Absent => true,
            _ => false,
        };
        let point = self.point;
        if point == BackupPoint::Reserve && taken {
            self.point = BackupPoint::Name;
            self.name = None;
        } else if point == BackupPoint::FindJournal && absent {
            self.point = BackupPoint::Prune;
            self.journal = JournalPart::Absent;
        } else {
            if point == BackupPoint::CheckDatabaseTree {
                self.checked = true;
            } else if point == BackupPoint::CopyDatabase {
                self.copied = true;
            } else if point == BackupPoint::FindJournal {
                self.journal = JournalPart::Found;
            } else if point == BackupPoint::CopyJournal {
                self.journal = JournalPart::Copied;
            }
            self.point = next_point(point);
        }
    }

    /// Gives the snapshot the name with this suffix.
    pub fn set_name(&mut self, suffix: &str)
        requires
            old(self)@.valid(),
            old(self)@.point == BackupPoint::Name,
        ensures
            final(self)@ == old(self)@.named(suffix@),
            final(self)@.valid(),
    {
        match lance_memory::checked_backup_name(self.now.as_str(), suffix) {
            Ok(name) => {
                self.name = Some(name);
                self.point = BackupPoint::CheckTarget;
            },
            Err(error) => {
                self.fail(error);
            },
        }
    }

    /// Draws a name, so that snapshots of one second have different ones.
    pub fn draw_name(&mut self)
        requires
            old(self)@.valid(),
            old(self)@.point == BackupPoint::Name,
        ensures
            exists|suffix: Seq<char>| #[trigger]
                identifiers::is_plain_identifier(suffix) && final(self)@ == old(self)@.named(
                    suffix,
                ),
            final(self)@.valid(),
    {
        let suffix = identifiers::new_suffix();
        assert(identifiers::is_plain_identifier(suffix@));
        self.set_name(suffix.as_str());
    }

    /// Ends the snapshot, and gives the names of those that are to be removed.
    pub fn prune(&mut self, listed: Option<&Vec<BackupEntry>>) -> (res: Vec<String>)
        requires
            old(self)@.valid(),
            old(self)@.point == BackupPoint::Prune,
        ensures
            final(self)@ == old(self)@.pruned(opt_entries(listed)),
            final(self)@.valid(),
            text::views(res@) == old(self)@.removed(opt_entries(listed)),
            !text::views(res@).contains(old(self)@.name->0),
    {
        let mut removed: Vec<String> = Vec::new();
        assert(text::views(removed@) == Seq::<Seq<char>>::empty());
        if let (Some(entries), Some(name)) = (listed, &self.name) {
            match lance_memory::backups_to_remove(entries, name.as_str()) {
                Ok(names) => {
                    removed = names;
                },
                Err(error) => {
                    self.fail(error);
                    return removed;
                },
            }
        }
        self.point = BackupPoint::Done;
        removed
    }
}

/// Old snapshots are removed only once the new one holds the tables, which were
/// checked, and the journal, where there is one; its name is a plain one.
pub proof fn law_old_snapshots_go_last(state: BackupState)
    requires
        state.valid(),
        state.point == BackupPoint::Prune,
    ensures
        state.checked,
        state.copied,
        state.journal == JournalPart::Absent || state.journal == JournalPart::Copied,
        state.name is Some,
        lance_memory::is_plain_name(state.name->0),
{
}

/// A snapshot of a time that takes no plus is never refused for its name.
pub proof fn law_drawn_names_are_accepted(state: BackupState, suffix: Seq<char>)
    requires
        crate::clock::is_file_time(state.now),
        state.now[0] != '+',
        identifiers::is_plain_identifier(suffix),
    ensures
        state.named(suffix).point == BackupPoint::CheckTarget,
        state.named(suffix).name == Some("backup_"@ + state.now + "_"@ + suffix),
{
    lance_memory::law_new_snapshots_have_accepted_names(state.now, suffix);
}

/// A failure ends a backup with it, but for the directory of the backups, which
/// is only looked at again; tables that are not there end it too.
pub proof fn law_failures_end_a_backup(state: BackupState, error: Seq<char>)
    requires
        state.awaits_answer(),
    ensures
        state.point != BackupPoint::CreateBackups ==> state.after(AnswerModel::Failed(error)).point
            == BackupPoint::Failed && state.after(AnswerModel::Failed(error)).error == Some(
            failure_start(state.point) + error,
        ),
        state.point == BackupPoint::CreateBackups ==> state.after(AnswerModel::Failed(error)).point
            == BackupPoint::CheckBackupsAgain,
        state.point == BackupPoint::FindDatabase ==> state.after(AnswerModel::Absent).point
            == BackupPoint::Failed && state.after(AnswerModel::Absent).error == Some(
            "LanceDB directory does not exist"@,
        ),
        state.after(AnswerModel::Done).error == state.error,
        state.after(AnswerModel::Done).now == state.now,
        state.after(AnswerModel::Done).name == state.name,
{
}

/// A backup goes from step to step: the tables are checked before a place for
/// the copy is made, a name that is taken is drawn again, and without a journal
/// only the tables are kept.
pub proof fn law_the_steps_of_a_backup(state: BackupState)
    ensures
        state.point == BackupPoint::CheckDatabase ==> state.after(AnswerModel::Done).point
            == BackupPoint::FindDatabase,
        state.point == BackupPoint::FindDatabase ==> state.after(AnswerModel::Done).point
            == BackupPoint::CheckDatabaseTree,
        state.point == BackupPoint::CheckDatabaseTree ==> state.after(AnswerModel::Done).point
            == BackupPoint::CheckBackups && state.after(AnswerModel::Done).checked,
        state.point == BackupPoint::CheckBackups ==> state.after(AnswerModel::Done).point
            == BackupPoint::CreateBackups,
        state.point == BackupPoint::CreateBackups ==> state.after(AnswerModel::Done).point
            == BackupPoint::CheckBackupsAgain,
        state.point == BackupPoint::CheckBackupsAgain ==> state.after(AnswerModel::Done).point
            == BackupPoint::Name,
        state.point == BackupPoint::CheckTarget ==> state.after(AnswerModel::Done).point
            == BackupPoint::Reserve,
        state.point == BackupPoint::Reserve ==> state.after(AnswerModel::Done).point
            == BackupPoint::CopyDatabase,
        state.point == BackupPoint::Reserve ==> state.after(AnswerModel::Taken).point
            == BackupPoint::Name && state.after(AnswerModel::Taken).name is None,
        state.point == BackupPoint::CopyDatabase ==> state.after(AnswerModel::Done).point
            == BackupPoint::CheckJournal && state.after(AnswerModel::Done).copied,
        state.point == BackupPoint::CheckJournal ==> state.after(AnswerModel::Done).point
            == BackupPoint::FindJournal,
        state.point == BackupPoint::FindJournal ==> state.after(AnswerModel::Done).point
            == BackupPoint::CheckJournalTree,
        state.point == BackupPoint::FindJournal ==> state.after(AnswerModel::Absent).point
            == BackupPoint::Prune && state.after(AnswerModel::Absent).journal
            == JournalPart::Absent,
        state.point == BackupPoint::CheckJournalTree ==> state.after(AnswerModel::Done).point
            == BackupPoint::CheckJournalTarget,
        state.point == BackupPoint::CheckJournalTarget ==> state.after(AnswerModel::Done).point
            == BackupPoint::CopyJournal,
        state.point == BackupPoint::CopyJournal ==> state.after(AnswerModel::Done).point
            == BackupPoint::Prune && state.after(AnswerModel::Done).journal == JournalPart::Copied,
{
}

/// A backup whose old ones cannot be listed is kept all the same; what is wrong
/// with their directory is reported, and nothing is deleted then.
pub proof fn law_nothing_is_deleted_after_an_error(
    state: BackupState,
    entries: Seq<BackupEntry>,
)
    ensures
        state.pruned(None).point == BackupPoint::Done,
        state.removed(None).len() == 0,
        lance_memory::found_backups(entries) is Err ==> state.pruned(Some(entries)).point
            == BackupPoint::Failed && state.pruned(Some(entries)).error == Some(
            lance_memory::found_backups(entries)->Err_0,
        ) && state.removed(Some(entries)).len() == 0,
        lance_memory::found_backups(entries) is Ok ==> state.pruned(Some(entries)).point
            == BackupPoint::Done && state.removed(Some(entries)) == lance_memory::surplus(
            lance_memory::found_backups(entries)->Ok_0,
            state.name->0,
        ),
{
}

/// Every step of a snapshot is answered but the ones that nothing can go wrong
/// with: the drawing of a name, the removal of old snapshots, and the end.
pub proof fn law_steps_are_answered(run: BackupState)
    ensures
        run.point == BackupPoint::CheckDatabase || run.point == BackupPoint::FindDatabase
            || run.point == BackupPoint::CheckDatabaseTree || run.point == BackupPoint::CheckBackups
            || run.point == BackupPoint::CreateBackups || run.point
            == BackupPoint::CheckBackupsAgain || run.point == BackupPoint::CheckTarget || run.point
            == BackupPoint::Reserve || run.point == BackupPoint::CopyDatabase
            ==> run.awaits_answer(),
        run.point == BackupPoint::CheckJournal || run.point == BackupPoint::FindJournal || run.point
            == BackupPoint::CheckJournalTree || run.point == BackupPoint::CheckJournalTarget
            || run.point == BackupPoint::CopyJournal ==> run.awaits_answer(),
        run.point == BackupPoint::Name || run.point == BackupPoint::Prune || run.point
            == BackupPoint::Done || run.point == BackupPoint::Failed ==> !run.awaits_answer(),
{
}

} // verus!
