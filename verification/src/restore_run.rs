//! A snapshot is put back in the place of the memory, step by step: everything
//! is checked before anything is cleared.
use vstd::prelude::*;

use crate::lance_memory;
use crate::lance_memory::{FoundComponent, PathShape};
use crate::text;

verus! {

/// What is to be done next.
#[derive(Debug, Clone, Copy, PartialEq, Eq, Structural)]
pub enum RestorePoint {
    /// The directory of the snapshots is checked.
    CheckBackups,
    /// The place of the snapshot is checked.
    CheckBackup,
    /// The snapshot is looked for.
    FindBackup,
    /// Everything in the snapshot is checked.
    CheckBackupTree,
    /// The journal in the snapshot is looked for.
    FindJournal,
    /// The place of the journal in the snapshot is checked.
    CheckJournalBackup,
    /// Everything in the journal of the snapshot is checked.
    CheckJournalTree,
    /// The place of the tables is checked.
    CheckDatabase,
    /// The tables are removed, where there are any.
    ClearDatabase,
    /// The snapshot is copied to the place of the tables.
    CopyDatabase,
    /// The place of the journal among the tables is checked.
    CheckEmbedded,
    /// The journal among the tables is removed, where there is one.
    ClearEmbedded,
    /// The place of the journal is checked.
    CheckJournal,
    /// The journal is removed, where there is one.
    ClearJournal,
    /// The journal of the snapshot is copied to its place.
    CopyJournal,
    /// The memory is that of the snapshot.
    Done,
    /// The restore ended with an error.
    Failed,
}

/// What came of a step.
#[derive(Debug)]
pub enum RestoreAnswer {
    Done,
    /// What the step is about is not there.
    Absent,
    Failed(String),
}

/// What came of a step.
pub enum AnswerModel {
    Done,
    Absent,
    Failed(Seq<char>),
}

impl View for RestoreAnswer {
    type V = AnswerModel;

    open spec fn view(&self) -> AnswerModel {
        match *self {
            RestoreAnswer::Done => AnswerModel::Done,
            RestoreAnswer::Absent => AnswerModel::Absent,
            RestoreAnswer::Failed(error) => AnswerModel::Failed(error@),
        }
    }
}

/// The steps of a restore, in their order.
#[verifier::opaque]
pub open spec fn restore_order() -> Seq<RestorePoint> {
    seq![
        RestorePoint::CheckBackups,
        RestorePoint::CheckBackup,
        RestorePoint::FindBackup,
        RestorePoint::CheckBackupTree,
        RestorePoint::FindJournal,
        RestorePoint::CheckJournalBackup,
        RestorePoint::CheckJournalTree,
        RestorePoint::CheckDatabase,
        RestorePoint::ClearDatabase,
        RestorePoint::CopyDatabase,
        RestorePoint::CheckEmbedded,
        RestorePoint::ClearEmbedded,
        RestorePoint::CheckJournal,
        RestorePoint::ClearJournal,
        RestorePoint::CopyJournal,
    ]
}

/// What the error of a step begins with.
pub open spec fn failure_start(point: RestorePoint) -> Seq<char> {
    match point {
        RestorePoint::ClearDatabase => "Failed to clear current LanceDB dir: "@,
        RestorePoint::CopyDatabase => "Failed to restore backup: "@,
        RestorePoint::ClearEmbedded => "Failed to clear embedded memory-v2 backup: "@,
        RestorePoint::ClearJournal => "Failed to clear current memory-v2 dir: "@,
        RestorePoint::CopyJournal => "Failed to restore memory-v2 snapshot: "@,
        _ => ""@,
    }
}

/// How far a restore has come: the name of the snapshot, what is to be done
/// next, the steps that are done, and the error it ended with.
pub struct RestoreState {
    pub name: Seq<char>,
    pub point: RestorePoint,
    pub passed: Seq<RestorePoint>,
    pub error: Option<Seq<char>>,
}

impl RestoreState {
    /// A restore that has not done anything yet.
    pub open spec fn started(name: Seq<char>) -> RestoreState {
        RestoreState {
            name,
            point: RestorePoint::CheckBackups,
            passed: Seq::empty(),
            error: None,
        }
    }

    /// The name is a plain one, the steps that are done are the first ones, and
    /// the next step is the one after them.
    pub open spec fn valid(self) -> bool {
        let order = restore_order();
        &&& lance_memory::is_plain_name(self.name)
        &&& self.passed.len() <= order.len()
        &&& self.passed == order.take(self.passed.len() as int)
        &&& match self.point {
            RestorePoint::Failed => self.error is Some && self.passed.len() < order.len(),
            RestorePoint::Done => self.error is None && self.passed.len() == order.len(),
            _ => self.error is None && self.passed.len() < order.len() && self.point
                == order[self.passed.len() as int],
        }
    }

    pub open spec fn ended(self) -> bool {
        self.point == RestorePoint::Done || self.point == RestorePoint::Failed
    }

    /// The error that an answer ends the restore with, if it does.
    pub open spec fn failure(self, answer: AnswerModel) -> Option<Seq<char>> {
        match answer {
            AnswerModel::Failed(error) => Some(failure_start(self.point) + error),
            AnswerModel::Absent if self.point == RestorePoint::FindBackup => Some(
                "Backup folder '"@ + self.name + "' not found"@,
            ),
            AnswerModel::Absent if self.point == RestorePoint::FindJournal => Some(
                "Backup does not contain the memory-v2 journal/manifest snapshot"@,
            ),
            _ => None,
        }
    }

    /// The state after an answer.
    pub open spec fn after(self, answer: AnswerModel) -> RestoreState {
        match self.failure(answer) {
            Some(error) => RestoreState {
                point: RestorePoint::Failed,
                error: Some(error),
                ..self
            },
            None => RestoreState {
                point: if self.passed.len() + 1 < restore_order().len() {
                    restore_order()[self.passed.len() as int + 1]
                } else {
                    RestorePoint::Done
                },
                passed: self.passed.push(self.point),
                ..self
            },
        }
    }
}

/// A restore in progress.
pub struct RestoreRun {
    name: String,
    point: RestorePoint,
    passed: Vec<RestorePoint>,
    error: Option<String>,
}

impl View for RestoreRun {
    type V = RestoreState;

    closed spec fn view(&self) -> RestoreState {
        RestoreState {
            name: self.name@,
            point: self.point,
            passed: self.passed@,
            error: text::opt_view(self.error),
        }
    }
}

fn next_point(point: RestorePoint) -> (res: RestorePoint)
    ensures
        forall|i: int|
            0 <= i < restore_order().len() && #[trigger] restore_order()[i] == point ==> res == (if i
                + 1 < restore_order().len() {
                restore_order()[i + 1]
            } else {
                RestorePoint::Done
            }),
{
    reveal(restore_order);
    match point {
        RestorePoint::CheckBackups => RestorePoint::CheckBackup,
        RestorePoint::CheckBackup => RestorePoint::FindBackup,
        RestorePoint::FindBackup => RestorePoint::CheckBackupTree,
        RestorePoint::CheckBackupTree => RestorePoint::FindJournal,
        RestorePoint::FindJournal => RestorePoint::CheckJournalBackup,
        RestorePoint::CheckJournalBackup => RestorePoint::CheckJournalTree,
        RestorePoint::CheckJournalTree => RestorePoint::CheckDatabase,
        RestorePoint::CheckDatabase => RestorePoint::ClearDatabase,
        RestorePoint::ClearDatabase => RestorePoint::CopyDatabase,
        RestorePoint::CopyDatabase => RestorePoint::CheckEmbedded,
        RestorePoint::CheckEmbedded => RestorePoint::ClearEmbedded,
        RestorePoint::ClearEmbedded => RestorePoint::CheckJournal,
        RestorePoint::CheckJournal => RestorePoint::ClearJournal,
        RestorePoint::ClearJournal => RestorePoint::CopyJournal,
        RestorePoint::CopyJournal => RestorePoint::Done,
        RestorePoint::Done => RestorePoint::Done,
        RestorePoint::Failed => RestorePoint::Failed,
    }
}

fn step_failure(point: RestorePoint, error: &str) -> (res: String)
    ensures
        res@ == failure_start(point) + error@,
{
    let start = match point {
        RestorePoint::ClearDatabase => "Failed to clear current LanceDB dir: ",
        RestorePoint::CopyDatabase => "Failed to restore backup: ",
        RestorePoint::ClearEmbedded => "Failed to clear embedded memory-v2 backup: ",
        RestorePoint::ClearJournal => "Failed to clear current memory-v2 dir: ",
        RestorePoint::CopyJournal => "Failed to restore memory-v2 snapshot: ",
        _ => "",
    };
    let mut message = start.to_owned();
    text::append_text(&mut message, error);
    message
}

/// Begins the restore of the snapshot that was asked for, unless the root of
/// the runtime or the name is refused.
pub fn restore_lance_backup(
    root: &PathShape,
    links: &Vec<FoundComponent>,
    backup_name: &str,
) -> (res: Result<RestoreRun, String>)
    ensures
        match lance_memory::root_error(*root, links@) {
            Some(message) => res is Err && res->Err_0@ == message,
            None => if lance_memory::is_plain_name(text::trimmed(backup_name@)) {
                res matches Ok(run) && run@ == RestoreState::started(text::trimmed(backup_name@))
                    && run@.valid()
            } else {
                res is Err && res->Err_0@ == "Backup name must be a single safe component"@
            },
        },
{
    lance_memory::validate_root_dir(root, links)?;
    let name = text::trim_text(backup_name);
    lance_memory::validate_safe_backup_name(name.as_str())?;
    reveal(restore_order);
    let run = RestoreRun {
        name,
        point: RestorePoint::CheckBackups,
        passed: Vec::new(),
        error: None,
    };
    assert(run@ == RestoreState::started(text::trimmed(backup_name@)));
    assert(run@.passed == restore_order().take(0));
    Ok(run)
}

impl RestoreRun {
    /// What is to be done next.
    pub fn point(&self) -> (res: RestorePoint)
        ensures
            res == self@.point,
    {
        self.point
    }

    /// The name of the snapshot.
    pub fn name(&self) -> (res: &str)
        ensures
            res@ == self@.name,
    {
        self.name.as_str()
    }

    /// The error that the restore ended with.
    pub fn error(&self) -> (res: Option<&str>)
        ensures
            lance_memory::opt_str_view(res) == self@.error,
    {
        match &self.error {
            Some(error) => Some(error.as_str()),
            None => None,
        }
    }

    fn failure(&self, answer: &RestoreAnswer) -> (res: Option<String>)
        ensures
            text::opt_view(res) == self@.failure(answer@),
    {
        match answer {
            RestoreAnswer::Failed(error) => Some(step_failure(self.point, error.as_str())),
            RestoreAnswer::Absent => {
                if self.point == RestorePoint::FindBackup {
                    let mut message = "Backup folder '".to_owned();
                    text::append_text(&mut message, self.name.as_str());
                    text::append_text(&mut message, "' not found");
                    return Some(message);
                }
                if self.point == RestorePoint::FindJournal {
                    return Some(
                        "Backup does not contain the memory-v2 journal/manifest snapshot".to_owned(),
                    );
                }
                None
            },
            RestoreAnswer::Done => None,
        }
    }

    /// Takes what came of the step and goes on to the next one.
    pub fn answered(&mut self, answer: RestoreAnswer)
        requires
            old(self)@.valid(),
            !old(self)@.ended(),
        ensures
            final(self)@ == old(self)@.after(answer@),
            final(self)@.valid(),
    {
        proof {
            law_a_finished_restore_has_done_everything(self@, answer@);
        }
        match self.failure(&answer) {
            Some(error) => {
                self.point = RestorePoint::Failed;
                self.error = Some(error);
            },
            None => {
                let ghost done = self.passed@.len() as int;
                assert(restore_order()[done] == self.point);
                let next = next_point(self.point);
                self.passed.push(self.point);
                self.point = next;
            },
        }
        assert(self@ == old(self)@.after(answer@));
    }
}

/// Whether a step changes what is on disk.
pub open spec fn changes_files(point: RestorePoint) -> bool {
    ||| point == RestorePoint::ClearDatabase
    ||| point == RestorePoint::CopyDatabase
    ||| point == RestorePoint::ClearEmbedded
    ||| point == RestorePoint::ClearJournal
    ||| point == RestorePoint::CopyJournal
}

/// Whether a step finds or checks what is read and written by a restore.
pub open spec fn comes_before_changes(point: RestorePoint) -> bool {
    ||| point == RestorePoint::CheckBackups
    ||| point == RestorePoint::CheckBackup
    ||| point == RestorePoint::FindBackup
    ||| point == RestorePoint::CheckBackupTree
    ||| point == RestorePoint::FindJournal
    ||| point == RestorePoint::CheckJournalBackup
    ||| point == RestorePoint::CheckJournalTree
    ||| point == RestorePoint::CheckDatabase
}

/// Whether a restore has changed something, or is about to.
pub open spec fn touches_files(state: RestoreState) -> bool {
    changes_files(state.point) || exists|i: int|
        0 <= i < state.passed.len() && changes_files(#[trigger] state.passed[i])
}

/// Nothing is cleared or copied before the snapshot is found, all of it and its
/// journal are checked, and the place of the tables is checked. The journal is
/// cleared last, once the tables of the snapshot are in place without the
/// journal among them.
pub proof fn law_nothing_is_cleared_before_the_checks(state: RestoreState)
    requires
        state.valid(),
    ensures
        touches_files(state) ==> forall|point: RestorePoint|
            comes_before_changes(point) ==> #[trigger] state.passed.contains(point),
        state.point == RestorePoint::ClearJournal ==> state.passed.contains(
            RestorePoint::CopyDatabase,
        ) && state.passed.contains(RestorePoint::ClearEmbedded),
{
    reveal(restore_order);
    let order = restore_order();
    let passed = state.passed;
    assert forall|i: int| 0 <= i < passed.len() implies #[trigger] passed[i] == order[i] by {}
    if touches_files(state) {
        assert(passed.len() >= 8) by {
            if passed.len() < 8 {
                assert forall|i: int| 0 <= i < 8 implies !changes_files(#[trigger] order[i]) by {}
                assert(!changes_files(state.point));
            }
        }
        assert forall|point: RestorePoint| comes_before_changes(point) implies #[trigger]
            passed.contains(point) by {
            assert(passed[0] == RestorePoint::CheckBackups);
            assert(passed[1] == RestorePoint::CheckBackup);
            assert(passed[2] == RestorePoint::FindBackup);
            assert(passed[3] == RestorePoint::CheckBackupTree);
            assert(passed[4] == RestorePoint::FindJournal);
            assert(passed[5] == RestorePoint::CheckJournalBackup);
            assert(passed[6] == RestorePoint::CheckJournalTree);
            assert(passed[7] == RestorePoint::CheckDatabase);
        }
    }
    if state.point == RestorePoint::ClearJournal {
        assert(passed.len() == 13);
        assert(passed[9] == RestorePoint::CopyDatabase);
        assert(passed[11] == RestorePoint::ClearEmbedded);
    }
}

/// A restore goes through its steps one by one: a step is passed once, in its
/// turn, and a restore that ends well has gone through all of them.
pub proof fn law_a_finished_restore_has_done_everything(before: RestoreState, answer: AnswerModel)
    requires
        before.valid(),
        !before.ended(),
    ensures
        before.after(answer).valid(),
        before.after(answer).passed == before.passed || before.after(answer).passed
            == before.passed.push(before.point),
        before.after(answer).point == RestorePoint::Done ==> before.after(answer).passed
            == restore_order(),
{
    reveal(restore_order);
    let order = restore_order();
    let n = before.passed.len() as int;
    assert(before.passed.push(before.point) == order.take(n + 1));
    assert(order.take(order.len() as int) == order);
}

/// An answer that something was done leads to the next step; a failure ends the
/// restore with it and leaves what was passed, and so does a snapshot or a
/// journal that is not there. What is missing elsewhere does not matter.
pub proof fn law_failures_end_a_restore(state: RestoreState, error: Seq<char>)
    requires
        state.valid(),
        !state.ended(),
    ensures
        state.after(AnswerModel::Failed(error)).point == RestorePoint::Failed,
        state.after(AnswerModel::Failed(error)).passed == state.passed,
        state.after(AnswerModel::Failed(error)).error == Some(failure_start(state.point) + error),
        state.after(AnswerModel::Done).passed == state.passed.push(state.point),
        state.after(AnswerModel::Done).error is None,
        state.after(AnswerModel::Done).point != RestorePoint::Failed,
        state.point == RestorePoint::FindBackup ==> state.after(AnswerModel::Absent).error == Some(
            "Backup folder '"@ + state.name + "' not found"@,
        ),
        state.point == RestorePoint::FindJournal ==> state.after(AnswerModel::Absent).error == Some(
            "Backup does not contain the memory-v2 journal/manifest snapshot"@,
        ),
        state.point != RestorePoint::FindBackup && state.point != RestorePoint::FindJournal
            ==> state.after(AnswerModel::Absent) == state.after(AnswerModel::Done),
        state.after(AnswerModel::Done).name == state.name,
{
    reveal(restore_order);
}

/// The steps of a restore, in their order: everything is checked, the tables
/// are replaced, the journal among them is removed, and the journal is
/// replaced.
pub proof fn law_the_steps_of_a_restore(i: int)
    requires
        0 <= i < restore_order().len() - 1,
    ensures
        restore_order().len() == 15,
        restore_order()[0] == RestorePoint::CheckBackups,
        restore_order()[i] == RestorePoint::CheckBackups ==> restore_order()[i + 1]
            == RestorePoint::CheckBackup,
        restore_order()[i] == RestorePoint::CheckBackup ==> restore_order()[i + 1]
            == RestorePoint::FindBackup,
        restore_order()[i] == RestorePoint::FindBackup ==> restore_order()[i + 1]
            == RestorePoint::CheckBackupTree,
        restore_order()[i] == RestorePoint::CheckBackupTree ==> restore_order()[i + 1]
            == RestorePoint::FindJournal,
        restore_order()[i] == RestorePoint::FindJournal ==> restore_order()[i + 1]
            == RestorePoint::CheckJournalBackup,
        restore_order()[i] == RestorePoint::CheckJournalBackup ==> restore_order()[i + 1]
            == RestorePoint::CheckJournalTree,
        restore_order()[i] == RestorePoint::CheckJournalTree ==> restore_order()[i + 1]
            == RestorePoint::CheckDatabase,
        restore_order()[i] == RestorePoint::CheckDatabase ==> restore_order()[i + 1]
            == RestorePoint::ClearDatabase,
        restore_order()[i] == RestorePoint::ClearDatabase ==> restore_order()[i + 1]
            == RestorePoint::CopyDatabase,
        restore_order()[i] == RestorePoint::CopyDatabase ==> restore_order()[i + 1]
            == RestorePoint::CheckEmbedded,
        restore_order()[i] == RestorePoint::CheckEmbedded ==> restore_order()[i + 1]
            == RestorePoint::ClearEmbedded,
        restore_order()[i] == RestorePoint::ClearEmbedded ==> restore_order()[i + 1]
            == RestorePoint::CheckJournal,
        restore_order()[i] == RestorePoint::CheckJournal ==> restore_order()[i + 1]
            == RestorePoint::ClearJournal,
        restore_order()[i] == RestorePoint::ClearJournal ==> restore_order()[i + 1]
            == RestorePoint::CopyJournal,
{
    reveal(restore_order);
}

} // verus!
