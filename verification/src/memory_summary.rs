//! What may be done with the summary of a stored row.
use vstd::prelude::*;

use crate::identifiers;
use crate::lance_memory;
use crate::lance_memory::{StoredMemory, SummaryAdmission};
use crate::memory_table::VectorShape;
use crate::ordering;
use crate::text;

verus! {

/// What is done with a request about the summary of a row.
#[derive(Debug, Clone, Copy, PartialEq, Eq, Structural)]
pub enum RowStep {
    /// Nothing is written, and this is the answer.
    Answer(bool),
    /// The request is carried out.
    Write,
}

/// The status of a row, where there is one.
pub open spec fn row_status(row: StoredMemory) -> Option<Seq<char>> {
    text::opt_view(row.summary_status)
}

fn has_status(row: &StoredMemory, status: &str) -> (res: bool)
    ensures
        res == (row_status(*row) == Some(status@)),
{
    text::is_text(&row.summary_status, status)
}

/// What is wrong with a summary that is to be stored.
pub open spec fn summary_error(summary: Seq<char>, vector: Option<VectorShape>) -> Option<
    Seq<char>,
> {
    if text::trimmed(summary).len() == 0 {
        Some("summary must not be empty"@)
    } else {
        match vector {
            Some(v) => match lance_memory::vector_error(v.len as int, v.all_finite) {
                Some(message) => Some("Invalid summary vector: "@ + message),
                None => None,
            },
            None => None,
        }
    }
}

/// Refuses an empty summary, or one with an unsound vector.
pub fn check_summary(summary: &str, vector: Option<VectorShape>) -> (res: Result<(), String>)
    ensures
        match summary_error(summary@, vector) {
            Some(message) => res is Err && res->Err_0@ == message,
            None => res is Ok,
        },
{
    let trimmed = text::trim_text(summary);
    if trimmed.as_str().is_empty() {
        return Err("summary must not be empty".to_owned());
    }
    if let Some(v) = vector {
        if let Err(problem) = lance_memory::validate_vector(v.len, v.all_finite) {
            let mut message = "Invalid summary vector: ".to_owned();
            text::append_text(&mut message, problem.as_str());
            return Err(message);
        }
    }
    Ok(())
}

/// Refuses an unsound vector of a document.
pub fn check_document_vector(vector: VectorShape) -> (res: Result<(), String>)
    ensures
        match lance_memory::vector_error(vector.len as int, vector.all_finite) {
            Some(message) => res is Err && res->Err_0@ == "Invalid document vector: "@ + message,
            None => res is Ok,
        },
{
    if let Err(problem) = lance_memory::validate_vector(vector.len, vector.all_finite) {
        let mut message = "Invalid document vector: ".to_owned();
        text::append_text(&mut message, problem.as_str());
        return Err(message);
    }
    Ok(())
}

/// What is done with a summary that was made for a row.
pub open spec fn apply_step(row: Option<StoredMemory>, admission: SummaryAdmission) -> RowStep {
    match row {
        None => RowStep::Answer(false),
        Some(r) => if admission != SummaryAdmission::Eligible {
            RowStep::Answer(false)
        } else if row_status(r) == Some(lance_memory::SUMMARY_STATUS_COMPLETED@) {
            RowStep::Answer(true)
        } else if row_status(r) != Some(lance_memory::SUMMARY_STATUS_PENDING@) {
            RowStep::Answer(false)
        } else {
            RowStep::Write
        },
    }
}

pub open spec fn opt_row(row: Option<&StoredMemory>) -> Option<StoredMemory> {
    match row {
        Some(r) => Some(*r),
        None => None,
    }
}

/// Decides what is done with a summary that was made for a row. A completed
/// summary is kept as it is, and only a pending one is replaced.
pub fn apply_summary(row: Option<&StoredMemory>, admission: SummaryAdmission) -> (res: RowStep)
    ensures
        res == apply_step(opt_row(row), admission),
{
    match row {
        None => RowStep::Answer(false),
        Some(r) => {
            if admission != SummaryAdmission::Eligible {
                return RowStep::Answer(false);
            }
            if has_status(r, lance_memory::SUMMARY_STATUS_COMPLETED) {
                return RowStep::Answer(true);
            }
            if !has_status(r, lance_memory::SUMMARY_STATUS_PENDING) {
                return RowStep::Answer(false);
            }
            RowStep::Write
        },
    }
}

/// What is done with a request to set the status of a row.
pub open spec fn mark_step(
    row: Option<StoredMemory>,
    admission: SummaryAdmission,
    next: Seq<char>,
) -> RowStep {
    match row {
        None => RowStep::Answer(false),
        Some(r) => if admission != SummaryAdmission::Eligible {
            RowStep::Answer(false)
        } else if !lance_memory::transition_allowed(row_status(r), next) {
            RowStep::Answer(false)
        } else if row_status(r) == Some(next) {
            RowStep::Answer(true)
        } else {
            RowStep::Write
        },
    }
}

fn allowed(row: &StoredMemory, next: &str) -> (res: bool)
    ensures
        res == lance_memory::transition_allowed(row_status(*row), next@),
{
    match &row.summary_status {
        Some(status) => lance_memory::summary_status_transition_allowed(Some(status.as_str()), next),
        None => lance_memory::summary_status_transition_allowed(None, next),
    }
}

/// Decides what is done with a request to set the status of a row.
pub fn mark_summary_status(
    row: Option<&StoredMemory>,
    admission: SummaryAdmission,
    next: &str,
) -> (res: RowStep)
    ensures
        res == mark_step(opt_row(row), admission, next@),
{
    match row {
        None => RowStep::Answer(false),
        Some(r) => {
            if admission != SummaryAdmission::Eligible {
                return RowStep::Answer(false);
            }
            if !allowed(r, next) {
                return RowStep::Answer(false);
            }
            if has_status(r, next) {
                return RowStep::Answer(true);
            }
            RowStep::Write
        },
    }
}

/// The model judged that a row is not worth keeping. The row stays; searches
/// leave it out.
pub fn mark_summary_skipped(row: Option<&StoredMemory>, admission: SummaryAdmission) -> (res:
    RowStep)
    ensures
        res == mark_step(opt_row(row), admission, lance_memory::SUMMARY_STATUS_SKIPPED@),
{
    mark_summary_status(row, admission, lance_memory::SUMMARY_STATUS_SKIPPED)
}

/// No summary could be made of a row. The row stays and can be found.
pub fn mark_summary_fallback(row: Option<&StoredMemory>, admission: SummaryAdmission) -> (res:
    RowStep)
    ensures
        res == mark_step(opt_row(row), admission, lance_memory::SUMMARY_STATUS_FALLBACK@),
{
    mark_summary_status(row, admission, lance_memory::SUMMARY_STATUS_FALLBACK)
}

/// An error occurred on a row. The row stays.
pub fn mark_summary_error(row: Option<&StoredMemory>, admission: SummaryAdmission) -> (res: RowStep)
    ensures
        res == mark_step(opt_row(row), admission, lance_memory::SUMMARY_STATUS_ERROR@),
{
    mark_summary_status(row, admission, lance_memory::SUMMARY_STATUS_ERROR)
}

/// The condition under which a pending row is updated.
pub fn pending_predicate(id: &str) -> (res: String)
    ensures
        res@ == lance_memory::guarded_condition(id@, Some(lance_memory::SUMMARY_STATUS_PENDING@)),
{
    let pending = Some(lance_memory::SUMMARY_STATUS_PENDING.to_owned());
    lance_memory::guarded_predicate(id, &pending)
}

/// The answer after an update: rows were changed, or the row, read again, has
/// the status wanted.
pub fn update_settled(rows_updated: u64, reread: Option<&StoredMemory>, wanted: &str) -> (res: bool)
    ensures
        res == (rows_updated > 0 || (reread is Some && row_status(*reread->0) == Some(wanted@))),
{
    if rows_updated > 0 {
        return true;
    }
    match reread {
        Some(row) => has_status(row, wanted),
        None => false,
    }
}

/// What is done with the wish to try a summary once more.
pub open spec fn retry_step(row: Option<StoredMemory>, admission: SummaryAdmission) -> RowStep {
    match row {
        None => RowStep::Answer(false),
        Some(r) => if admission != SummaryAdmission::Eligible {
            RowStep::Answer(false)
        } else if row_status(r) == Some(lance_memory::SUMMARY_STATUS_PENDING@) {
            RowStep::Answer(true)
        } else if !lance_memory::transition_allowed(
            row_status(r),
            lance_memory::SUMMARY_STATUS_PENDING@,
        ) {
            RowStep::Answer(false)
        } else {
            RowStep::Write
        },
    }
}

/// Decides what is done with the wish to try a summary once more. A pending
/// summary is left as it is; skipped, failed and erroneous ones are opened
/// again.
pub fn retry_summary(row: Option<&StoredMemory>, admission: SummaryAdmission) -> (res: RowStep)
    ensures
        res == retry_step(opt_row(row), admission),
{
    match row {
        None => RowStep::Answer(false),
        Some(r) => {
            if admission != SummaryAdmission::Eligible {
                return RowStep::Answer(false);
            }
            if has_status(r, lance_memory::SUMMARY_STATUS_PENDING) {
                return RowStep::Answer(true);
            }
            if !allowed(r, lance_memory::SUMMARY_STATUS_PENDING) {
                return RowStep::Answer(false);
            }
            RowStep::Write
        },
    }
}

/// The name of an attempt: what it is, and something unique.
pub fn attempt_name(kind: &str, unique: &str) -> (res: String)
    ensures
        res@ == kind@ + "-"@ + unique@,
{
    let mut name = kind.to_owned();
    text::append_text(&mut name, "-");
    text::append_text(&mut name, unique);
    name
}

/// Whether a text can be the name of a new attempt of a kind.
pub open spec fn is_attempt_of(name: Seq<char>, kind: Seq<char>) -> bool {
    &&& name.len() == kind.len() + 33
    &&& name.take(kind.len() as int + 1) == kind + "-"@
    &&& identifiers::is_plain_identifier(name.skip(kind.len() as int + 1))
}

/// The name of a new attempt.
pub fn new_attempt_name(kind: &str) -> (res: String)
    ensures
        is_attempt_of(res@, kind@),
{
    let unique = identifiers::new_suffix();
    let name = attempt_name(kind, unique.as_str());
    proof {
        reveal_strlit("-");
        assert(name@.take(kind@.len() as int + 1) == kind@ + "-"@);
        assert(name@.skip(kind@.len() as int + 1) == unique@);
    }
    name
}

/// What the journal knows of the summary of an event.
#[derive(Debug)]
pub struct JournalStatus {
    pub status: String,
    pub model_id: Option<String>,
    pub prompt_version: Option<String>,
    pub reason: Option<String>,
}

/// Whether the journal has an event as pending already, so that a retry is not
/// written down a second time.
pub fn journal_is_pending(journal: Option<&JournalStatus>) -> (res: bool)
    ensures
        res == (journal is Some && journal->0.status@ == lance_memory::SUMMARY_STATUS_PENDING@),
{
    match journal {
        Some(known) => text::same_text(
            known.status.as_str(),
            lance_memory::SUMMARY_STATUS_PENDING,
        ),
        None => false,
    }
}

/// What is done with the wish to summarise a row in a pass over all memories.
#[derive(Debug, Clone, Copy, PartialEq, Eq, Structural)]
pub enum QueueStep {
    /// The row is left alone.
    Leave,
    /// The journal has it as pending already; the table is updated.
    Update,
    /// The journal gets an entry, then the table is updated.
    Append,
    /// The journal gets an entry for a new attempt, then the table is updated.
    AppendAttempt,
}

/// What is done with the wish to summarise a row.
pub open spec fn queue_step(
    row: Option<StoredMemory>,
    admission: SummaryAdmission,
    journal: Option<JournalStatus>,
) -> QueueStep {
    match row {
        None => QueueStep::Leave,
        Some(r) => if admission != SummaryAdmission::Eligible {
            QueueStep::Leave
        } else if row_status(r) == Some(lance_memory::SUMMARY_STATUS_COMPLETED@) || row_status(r)
            == Some(lance_memory::SUMMARY_STATUS_PENDING@) || row_status(r) == Some(
            lance_memory::SUMMARY_STATUS_DELETED@,
        ) {
            QueueStep::Leave
        } else {
            match journal {
                Some(known) => if text::opt_view(known.reason) == Some("policy_excluded"@)
                    || known.status@ == lance_memory::SUMMARY_STATUS_DELETED@ {
                    QueueStep::Leave
                } else if known.status@ == lance_memory::SUMMARY_STATUS_PENDING@ {
                    QueueStep::Update
                } else if row_status(r) is Some {
                    QueueStep::AppendAttempt
                } else {
                    QueueStep::Append
                },
                None => if row_status(r) is Some {
                    QueueStep::AppendAttempt
                } else {
                    QueueStep::Append
                },
            }
        },
    }
}

pub open spec fn opt_journal(journal: Option<&JournalStatus>) -> Option<JournalStatus> {
    match journal {
        Some(known) => Some(*known),
        None => None,
    }
}

/// Decides what is done with the wish to summarise a row. Completed and pending
/// summaries are left alone, and deleted or excluded ones never come back.
pub fn queue_summary_backfill(
    row: Option<&StoredMemory>,
    admission: SummaryAdmission,
    journal: Option<&JournalStatus>,
) -> (res: QueueStep)
    ensures
        res == queue_step(opt_row(row), admission, opt_journal(journal)),
{
    let r = match row {
        Some(found) => found,
        None => {
            return QueueStep::Leave;
        },
    };
    if admission != SummaryAdmission::Eligible {
        return QueueStep::Leave;
    }
    if has_status(r, lance_memory::SUMMARY_STATUS_COMPLETED) || has_status(
        r,
        lance_memory::SUMMARY_STATUS_PENDING,
    ) || has_status(r, lance_memory::SUMMARY_STATUS_DELETED) {
        return QueueStep::Leave;
    }
    if let Some(known) = journal {
        if text::is_text(&known.reason, "policy_excluded") || text::same_text(
            known.status.as_str(),
            lance_memory::SUMMARY_STATUS_DELETED,
        ) {
            return QueueStep::Leave;
        }
        if text::same_text(known.status.as_str(), lance_memory::SUMMARY_STATUS_PENDING) {
            return QueueStep::Update;
        }
    }
    if r.summary_status.is_some() {
        QueueStep::AppendAttempt
    } else {
        QueueStep::Append
    }
}

/// A row is written to only where its event may be summarised, and a completed
/// or deleted summary is never replaced, marked or opened again.
pub proof fn law_final_summaries_are_kept(
    row: StoredMemory,
    admission: SummaryAdmission,
    journal: Option<JournalStatus>,
    next: Seq<char>,
)
    ensures
        admission != SummaryAdmission::Eligible || row_status(row) == Some(
            lance_memory::SUMMARY_STATUS_COMPLETED@,
        ) || row_status(row) == Some(lance_memory::SUMMARY_STATUS_DELETED@) ==> {
            &&& apply_step(Some(row), admission) != RowStep::Write
            &&& mark_step(Some(row), admission, next) != RowStep::Write
            &&& retry_step(Some(row), admission) != RowStep::Write
            &&& queue_step(Some(row), admission, journal) == QueueStep::Leave
        },
{
    lance_memory::law_final_statuses_stay(next);
    lance_memory::law_final_statuses_stay(lance_memory::SUMMARY_STATUS_PENDING@);
    lance_memory::lemma_statuses_differ();
}

/// A summary that the user deleted, or that the privacy policy excluded, is not
/// made again, whatever the table still holds.
pub proof fn law_deleted_summaries_do_not_come_back(
    row: Option<StoredMemory>,
    admission: SummaryAdmission,
    journal: JournalStatus,
)
    requires
        journal.status@ == lance_memory::SUMMARY_STATUS_DELETED@ || text::opt_view(journal.reason)
            == Some("policy_excluded"@),
    ensures
        queue_step(row, admission, Some(journal)) == QueueStep::Leave,
{
}

/// Whether a row takes part in an ordinary pass over all memories.
pub open spec fn backfill_candidate(row: StoredMemory, admission: SummaryAdmission) -> bool {
    &&& admission == SummaryAdmission::Eligible
    &&& row_status(row) != Some(lance_memory::SUMMARY_STATUS_SKIPPED@)
    &&& row_status(row) != Some(lance_memory::SUMMARY_STATUS_FALLBACK@)
    &&& row_status(row) != Some(lance_memory::SUMMARY_STATUS_ERROR@)
    &&& row_status(row) != Some(lance_memory::SUMMARY_STATUS_DELETED@)
    &&& !(row.summary is Some && text::trimmed(row.summary->0@).len() > 0 && row_status(row)
        != Some(lance_memory::SUMMARY_STATUS_PENDING@))
}

/// Tells whether a row takes part in a pass over all memories, given whether
/// its event may be summarised.
fn is_backfill_candidate(row: &StoredMemory, admission: SummaryAdmission) -> (res: bool)
    ensures
        res == backfill_candidate(*row, admission),
{
    if admission != SummaryAdmission::Eligible {
        return false;
    }
    if has_status(row, lance_memory::SUMMARY_STATUS_SKIPPED) || has_status(
        row,
        lance_memory::SUMMARY_STATUS_FALLBACK,
    ) || has_status(row, lance_memory::SUMMARY_STATUS_ERROR) || has_status(
        row,
        lance_memory::SUMMARY_STATUS_DELETED,
    ) {
        return false;
    }
    match &row.summary {
        Some(summary) => {
            let trimmed = text::trim_text(summary.as_str());
            trimmed.as_str().is_empty() || has_status(row, lance_memory::SUMMARY_STATUS_PENDING)
        },
        None => true,
    }
}

/// Tells whether a row takes part in a pass over all memories, given the answer
/// of the privacy policy on its text.
pub fn is_summary_backfill_candidate(row: &StoredMemory, redaction: &Option<String>) -> (res: bool)
    ensures
        res == backfill_candidate(
            *row,
            lance_memory::admission(row.memory_type@, row.document@, text::opt_view(*redaction)),
        ),
{
    let admission = lance_memory::summary_admission(
        row.memory_type.as_str(),
        row.document.as_str(),
        redaction,
    );
    is_backfill_candidate(row, admission)
}

/// Which rows may be summarised.
pub open spec fn eligible(admissions: Seq<SummaryAdmission>) -> Seq<bool> {
    admissions.map_values(|a: SummaryAdmission| a == SummaryAdmission::Eligible)
}

/// The first `limit` places, or all of them.
pub open spec fn at_most(list: Seq<int>, limit: int) -> Seq<int> {
    if list.len() <= limit {
        list
    } else {
        list.take(limit)
    }
}

/// The identifiers of some rows.
pub open spec fn row_ids(rows: Seq<StoredMemory>) -> Seq<Seq<char>> {
    rows.map_values(|row: StoredMemory| row.id@)
}

/// The pending rows to go on with after a restart: the first `limit` of those
/// that may be summarised, ordered by their identifiers.
pub open spec fn pending_order(
    rows: Seq<StoredMemory>,
    admissions: Seq<SummaryAdmission>,
    limit: int,
) -> Seq<int> {
    let found = at_most(ordering::places(eligible(admissions)), limit);
    let order = ordering::ranking(ordering::in_order(row_ids(rows), found), false);
    order.map_values(|i: int| found[i])
}

/// Lists the places of the pending rows to go on with.
pub fn list_pending_summaries(
    rows: &Vec<StoredMemory>,
    admissions: &Vec<SummaryAdmission>,
    limit: usize,
) -> (res: Vec<usize>)
    requires
        admissions@.len() == rows@.len(),
    ensures
        ordering::indexes(res@) == pending_order(rows@, admissions@, limit as int),
{
    let ghost flags_view = eligible(admissions@);
    let mut flags: Vec<bool> = Vec::new();
    let mut i: usize = 0;
    while i < admissions.len()
        invariant
            i <= admissions@.len(),
            flags_view == eligible(admissions@),
            flags@ == flags_view.take(i as int),
        decreases admissions@.len() - i,
    {
        flags.push(admissions[i] == SummaryAdmission::Eligible);
        i += 1;
        assert(flags_view.take(i as int) == flags_view.take(i - 1).push(flags_view[i - 1]));
    }
    assert(flags_view.take(i as int) == flags_view);
    let all = ordering::set_places(&flags);
    let count: usize = if all.len() <= limit {
        all.len()
    } else {
        limit
    };
    let ghost found = at_most(ordering::places(flags_view), limit as int);
    assert(found == ordering::indexes(all@).take(count as int));
    let ghost ids = row_ids(rows@);
    let mut keys: Vec<Vec<char>> = Vec::new();
    let mut k: usize = 0;
    while k < count
        invariant
            k <= count <= all@.len(),
            ids == row_ids(rows@),
            found == ordering::indexes(all@).take(count as int),
            forall|m: int| 0 <= m < all@.len() ==> #[trigger] all@[m] < rows@.len(),
            keys@.len() == k,
            ordering::key_views(keys@) == ordering::in_order(ids, found).take(k as int),
        decreases count - k,
    {
        let ghost before = keys@;
        let at: usize = all[k];
        assert(found[k as int] == at);
        keys.push(text::chars_of(rows[at].id.as_str()));
        k += 1;
        assert(ordering::key_views(keys@) == ordering::key_views(before).push(ids[at as int]));
        assert(ordering::in_order(ids, found).take(k as int) == ordering::in_order(ids, found).take(
            k - 1,
        ).push(ids[at as int]));
    }
    assert(ordering::in_order(ids, found).take(k as int) == ordering::in_order(ids, found));
    let order = ordering::rank_by_keys(&keys, false);
    let ghost ranks = ordering::indexes(order@);
    let mut res: Vec<usize> = Vec::new();
    let mut n: usize = 0;
    while n < order.len()
        invariant
            n <= order@.len() == count,
            count <= all@.len(),
            found == ordering::indexes(all@).take(count as int),
            ranks == ordering::indexes(order@),
            forall|m: int| 0 <= m < order@.len() ==> #[trigger] order@[m] < count,
            ordering::indexes(res@) == ranks.take(n as int).map_values(|i: int| found[i]),
        decreases order@.len() - n,
    {
        let ghost before = res@;
        let at: usize = order[n];
        res.push(all[at]);
        n += 1;
        assert(ranks[n - 1] == at);
        assert(found[at as int] == all@[at as int]);
        assert(ranks.take(n as int) == ranks.take(n - 1).push(ranks[n - 1]));
        assert(ordering::indexes(res@) == ordering::indexes(before).push(all@[at as int] as int));
        assert(ranks.take(n as int).map_values(|i: int| found[i]) == ranks.take(n - 1).map_values(
            |i: int| found[i],
        ).push(found[at as int]));
    }
    assert(ranks.take(n as int) == ranks);
    res
}

/// A finished summary is written exactly to an eligible row that waits for
/// one; a completed row answers that it is done, any other that it is not.
pub proof fn law_summaries_go_to_waiting_rows(row: StoredMemory)
    ensures
        text::opt_view(row.summary_status) == Some("pending"@) ==> apply_step(
            Some(row),
            SummaryAdmission::Eligible,
        ) == RowStep::Write,
        text::opt_view(row.summary_status) == Some("completed"@) ==> apply_step(
            Some(row),
            SummaryAdmission::Eligible,
        ) == RowStep::Answer(true),
        text::opt_view(row.summary_status) != Some("pending"@) && text::opt_view(row.summary_status)
            != Some("completed"@) ==> apply_step(Some(row), SummaryAdmission::Eligible)
            == RowStep::Answer(false),
        apply_step(None, SummaryAdmission::Eligible) == RowStep::Answer(false),
{
    lance_memory::lemma_statuses_differ();
}

/// A waiting summary can be marked with every end; a mark that stands already
/// is confirmed without writing, and no other row takes one.
pub proof fn law_waiting_rows_take_a_mark(row: StoredMemory, next: Seq<char>)
    requires
        next == "skipped"@ || next == "fallback"@ || next == "error"@,
    ensures
        text::opt_view(row.summary_status) == Some("pending"@) ==> mark_step(
            Some(row),
            SummaryAdmission::Eligible,
            next,
        ) == RowStep::Write,
        text::opt_view(row.summary_status) == Some(next) ==> mark_step(
            Some(row),
            SummaryAdmission::Eligible,
            next,
        ) == RowStep::Answer(true),
        text::opt_view(row.summary_status) != Some("pending"@) && text::opt_view(row.summary_status)
            != Some(next) ==> mark_step(Some(row), SummaryAdmission::Eligible, next)
            == RowStep::Answer(false),
        mark_step(None, SummaryAdmission::Eligible, next) == RowStep::Answer(false),
{
    lance_memory::lemma_statuses_differ();
}

/// A summary that was skipped, failed or fell back is opened again when the
/// user asks for it; one that waits is confirmed, and any other stays.
pub proof fn law_ended_summaries_can_be_retried(row: StoredMemory)
    ensures
        text::opt_view(row.summary_status) == Some("skipped"@) || text::opt_view(
            row.summary_status,
        ) == Some("fallback"@) || text::opt_view(row.summary_status) == Some("error"@)
            ==> retry_step(Some(row), SummaryAdmission::Eligible) == RowStep::Write,
        text::opt_view(row.summary_status) == Some("pending"@) ==> retry_step(
            Some(row),
            SummaryAdmission::Eligible,
        ) == RowStep::Answer(true),
        row.summary_status is None || text::opt_view(row.summary_status) == Some("completed"@)
            || text::opt_view(row.summary_status) == Some("deleted"@) || text::opt_view(
            row.summary_status,
        ) == Some("legacy"@) ==> retry_step(Some(row), SummaryAdmission::Eligible)
            == RowStep::Answer(false),
        retry_step(None, SummaryAdmission::Eligible) == RowStep::Answer(false),
{
    lance_memory::lemma_statuses_differ();
}

/// Any row whose summary was never made, was skipped, failed or is of an older
/// kind is queued: with a new attempt where it has a status, and by its row
/// alone where the journal already waits for it.
pub proof fn law_unfinished_rows_are_queued(row: StoredMemory, journal: Option<JournalStatus>)
    requires
        text::opt_view(row.summary_status) != Some("completed"@),
        text::opt_view(row.summary_status) != Some("pending"@),
        text::opt_view(row.summary_status) != Some("deleted"@),
        journal is Some ==> journal->0.status@ != "deleted"@ && text::opt_view(journal->0.reason)
            != Some("policy_excluded"@),
    ensures
        journal is Some && journal->0.status@ == "pending"@ ==> queue_step(
            Some(row),
            SummaryAdmission::Eligible,
            journal,
        ) == QueueStep::Update,
        (journal is None || journal->0.status@ != "pending"@) && row.summary_status is Some
            ==> queue_step(Some(row), SummaryAdmission::Eligible, journal)
            == QueueStep::AppendAttempt,
        (journal is None || journal->0.status@ != "pending"@) && row.summary_status is None
            ==> queue_step(Some(row), SummaryAdmission::Eligible, journal) == QueueStep::Append,
{
}

/// A pass over all memories takes every eligible row that has no summary yet
/// and did not end, and every row that waits; ended and deleted rows are left,
/// and so are rows with a summary.
pub proof fn law_a_pass_takes_what_is_not_summarised(row: StoredMemory)
    ensures
        text::opt_view(row.summary_status) == Some("pending"@) ==> backfill_candidate(
            row,
            SummaryAdmission::Eligible,
        ),
        (row.summary is None || text::is_blank(row.summary->0@)) && (row.summary_status is None
            || text::opt_view(row.summary_status) == Some("legacy"@) || text::opt_view(
            row.summary_status,
        ) == Some("completed"@)) ==> backfill_candidate(row, SummaryAdmission::Eligible),
        row.summary is Some && !text::is_blank(row.summary->0@) && text::opt_view(
            row.summary_status,
        ) != Some("pending"@) ==> !backfill_candidate(row, SummaryAdmission::Eligible),
        text::opt_view(row.summary_status) == Some("skipped"@) || text::opt_view(
            row.summary_status,
        ) == Some("fallback"@) || text::opt_view(row.summary_status) == Some("error"@)
            || text::opt_view(row.summary_status) == Some("deleted"@) ==> !backfill_candidate(
            row,
            SummaryAdmission::Eligible,
        ),
        !backfill_candidate(row, SummaryAdmission::Invalid),
        !backfill_candidate(row, SummaryAdmission::NotApplicable),
{
    lance_memory::lemma_statuses_differ();
    if row.summary is Some {
        text::lemma_blank_iff_trimmed_empty(row.summary->0@);
    }
}

/// A summary is refused where it is blank, or where its vector is; any other
/// is taken.
pub proof fn law_blank_summaries_are_refused(summary: Seq<char>, vector: Option<VectorShape>)
    ensures
        (summary_error(summary, vector) is None) == (!text::is_blank(summary) && (vector is None
            || vector->0.len == 768 && vector->0.all_finite)),
{
    text::lemma_blank_iff_trimmed_empty(summary);
}

/// Waiting rows are handed out by their identifiers, in ascending order: only
/// eligible ones, no more than asked for, and all of them where there are no
/// more.
pub proof fn law_waiting_rows_are_handed_out_in_order(
    rows: Seq<StoredMemory>,
    admissions: Seq<SummaryAdmission>,
    limit: usize,
    i: int,
    j: int,
)
    requires
        admissions.len() == rows.len(),
    ensures
        pending_order(rows, admissions, limit as int).len() <= limit,
        0 <= i < j < pending_order(rows, admissions, limit as int).len() ==> !ordering::text_lt(
            rows[pending_order(rows, admissions, limit as int)[j]].id@,
            rows[pending_order(rows, admissions, limit as int)[i]].id@,
        ),
        0 <= i < pending_order(rows, admissions, limit as int).len() ==> 0 <= pending_order(
            rows,
            admissions,
            limit as int,
        )[i] < rows.len() && admissions[pending_order(rows, admissions, limit as int)[i]]
            == SummaryAdmission::Eligible,
        0 <= i < rows.len() <= limit && admissions[i] == SummaryAdmission::Eligible
            ==> pending_order(rows, admissions, limit as int).contains(i),
{
    let flags = eligible(admissions);
    let all = ordering::places(flags);
    let found = at_most(all, limit as int);
    let ids = ordering::in_order(row_ids(rows), found);
    let order = ordering::ranking(ids, false);
    let handed = pending_order(rows, admissions, limit as int);
    ordering::lemma_places(flags);
    ordering::law_every_list_has_a_ranking(ids, false);
    assert(ids.len() == found.len());
    if 0 <= i < j < handed.len() {
        ordering::law_rankings_sort(ids, false, i, j);
        assert(0 <= order[j] < ids.len());
        assert(ids[order[i]] == rows[handed[i]].id@);
        assert(ids[order[j]] == rows[handed[j]].id@);
    }
    if 0 <= i < handed.len() {
        assert(0 <= order[i] < ids.len());
        assert(found[order[i]] == all[order[i]]);
        assert(flags[all[order[i]]]);
    }
    if 0 <= i < rows.len() && rows.len() <= limit && admissions[i] == SummaryAdmission::Eligible {
        assert(flags[i]);
        assert(all.contains(i));
        let k = all.index_of(i);
        assert(order.contains(k));
        let m = order.index_of(k);
        assert(handed[m] == i);
    }
}

/// The name of an attempt tells its kind, and then thirty-two hexadecimal
/// digits.
pub proof fn law_attempts_are_named_after_their_kind(name: Seq<char>, kind: Seq<char>, i: int)
    requires
        is_attempt_of(name, kind),
        0 <= i < 32,
    ensures
        name.len() == kind.len() + 33,
        name.take(kind.len() as int) == kind,
        name[kind.len() as int] == '-',
        '0' <= name[kind.len() + 1 + i] <= '9' || 'a' <= name[kind.len() + 1 + i] <= 'f',
{
    reveal_strlit("-");
    let n = kind.len() as int;
    let head = name.take(n + 1);
    assert(head == kind + "-"@);
    assert(head.take(n) == name.take(n));
    assert((kind + "-"@).take(n) == kind);
    assert(head[n] == name[n]);
    assert(name.skip(n + 1)[i] == name[n + 1 + i]);
}

} // verus!
