//! The pass that summarises all memories: which rows take part, and how the
//! results reach the journal and the table.
use vstd::prelude::*;

use crate::lance_memory;
use crate::lance_memory::{StoredMemory, SummaryAdmission};
use crate::memory_summary;
use crate::memory_summary::JournalStatus;
use crate::ordering;
use crate::text;

verus! {

/// How many rows one update of the table is about. The condition of an update
/// is read recursively, so it must not grow without bound.
pub const SUMMARY_QUEUE_PROJECTION_CHUNK_SIZE: usize = 256;

/// The first of two texts that is there.
pub open spec fn either_text(a: Option<Seq<char>>, b: Option<Seq<char>>) -> Option<Seq<char>> {
    if a is Some {
        a
    } else {
        b
    }
}

/// Whether a row takes part in a pass, by what the journal knows of it and by
/// what the table holds. Decisions made under another version of the contract
/// are made again, unless the summary was deleted.
pub open spec fn snapshot_candidate(
    row: StoredMemory,
    admission: SummaryAdmission,
    durable_status: Option<Seq<char>>,
    durable_version: Option<Seq<char>>,
) -> bool {
    let status = either_text(durable_status, text::opt_view(row.summary_status));
    let version = either_text(durable_version, text::opt_view(row.summary_prompt_version));
    if admission != SummaryAdmission::Eligible {
        false
    } else if version is Some && version->0 != lance_memory::SUMMARY_PROMPT_VERSION@ {
        status != Some(lance_memory::SUMMARY_STATUS_DELETED@)
    } else {
        status is None || status == Some(lance_memory::SUMMARY_STATUS_PENDING@) || status == Some(
            lance_memory::SUMMARY_STATUS_LEGACY@,
        ) || status == Some(lance_memory::SUMMARY_STATUS_COMPLETED@)
    }
}

pub open spec fn journal_status(journal: Option<JournalStatus>) -> Option<Seq<char>> {
    match journal {
        Some(known) => Some(known.status@),
        None => None,
    }
}

pub open spec fn journal_version(journal: Option<JournalStatus>) -> Option<Seq<char>> {
    match journal {
        Some(known) => text::opt_view(known.prompt_version),
        None => None,
    }
}

/// Tells whether a row takes part in a pass.
pub fn summary_backfill_snapshot_candidate(
    row: &StoredMemory,
    admission: SummaryAdmission,
    journal: Option<&JournalStatus>,
) -> (res: bool)
    ensures
        res == snapshot_candidate(
            *row,
            admission,
            journal_status(memory_summary::opt_journal(journal)),
            journal_version(memory_summary::opt_journal(journal)),
        ),
{
    if admission != SummaryAdmission::Eligible {
        return false;
    }
    let status = match journal {
        Some(known) => Some(known.status.clone()),
        None => lance_memory::duplicate_option(&row.summary_status),
    };
    let version = match journal {
        Some(known) => match &known.prompt_version {
            Some(v) => Some(v.clone()),
            None => lance_memory::duplicate_option(&row.summary_prompt_version),
        },
        None => lance_memory::duplicate_option(&row.summary_prompt_version),
    };
    if version.is_some() && !text::is_text(&version, lance_memory::SUMMARY_PROMPT_VERSION) {
        return !text::is_text(&status, lance_memory::SUMMARY_STATUS_DELETED);
    }
    status.is_none() || text::is_text(&status, lance_memory::SUMMARY_STATUS_PENDING)
        || text::is_text(&status, lance_memory::SUMMARY_STATUS_LEGACY) || text::is_text(
        &status,
        lance_memory::SUMMARY_STATUS_COMPLETED,
    )
}

/// Rows that ended, were skipped or failed under the current contract are not
/// processed again; a changed contract opens everything but deleted summaries.
pub proof fn law_terminal_rows_wait_for_a_new_contract(
    row: StoredMemory,
    status: Seq<char>,
    version: Seq<char>,
)
    ensures
        (status == lance_memory::SUMMARY_STATUS_SKIPPED@ || status
            == lance_memory::SUMMARY_STATUS_FALLBACK@ || status
            == lance_memory::SUMMARY_STATUS_ERROR@) ==> snapshot_candidate(
            row,
            SummaryAdmission::Eligible,
            Some(status),
            Some(version),
        ) == (version != lance_memory::SUMMARY_PROMPT_VERSION@),
        !snapshot_candidate(
            row,
            SummaryAdmission::Eligible,
            Some(lance_memory::SUMMARY_STATUS_DELETED@),
            Some(version),
        ),
{
    lance_memory::lemma_statuses_differ();
}

/// A fact that the journal holds.
#[derive(Debug)]
pub struct FactEntry {
    pub key: String,
    pub event_id: String,
    /// Whether the fact comes from an older automatic summary, and may be
    /// replaced.
    pub repairable: bool,
}

/// What the journal knows of the summaries, event by event.
#[derive(Debug)]
pub struct JournalEntry {
    pub event_id: String,
    pub status: JournalStatus,
}

pub open spec fn journal_ids(journal: Seq<JournalEntry>) -> Seq<Seq<char>> {
    journal.map_values(|entry: JournalEntry| entry.event_id@)
}

/// What the journal knows of an event.
pub open spec fn known_of(journal: Seq<JournalEntry>, event_id: Seq<char>) -> Option<
    JournalStatus,
> {
    match ordering::found_at(journal_ids(journal), event_id) {
        Some(at) => Some(journal[at].status),
        None => None,
    }
}

/// Whether a fact is the summary of an event.
pub open spec fn is_summary_fact(fact: FactEntry) -> bool {
    text::begins_with(fact.key@, "summary-"@)
}

/// Whether the journal holds a summary of an event.
pub open spec fn has_fact(facts: Seq<FactEntry>, event_id: Seq<char>) -> bool {
    exists|i: int|
        0 <= i < facts.len() && is_summary_fact(#[trigger] facts[i]) && facts[i].event_id@
            == event_id
}

/// Whether the journal holds a summary of an event that may be replaced.
pub open spec fn has_repairable_fact(facts: Seq<FactEntry>, event_id: Seq<char>) -> bool {
    exists|i: int|
        0 <= i < facts.len() && is_summary_fact(#[trigger] facts[i]) && facts[i].event_id@
            == event_id && facts[i].repairable
}

/// Whether a row is queued for summarising.
pub open spec fn is_queued(
    facts: Seq<FactEntry>,
    journal: Seq<JournalEntry>,
    event_id: Seq<char>,
    row: StoredMemory,
    admission: SummaryAdmission,
) -> bool {
    let known = known_of(journal, event_id);
    &&& !has_fact(facts, event_id) || has_repairable_fact(facts, event_id)
    &&& journal_status(known) != Some(lance_memory::SUMMARY_STATUS_DELETED@)
    &&& snapshot_candidate(row, admission, journal_status(known), journal_version(known))
}

/// Which rows are queued.
pub open spec fn queued(
    facts: Seq<FactEntry>,
    journal: Seq<JournalEntry>,
    event_ids: Seq<Seq<char>>,
    rows: Seq<StoredMemory>,
    admissions: Seq<SummaryAdmission>,
) -> Seq<bool> {
    Seq::new(
        rows.len(),
        |i: int| is_queued(facts, journal, event_ids[i], rows[i], admissions[i]),
    )
}

/// Whether one of the first `n` facts is a summary of an event; where
/// `repairable` is set, one that may be replaced.
spec fn supported(facts: Seq<FactEntry>, n: int, repairable: bool, event_id: Seq<char>) -> bool {
    exists|k: int|
        0 <= k < n && is_summary_fact(#[trigger] facts[k]) && (facts[k].repairable || !repairable)
            && facts[k].event_id@ == event_id
}

/// The events with a summary; where `repairable` is set, only those whose
/// summary may be replaced.
fn fact_events(facts: &Vec<FactEntry>, repairable: bool) -> (res: Vec<String>)
    ensures
        forall|id: Seq<char>|
            #[trigger] text::views(res@).contains(id) == (if repairable {
                has_repairable_fact(facts@, id)
            } else {
                has_fact(facts@, id)
            }),
{
    let mut events: Vec<String> = Vec::new();
    let mut i: usize = 0;
    while i < facts.len()
        invariant
            i <= facts@.len(),
            forall|k: int|
                0 <= k < i && is_summary_fact(#[trigger] facts@[k]) && (facts@[k].repairable
                    || !repairable) ==> text::views(events@).contains(facts@[k].event_id@),
            forall|m: int|
                0 <= m < events@.len() ==> supported(
                    facts@,
                    i as int,
                    repairable,
                    (#[trigger] events@[m])@,
                ),
        decreases facts@.len() - i,
    {
        let ghost before = events@;
        if text::text_begins_with(facts[i].key.as_str(), "summary-") && (facts[i].repairable
            || !repairable) {
            events.push(facts[i].event_id.clone());
            proof {
                assert forall|k: int|
                    0 <= k < i + 1 && is_summary_fact(#[trigger] facts@[k]) && (
                    facts@[k].repairable || !repairable) implies text::views(events@).contains(
                    facts@[k].event_id@,
                ) by {
                    if k < i {
                        assert(text::views(before).contains(facts@[k].event_id@));
                        let m = text::views(before).index_of(facts@[k].event_id@);
                        assert(text::views(events@)[m] == facts@[k].event_id@);
                    } else {
                        assert(text::views(events@)[before.len() as int] == facts@[k].event_id@);
                    }
                }
            }
        }
        i += 1;
        proof {
            assert forall|m: int| 0 <= m < events@.len() implies supported(
                facts@,
                i as int,
                repairable,
                (#[trigger] events@[m])@,
            ) by {
                if m < before.len() {
                    assert(events@[m] == before[m]);
                    assert(supported(facts@, i - 1, repairable, before[m]@));
                } else {
                    assert(is_summary_fact(facts@[i - 1]));
                }
            }
        }
    }
    proof {
        assert forall|id: Seq<char>| #[trigger]
            text::views(events@).contains(id) == (if repairable {
                has_repairable_fact(facts@, id)
            } else {
                has_fact(facts@, id)
            }) by {
            if text::views(events@).contains(id) {
                let m = text::views(events@).index_of(id);
                assert(events@[m]@ == id);
                assert(supported(facts@, i as int, repairable, events@[m]@));
            }
        }
    }
    events
}

fn journal_event_ids(journal: &Vec<JournalEntry>) -> (res: Vec<String>)
    ensures
        text::views(res@) == journal_ids(journal@),
        res@.len() == journal@.len(),
{
    let ghost all = journal_ids(journal@);
    let mut ids: Vec<String> = Vec::new();
    let mut i: usize = 0;
    while i < journal.len()
        invariant
            i <= journal@.len(),
            all == journal_ids(journal@),
            ids@.len() == i,
            text::views(ids@) == all.take(i as int),
        decreases journal@.len() - i,
    {
        let ghost before = ids@;
        ids.push(journal[i].event_id.clone());
        i += 1;
        assert(text::views(ids@) == text::views(before).push(all[i - 1]));
        assert(all.take(i as int) == all.take(i - 1).push(all[i - 1]));
    }
    assert(all.take(i as int) == all);
    ids
}

/// The rows that are queued for summarising, by their places. `event_ids` are
/// the canonical identifiers of the rows.
pub fn queue_candidates(
    facts: &Vec<FactEntry>,
    journal: &Vec<JournalEntry>,
    event_ids: &Vec<String>,
    rows: &Vec<StoredMemory>,
    admissions: &Vec<SummaryAdmission>,
) -> (res: Vec<usize>)
    requires
        event_ids@.len() == rows@.len(),
        admissions@.len() == rows@.len(),
    ensures
        ordering::indexes(res@) == ordering::places(
            queued(facts@, journal@, text::views(event_ids@), rows@, admissions@),
        ),
        forall|k: int| 0 <= k < res@.len() ==> #[trigger] res@[k] < rows@.len(),
{
    let durable = fact_events(facts, false);
    let repairable = fact_events(facts, true);
    let in_durable = ordering::listed_in(event_ids, &durable);
    let in_repairable = ordering::listed_in(event_ids, &repairable);
    let ids = journal_event_ids(journal);
    let known = ordering::find_each(event_ids, &ids);
    let ghost wanted = queued(facts@, journal@, text::views(event_ids@), rows@, admissions@);
    let mut flags: Vec<bool> = Vec::new();
    let mut i: usize = 0;
    while i < rows.len()
        invariant
            i <= rows@.len(),
            event_ids@.len() == rows@.len(),
            admissions@.len() == rows@.len(),
            in_durable@.len() == rows@.len(),
            in_repairable@.len() == rows@.len(),
            known@.len() == rows@.len(),
            ids@.len() == journal@.len(),
            text::views(ids@) == journal_ids(journal@),
            wanted == queued(facts@, journal@, text::views(event_ids@), rows@, admissions@),
            forall|id: Seq<char>|
                #[trigger] text::views(durable@).contains(id) == has_fact(facts@, id),
            forall|id: Seq<char>|
                #[trigger] text::views(repairable@).contains(id) == has_repairable_fact(facts@, id),
            forall|k: int|
                0 <= k < rows@.len() ==> #[trigger] in_durable@[k] == text::views(
                    durable@,
                ).contains(event_ids@[k]@),
            forall|k: int|
                0 <= k < rows@.len() ==> #[trigger] in_repairable@[k] == text::views(
                    repairable@,
                ).contains(event_ids@[k]@),
            forall|k: int|
                0 <= k < rows@.len() ==> match #[trigger] known@[k] {
                    Some(at) => at < ids@.len() && ordering::found_at(
                        text::views(ids@),
                        event_ids@[k]@,
                    ) == Some(at as int),
                    None => ordering::found_at(text::views(ids@), event_ids@[k]@) is None,
                },
            flags@ == wanted.take(i as int),
        decreases rows@.len() - i,
    {
        assert(text::views(event_ids@)[i as int] == event_ids@[i as int]@);
        let entry: Option<&JournalStatus> = match known[i] {
            Some(at) => Some(&journal[at].status),
            None => None,
        };
        let deleted = match entry {
            Some(status) => text::same_text(
                status.status.as_str(),
                lance_memory::SUMMARY_STATUS_DELETED,
            ),
            None => false,
        };
        assert(memory_summary::opt_journal(entry) == known_of(journal@, event_ids@[i as int]@));
        let candidate = (!in_durable[i] || in_repairable[i]) && !deleted
            && summary_backfill_snapshot_candidate(&rows[i], admissions[i], entry);
        assert(candidate == wanted[i as int]);
        flags.push(candidate);
        i += 1;
        assert(wanted.take(i as int) == wanted.take(i - 1).push(wanted[i - 1]));
    }
    assert(wanted.take(i as int) == wanted);
    ordering::set_places(&flags)
}

/// A row whose summary the user deleted is never queued, nor one with a
/// protected summary.
pub proof fn law_protected_summaries_are_not_queued(
    facts: Seq<FactEntry>,
    journal: Seq<JournalEntry>,
    event_id: Seq<char>,
    row: StoredMemory,
    admission: SummaryAdmission,
)
    ensures
        journal_status(known_of(journal, event_id)) == Some(lance_memory::SUMMARY_STATUS_DELETED@)
            ==> !is_queued(facts, journal, event_id, row, admission),
        has_fact(facts, event_id) && !has_repairable_fact(facts, event_id) ==> !is_queued(
            facts,
            journal,
            event_id,
            row,
            admission,
        ),
        admission != SummaryAdmission::Eligible ==> !is_queued(
            facts,
            journal,
            event_id,
            row,
            admission,
        ),
{
}

/// A status that is written to the journal.
#[derive(Debug)]
pub struct SummaryStatusBatchInput {
    pub entity_id: String,
    pub status: String,
    pub model_id: Option<String>,
    pub prompt_version: Option<String>,
    pub attempt_id: Option<String>,
    pub reason: Option<String>,
}

/// A status that is written to the journal.
pub struct StatusModel {
    pub entity_id: Seq<char>,
    pub status: Seq<char>,
    pub model_id: Option<Seq<char>>,
    pub prompt_version: Option<Seq<char>>,
    pub attempt_id: Option<Seq<char>>,
    pub reason: Option<Seq<char>>,
}

impl View for SummaryStatusBatchInput {
    type V = StatusModel;

    open spec fn view(&self) -> StatusModel {
        StatusModel {
            entity_id: self.entity_id@,
            status: self.status@,
            model_id: text::opt_view(self.model_id),
            prompt_version: text::opt_view(self.prompt_version),
            attempt_id: text::opt_view(self.attempt_id),
            reason: text::opt_view(self.reason),
        }
    }
}

/// A status under the current model and contract.
pub open spec fn current_status(
    entity_id: Seq<char>,
    status: Seq<char>,
    attempt_id: Option<Seq<char>>,
    reason: Option<Seq<char>>,
) -> StatusModel {
    StatusModel {
        entity_id,
        status,
        model_id: Some(lance_memory::SUMMARY_MODEL_ID@),
        prompt_version: Some(lance_memory::SUMMARY_PROMPT_VERSION@),
        attempt_id,
        reason,
    }
}

fn new_status(
    entity_id: &str,
    status: &str,
    attempt_id: Option<String>,
    reason: Option<String>,
) -> (res: SummaryStatusBatchInput)
    ensures
        res@ == current_status(
            entity_id@,
            status@,
            text::opt_view(attempt_id),
            text::opt_view(reason),
        ),
{
    SummaryStatusBatchInput {
        entity_id: entity_id.to_owned(),
        status: status.to_owned(),
        model_id: Some(lance_memory::SUMMARY_MODEL_ID.to_owned()),
        prompt_version: Some(lance_memory::SUMMARY_PROMPT_VERSION.to_owned()),
        attempt_id,
        reason,
    }
}

/// The journal entry of a queued row: a new pending attempt.
pub fn queued_status(entity_id: &str, unique: &str) -> (res: SummaryStatusBatchInput)
    ensures
        res@ == current_status(
            entity_id@,
            lance_memory::SUMMARY_STATUS_PENDING@,
            Some("attempt"@ + "-"@ + unique@),
            None,
        ),
{
    let attempt = Some(memory_summary::attempt_name("attempt", unique));
    new_status(entity_id, lance_memory::SUMMARY_STATUS_PENDING, attempt, None)
}

/// A queued row: its identifier, and its status in the table.
#[derive(Debug)]
pub struct QueuedRow {
    pub id: String,
    pub status: Option<String>,
}

/// Whether a journal entry queues a row as a new pending attempt.
pub open spec fn queues(status: StatusModel, id: Seq<char>) -> bool {
    &&& status.attempt_id is Some
    &&& memory_summary::is_attempt_of(status.attempt_id->0, "attempt"@)
    &&& status == current_status(
        id,
        lance_memory::SUMMARY_STATUS_PENDING@,
        status.attempt_id,
        None,
    )
}

/// The journal entries of the queued rows, each with an attempt of its own.
pub fn queued_statuses(rows: &Vec<QueuedRow>) -> (res: Vec<SummaryStatusBatchInput>)
    ensures
        res@.len() == rows@.len(),
        forall|i: int| 0 <= i < rows@.len() ==> queues(#[trigger] res@[i]@, rows@[i].id@),
{
    let mut res: Vec<SummaryStatusBatchInput> = Vec::new();
    let mut i: usize = 0;
    while i < rows.len()
        invariant
            i <= rows@.len(),
            res@.len() == i,
            forall|k: int| 0 <= k < i ==> queues(#[trigger] res@[k]@, rows@[k].id@),
        decreases rows@.len() - i,
    {
        let attempt = Some(memory_summary::new_attempt_name("attempt"));
        res.push(
            new_status(
                rows[i].id.as_str(),
                lance_memory::SUMMARY_STATUS_PENDING,
                attempt,
                None,
            ),
        );
        i += 1;
    }
    res
}

/// The condition for one queued row, in brackets.
pub open spec fn row_guard(row: QueuedRow) -> Seq<char> {
    "("@ + lance_memory::guarded_condition(row.id@, text::opt_view(row.status)) + ")"@
}

pub open spec fn row_guards(rows: Seq<QueuedRow>) -> Seq<Seq<char>> {
    rows.map_values(|row: QueuedRow| row_guard(row))
}

pub open spec fn queued_ids(rows: Seq<QueuedRow>) -> Seq<Seq<char>> {
    rows.map_values(|row: QueuedRow| row.id@)
}

/// Takes the queued rows to the table, chunk by chunk.
pub struct QueueRun {
    rows: Vec<QueuedRow>,
    next: usize,
    admitted: Vec<String>,
}

/// How far the queued rows have been taken to the table: all of them, the
/// first that has not been, and the identifiers admitted so far.
pub struct QueueState {
    pub rows: Seq<QueuedRow>,
    pub next: int,
    pub admitted: Seq<Seq<char>>,
}

impl QueueState {
    /// The end of the chunk that begins at the next row.
    pub open spec fn chunk_end(self) -> int {
        if self.rows.len() - self.next <= SUMMARY_QUEUE_PROJECTION_CHUNK_SIZE {
            self.rows.len() as int
        } else {
            self.next + SUMMARY_QUEUE_PROJECTION_CHUNK_SIZE
        }
    }

    /// The rows of the next chunk.
    pub open spec fn chunk(self) -> Seq<QueuedRow> {
        self.rows.subrange(self.next, self.chunk_end())
    }

    pub open spec fn done(self) -> bool {
        self.next == self.rows.len()
    }
}

impl View for QueueRun {
    type V = QueueState;

    closed spec fn view(&self) -> QueueState {
        QueueState {
            rows: self.rows@,
            next: self.next as int,
            admitted: text::views(self.admitted@),
        }
    }
}

/// Which rows, read again, are pending.
pub open spec fn pending_rows(rows: Seq<StoredMemory>) -> Seq<bool> {
    rows.map_values(
        |row: StoredMemory|
            text::opt_view(row.summary_status) == Some(lance_memory::SUMMARY_STATUS_PENDING@),
    )
}

impl QueueRun {
    /// The run is somewhere in its rows.
    pub closed spec fn wf(self) -> bool {
        self.next <= self.rows@.len()
    }

    pub fn new(rows: Vec<QueuedRow>) -> (res: QueueRun)
        ensures
            res.wf(),
            res@ == (QueueState { rows: rows@, next: 0, admitted: Seq::empty() }),
    {
        let run = QueueRun { rows, next: 0, admitted: Vec::new() };
        assert(text::views(run.admitted@) == Seq::<Seq<char>>::empty());
        run
    }

    fn end(&self) -> (res: usize)
        requires
            self.wf(),
        ensures
            res == self@.chunk_end(),
            self@.next <= res <= self@.rows.len(),
    {
        if self.rows.len() - self.next <= SUMMARY_QUEUE_PROJECTION_CHUNK_SIZE {
            self.rows.len()
        } else {
            self.next + SUMMARY_QUEUE_PROJECTION_CHUNK_SIZE
        }
    }

    /// The condition of the next update: each row of the chunk with the status
    /// that was seen, so that a row that changed meanwhile is left alone.
    pub fn next_guards(&self) -> (res: Option<String>)
        requires
            self.wf(),
        ensures
            self@.done() ==> res is None,
            !self@.done() ==> res is Some && res->0@ == text::joined(
                row_guards(self@.chunk()),
                " OR "@,
            ),
    {
        if self.next == self.rows.len() {
            return None;
        }
        let end = self.end();
        let ghost wanted = row_guards(self@.chunk());
        let mut guards: Vec<String> = Vec::new();
        let mut i: usize = self.next;
        while i < end
            invariant
                self.wf(),
                self.next <= i <= end <= self.rows@.len(),
                end == self@.chunk_end(),
                wanted == row_guards(self@.chunk()),
                text::views(guards@) == wanted.take(i - self.next),
            decreases end - i,
        {
            let ghost before = guards@;
            let mut guard = "(".to_owned();
            text::append_text(
                &mut guard,
                lance_memory::guarded_predicate(
                    self.rows[i].id.as_str(),
                    &self.rows[i].status,
                ).as_str(),
            );
            text::append_text(&mut guard, ")");
            guards.push(guard);
            i += 1;
            proof {
                let at = i - 1 - self.next;
                assert(self@.chunk()[at] == self.rows@[i - 1]);
                assert(wanted[at] == guards@.last()@);
                assert(text::views(guards@) == text::views(before).push(wanted[at]));
                assert(wanted.take(at + 1) == wanted.take(at).push(wanted[at]));
            }
        }
        assert(wanted.take(i - self.next) == wanted);
        Some(text::join_texts(&guards, " OR "))
    }

    /// The identifiers of the next chunk.
    pub fn chunk_ids(&self) -> (res: Vec<String>)
        requires
            self.wf(),
        ensures
            text::views(res@) == queued_ids(self@.chunk()),
    {
        let end = self.end();
        let ghost wanted = queued_ids(self@.chunk());
        let mut ids: Vec<String> = Vec::new();
        let mut i: usize = self.next;
        while i < end
            invariant
                self.wf(),
                self.next <= i <= end <= self.rows@.len(),
                end == self@.chunk_end(),
                wanted == queued_ids(self@.chunk()),
                text::views(ids@) == wanted.take(i - self.next),
            decreases end - i,
        {
            let ghost before = ids@;
            ids.push(self.rows[i].id.clone());
            i += 1;
            proof {
                let at = i - 1 - self.next;
                assert(self@.chunk()[at] == self.rows@[i - 1]);
                assert(text::views(ids@) == text::views(before).push(wanted[at]));
                assert(wanted.take(at + 1) == wanted.take(at).push(wanted[at]));
            }
        }
        assert(wanted.take(i - self.next) == wanted);
        ids
    }

    /// An update changed so many rows. Where it changed the whole chunk, all of
    /// it is admitted; else the chunk has to be read again.
    pub fn updated(&mut self, rows_updated: u64) -> (res: bool)
        requires
            old(self).wf(),
            !old(self)@.done(),
        ensures
            final(self).wf(),
            res == (rows_updated == old(self)@.chunk().len()),
            res ==> final(self)@ == (QueueState {
                next: old(self)@.chunk_end(),
                admitted: old(self)@.admitted + queued_ids(old(self)@.chunk()),
                ..old(self)@
            }),
            !res ==> final(self)@ == old(self)@,
    {
        let end = self.end();
        let count: usize = end - self.next;
        if rows_updated != count as u64 {
            return false;
        }
        let mut ids = self.chunk_ids();
        let ghost before = self.admitted@;
        let ghost added = ids@;
        self.admitted.append(&mut ids);
        self.next = end;
        assert(text::views(self.admitted@) == text::views(before) + text::views(added));
        true
    }

    /// The chunk was read again: the rows that are pending are admitted.
    pub fn verified(&mut self, rows: &Vec<StoredMemory>)
        requires
            old(self).wf(),
            !old(self)@.done(),
        ensures
            final(self).wf(),
            final(self)@ == (QueueState {
                next: old(self)@.chunk_end(),
                admitted: old(self)@.admitted + ordering::in_order(
                    memory_summary::row_ids(rows@),
                    ordering::places(pending_rows(rows@)),
                ),
                ..old(self)@
            }),
    {
        let end = self.end();
        let ghost before = self.admitted@;
        let ghost ids = memory_summary::row_ids(rows@);
        let ghost flags = pending_rows(rows@);
        let mut i: usize = 0;
        while i < rows.len()
            invariant
                i <= rows@.len(),
                ids == memory_summary::row_ids(rows@),
                flags == pending_rows(rows@),
                self.rows@ == old(self).rows@,
                self.next == old(self).next,
                text::views(self.admitted@) == text::views(before) + ordering::in_order(
                    ids,
                    ordering::places(flags.take(i as int)),
                ),
            decreases rows@.len() - i,
        {
            let ghost earlier = self.admitted@;
            let ghost known = ordering::places(flags.take(i as int));
            if text::is_text(&rows[i].summary_status, lance_memory::SUMMARY_STATUS_PENDING) {
                self.admitted.push(rows[i].id.clone());
                assert(text::views(self.admitted@) == text::views(earlier).push(ids[i as int]));
                assert(ordering::in_order(ids, known.push(i as int)) == ordering::in_order(
                    ids,
                    known,
                ).push(ids[i as int]));
            }
            i += 1;
            assert(flags.take(i as int).drop_last() == flags.take(i - 1));
            assert(flags.take(i as int).last() == flags[i - 1]);
        }
        assert(flags.take(i as int) == flags);
        self.next = end;
    }

    /// The identifiers that were admitted, in order, each once.
    pub fn finish(&self) -> (res: Vec<String>)
        ensures
            ordering::strictly_ascending(text::views(res@)),
            forall|id: Seq<char>|
                text::views(res@).contains(id) <==> #[trigger] self@.admitted.contains(id),
    {
        ordering::sort_and_dedup(&self.admitted)
    }
}

/// Every chunk is bounded and not empty, and the chunks follow one another:
/// the run ends, and no row is left out.
pub proof fn law_chunks_are_bounded(state: QueueState)
    requires
        0 <= state.next < state.rows.len(),
    ensures
        0 < state.chunk().len() <= SUMMARY_QUEUE_PROJECTION_CHUNK_SIZE,
        state.next < state.chunk_end() <= state.rows.len(),
        state.rows.take(state.next) + state.chunk() == state.rows.take(state.chunk_end()),
{
    assert(state.rows.take(state.next) + state.chunk() == state.rows.take(state.chunk_end()));
}

/// One update of a bounded chunk admits exactly the queued rows.
pub proof fn law_undisturbed_chunks_admit_their_rows(state: QueueState)
    requires
        0 <= state.next < state.rows.len(),
        state.admitted == queued_ids(state.rows.take(state.next)),
    ensures
        state.admitted + queued_ids(state.chunk()) == queued_ids(
            state.rows.take(state.chunk_end()),
        ),
{
    law_chunks_are_bounded(state);
    assert(queued_ids(state.rows.take(state.next)) + queued_ids(state.chunk()) == queued_ids(
        state.rows.take(state.next) + state.chunk(),
    ));
}

/// Only queued rows are admitted, whether the whole chunk was updated or its
/// rows were read again: where the rows that were read are rows of the chunk,
/// every admitted identifier is one of a queued row.
pub proof fn law_only_queued_rows_are_admitted(state: QueueState, rows: Seq<StoredMemory>)
    requires
        0 <= state.next < state.rows.len(),
        forall|id: Seq<char>|
            state.admitted.contains(id) ==> #[trigger] queued_ids(
                state.rows.take(state.next),
            ).contains(id),
        forall|k: int|
            0 <= k < rows.len() ==> queued_ids(state.chunk()).contains(#[trigger] rows[k].id@),
    ensures
        forall|id: Seq<char>|
            (state.admitted + queued_ids(state.chunk())).contains(id) ==> #[trigger] queued_ids(
                state.rows.take(state.chunk_end()),
            ).contains(id),
        forall|id: Seq<char>|
            (state.admitted + ordering::in_order(
                memory_summary::row_ids(rows),
                ordering::places(pending_rows(rows)),
            )).contains(id) ==> #[trigger] queued_ids(
                state.rows.take(state.chunk_end()),
            ).contains(id),
{
    let ids = memory_summary::row_ids(rows);
    let places = ordering::places(pending_rows(rows));
    let added = ordering::in_order(ids, places);
    let before = queued_ids(state.rows.take(state.next));
    let chunk = queued_ids(state.chunk());
    let after = queued_ids(state.rows.take(state.chunk_end()));
    law_chunks_are_bounded(state);
    ordering::lemma_places(pending_rows(rows));
    assert(before + chunk == after);
    assert forall|id: Seq<char>| (state.admitted + chunk).contains(id) implies #[trigger]
        after.contains(id) by {
        let all = state.admitted + chunk;
        let k = choose|k: int| 0 <= k < all.len() && all[k] == id;
        if k < state.admitted.len() {
            assert(state.admitted[k] == id);
            assert(before.contains(id));
            let m = choose|m: int| 0 <= m < before.len() && before[m] == id;
            assert(after[m] == id);
        } else {
            assert(after[before.len() + k - state.admitted.len()] == id);
        }
    }
    assert forall|id: Seq<char>| (state.admitted + added).contains(id) implies #[trigger]
        after.contains(id) by {
        let all = state.admitted + added;
        let k = choose|k: int| 0 <= k < all.len() && all[k] == id;
        if k < state.admitted.len() {
            assert(state.admitted[k] == id);
            assert(before.contains(id));
            let m = choose|m: int| 0 <= m < before.len() && before[m] == id;
            assert(after[m] == id);
        } else {
            let at = places[k - state.admitted.len()];
            assert(added[k - state.admitted.len()] == rows[at].id@);
            let m = choose|m: int| 0 <= m < chunk.len() && chunk[m] == id;
            assert(after[before.len() + m] == id);
        }
    }
}

pub open spec fn status_views(list: Seq<SummaryStatusBatchInput>) -> Seq<StatusModel> {
    list.map_values(|s: SummaryStatusBatchInput| s@)
}

/// The statuses of rows that the model declined.
pub open spec fn declined_statuses(ids: Seq<Seq<char>>) -> Seq<StatusModel> {
    ids.map_values(
        |id: Seq<char>|
            current_status(
                id,
                lance_memory::SUMMARY_STATUS_SKIPPED@,
                None,
                Some("model_declined"@),
            ),
    )
}

/// A row, and why it has no summary.
#[derive(Debug)]
pub struct FallbackReason {
    pub entity_id: String,
    pub reason: String,
}

/// The statuses of rows of which no summary could be made, each with its
/// reason.
pub open spec fn fallback_statuses(list: Seq<FallbackReason>) -> Seq<StatusModel> {
    list.map_values(
        |f: FallbackReason|
            current_status(
                f.entity_id@,
                lance_memory::SUMMARY_STATUS_FALLBACK@,
                None,
                Some(f.reason@),
            ),
    )
}

/// The statuses of a batch: the declined rows, then those without a summary.
pub fn statuses_with_reasons(skipped_ids: &Vec<String>, fallbacks: &Vec<FallbackReason>) -> (res:
    Vec<SummaryStatusBatchInput>)
    ensures
        status_views(res@) == declined_statuses(text::views(skipped_ids@)) + fallback_statuses(
            fallbacks@,
        ),
{
    let ghost declined = declined_statuses(text::views(skipped_ids@));
    let ghost failed = fallback_statuses(fallbacks@);
    let mut statuses: Vec<SummaryStatusBatchInput> = Vec::new();
    let mut i: usize = 0;
    while i < skipped_ids.len()
        invariant
            i <= skipped_ids@.len(),
            declined == declined_statuses(text::views(skipped_ids@)),
            status_views(statuses@) == declined.take(i as int),
        decreases skipped_ids@.len() - i,
    {
        let ghost before = statuses@;
        let reason = Some("model_declined".to_owned());
        statuses.push(
            new_status(
                skipped_ids[i].as_str(),
                lance_memory::SUMMARY_STATUS_SKIPPED,
                None,
                reason,
            ),
        );
        i += 1;
        assert(status_views(statuses@) == status_views(before).push(declined[i - 1]));
        assert(declined.take(i as int) == declined.take(i - 1).push(declined[i - 1]));
    }
    assert(declined.take(i as int) == declined);
    let mut k: usize = 0;
    assert(status_views(statuses@) == declined + failed.take(0));
    while k < fallbacks.len()
        invariant
            k <= fallbacks@.len(),
            failed == fallback_statuses(fallbacks@),
            status_views(statuses@) == declined + failed.take(k as int),
        decreases fallbacks@.len() - k,
    {
        let ghost before = statuses@;
        let reason = Some(fallbacks[k].reason.clone());
        statuses.push(
            new_status(
                fallbacks[k].entity_id.as_str(),
                lance_memory::SUMMARY_STATUS_FALLBACK,
                None,
                reason,
            ),
        );
        k += 1;
        assert(status_views(statuses@) == status_views(before).push(failed[k - 1]));
        assert(declined + failed.take(k as int) == (declined + failed.take(k - 1)).push(
            failed[k - 1],
        ));
    }
    assert(failed.take(k as int) == failed);
    statuses
}

/// The reason of rows of which only the identifier is known.
pub open spec fn unexplained(ids: Seq<Seq<char>>) -> Seq<StatusModel> {
    ids.map_values(
        |id: Seq<char>|
            current_status(
                id,
                lance_memory::SUMMARY_STATUS_FALLBACK@,
                None,
                Some("inference_failed"@),
            ),
    )
}

/// The statuses of a batch whose failures have no reason of their own.
pub fn statuses_without_reasons(skipped_ids: &Vec<String>, fallback_ids: &Vec<String>) -> (res: Vec<
    SummaryStatusBatchInput,
>)
    ensures
        status_views(res@) == declined_statuses(text::views(skipped_ids@)) + unexplained(
            text::views(fallback_ids@),
        ),
{
    let mut fallbacks: Vec<FallbackReason> = Vec::new();
    let ghost wanted = unexplained(text::views(fallback_ids@));
    let mut i: usize = 0;
    while i < fallback_ids.len()
        invariant
            i <= fallback_ids@.len(),
            wanted == unexplained(text::views(fallback_ids@)),
            fallbacks@.len() == i,
            fallback_statuses(fallbacks@) == wanted.take(i as int),
        decreases fallback_ids@.len() - i,
    {
        let ghost before = fallbacks@;
        fallbacks.push(
            FallbackReason {
                entity_id: fallback_ids[i].clone(),
                reason: "inference_failed".to_owned(),
            },
        );
        i += 1;
        assert(fallback_statuses(fallbacks@) == fallback_statuses(before).push(wanted[i - 1]));
        assert(wanted.take(i as int) == wanted.take(i - 1).push(wanted[i - 1]));
    }
    assert(wanted.take(i as int) == wanted);
    statuses_with_reasons(skipped_ids, &fallbacks)
}

/// What the journal did with a batch.
#[derive(Debug)]
pub struct BatchOutcome {
    pub completed_ids: Vec<String>,
    pub terminal_statuses: Vec<SummaryStatusBatchInput>,
}

/// A row that was not stored, and why.
#[derive(Debug, PartialEq, Eq)]
pub struct SummaryExclusionDetail {
    pub entity_id: String,
    pub reason: String,
}

/// What became of a batch.
#[derive(Debug, PartialEq, Eq)]
pub struct SummaryBackfillApplyResult {
    pub persisted: usize,
    pub policy_excluded: usize,
    /// The rows that were not stored, each with the reason.
    pub exclusions: Vec<SummaryExclusionDetail>,
    /// Failures that were found while storing, beside those handed in.
    pub terminal_failed: usize,
    /// Rows skipped while storing, beside those handed in.
    pub terminal_skipped: usize,
    /// What went wrong with the table after the journal had taken the batch.
    pub projection_error: Option<String>,
}

/// Whether a status is a failure.
pub open spec fn is_failed(status: Seq<char>) -> bool {
    status == lance_memory::SUMMARY_STATUS_FALLBACK@ || status == lance_memory::SUMMARY_STATUS_ERROR@
}

/// Whether a status is that of a declined row.
pub open spec fn is_skipped(status: Seq<char>) -> bool {
    status == lance_memory::SUMMARY_STATUS_SKIPPED@
}

/// Whether a failure (else a skip) of an entity is among the statuses.
pub open spec fn is_requested(
    statuses: Seq<SummaryStatusBatchInput>,
    failed: bool,
    entity_id: Seq<char>,
) -> bool {
    exists|i: int|
        0 <= i < statuses.len() && has_kind((#[trigger] statuses[i]).status@, failed)
            && statuses[i].entity_id@ == entity_id
}

/// Whether a status is a failure (else a skip).
pub open spec fn has_kind(status: Seq<char>, failed: bool) -> bool {
    if failed {
        is_failed(status)
    } else {
        is_skipped(status)
    }
}

fn kind_of(status: &str, failed: bool) -> (res: bool)
    ensures
        res == has_kind(status@, failed),
{
    if failed {
        text::same_text(status, lance_memory::SUMMARY_STATUS_FALLBACK) || text::same_text(
            status,
            lance_memory::SUMMARY_STATUS_ERROR,
        )
    } else {
        text::same_text(status, lance_memory::SUMMARY_STATUS_SKIPPED)
    }
}

/// The failures (else the skips) that were not handed in.
pub open spec fn unrequested(
    terminal: Seq<SummaryStatusBatchInput>,
    requested: Seq<SummaryStatusBatchInput>,
    failed: bool,
) -> Seq<bool> {
    terminal.map_values(
        |s: SummaryStatusBatchInput|
            has_kind(s.status@, failed) && !is_requested(requested, failed, s.entity_id@),
    )
}

spec fn requested_before(
    statuses: Seq<SummaryStatusBatchInput>,
    n: int,
    failed: bool,
    entity_id: Seq<char>,
) -> bool {
    exists|i: int|
        0 <= i < n && has_kind((#[trigger] statuses[i]).status@, failed) && statuses[i].entity_id@
            == entity_id
}

fn requested_ids(statuses: &Vec<SummaryStatusBatchInput>, failed: bool) -> (res: Vec<String>)
    ensures
        forall|id: Seq<char>|
            #[trigger] text::views(res@).contains(id) == is_requested(statuses@, failed, id),
{
    let mut ids: Vec<String> = Vec::new();
    let mut i: usize = 0;
    while i < statuses.len()
        invariant
            i <= statuses@.len(),
            forall|id: Seq<char>|
                #[trigger] text::views(ids@).contains(id) == requested_before(
                    statuses@,
                    i as int,
                    failed,
                    id,
                ),
        decreases statuses@.len() - i,
    {
        let ghost before = ids@;
        let wanted = kind_of(statuses[i].status.as_str(), failed);
        if wanted {
            ids.push(statuses[i].entity_id.clone());
        }
        i += 1;
        proof {
            assert forall|id: Seq<char>| #[trigger]
                text::views(ids@).contains(id) == requested_before(
                    statuses@,
                    i as int,
                    failed,
                    id,
                ) by {
                let last = statuses@[i - 1];
                assert(requested_before(statuses@, i as int, failed, id) == (requested_before(
                    statuses@,
                    i - 1,
                    failed,
                    id,
                ) || (wanted && last.entity_id@ == id)));
                assert(text::views(before).contains(id) == requested_before(
                    statuses@,
                    i - 1,
                    failed,
                    id,
                ));
                if wanted {
                    assert(text::views(ids@) == text::views(before).push(last.entity_id@));
                    if text::views(before).contains(id) {
                        let m = text::views(before).index_of(id);
                        assert(text::views(ids@)[m] == id);
                    }
                    if last.entity_id@ == id {
                        assert(text::views(ids@)[before.len() as int] == id);
                    }
                }
            }
        }
    }
    ids
}

fn entity_ids(statuses: &Vec<SummaryStatusBatchInput>) -> (res: Vec<String>)
    ensures
        res@.len() == statuses@.len(),
        forall|i: int| 0 <= i < res@.len() ==> (#[trigger] res@[i])@ == statuses@[i].entity_id@,
{
    let mut ids: Vec<String> = Vec::new();
    let mut i: usize = 0;
    while i < statuses.len()
        invariant
            i <= statuses@.len(),
            ids@.len() == i,
            forall|k: int| 0 <= k < i ==> (#[trigger] ids@[k])@ == statuses@[k].entity_id@,
        decreases statuses@.len() - i,
    {
        ids.push(statuses[i].entity_id.clone());
        i += 1;
    }
    ids
}

/// Counts the failures (else the skips) that were not handed in.
fn count_unrequested(
    terminal: &Vec<SummaryStatusBatchInput>,
    requested: &Vec<SummaryStatusBatchInput>,
    failed: bool,
) -> (res: usize)
    ensures
        res == ordering::places(unrequested(terminal@, requested@, failed)).len(),
{
    let asked = requested_ids(requested, failed);
    let ids = entity_ids(terminal);
    let listed = ordering::listed_in(&ids, &asked);
    let ghost wanted = unrequested(terminal@, requested@, failed);
    let mut flags: Vec<bool> = Vec::new();
    let mut i: usize = 0;
    while i < terminal.len()
        invariant
            i <= terminal@.len() == ids@.len(),
            listed@.len() == ids@.len(),
            wanted == unrequested(terminal@, requested@, failed),
            forall|k: int| 0 <= k < ids@.len() ==> (#[trigger] ids@[k])@ == terminal@[k].entity_id@,
            forall|k: int|
                0 <= k < ids@.len() ==> #[trigger] listed@[k] == text::views(asked@).contains(
                    ids@[k]@,
                ),
            forall|id: Seq<char>|
                #[trigger] text::views(asked@).contains(id) == is_requested(requested@, failed, id),
            flags@ == wanted.take(i as int),
        decreases terminal@.len() - i,
    {
        assert(ids@[i as int]@ == terminal@[i as int].entity_id@);
        flags.push(kind_of(terminal[i].status.as_str(), failed) && !listed[i]);
        i += 1;
        assert(wanted.take(i as int) == wanted.take(i - 1).push(wanted[i - 1]));
    }
    assert(wanted.take(i as int) == wanted);
    let places = ordering::set_places(&flags);
    places.len()
}

/// Whether a reason tells that a row was not stored.
pub open spec fn is_exclusion_reason(reason: Seq<char>) -> bool {
    reason == "policy_excluded"@ || reason == "empty_summary"@ || reason == "invalid_embedding"@
        || reason == "fact_validation_failed"@
}

/// Which of the outcomes are rows that were not stored.
pub open spec fn excluded(terminal: Seq<SummaryStatusBatchInput>) -> Seq<bool> {
    terminal.map_values(
        |s: SummaryStatusBatchInput| s.reason is Some && is_exclusion_reason(s.reason->0@),
    )
}

/// Which of the outcomes were excluded by the privacy policy.
pub open spec fn policy_excluded(terminal: Seq<SummaryStatusBatchInput>) -> Seq<bool> {
    terminal.map_values(
        |s: SummaryStatusBatchInput| text::opt_view(s.reason) == Some("policy_excluded"@),
    )
}

/// What is shown for a row that was not stored.
pub open spec fn exclusion_text(reason: Seq<char>) -> Seq<char> {
    (if reason == "policy_excluded"@ {
        "プライバシーポリシーに抵触したため永続化対象外"@
    } else if reason == "empty_summary"@ {
        "要約が空だったため永続化対象外"@
    } else if reason == "invalid_embedding"@ {
        "埋め込みベクトルが不正なため永続化対象外"@
    } else {
        "事実の検証に失敗したため永続化対象外"@
    }) + " ("@ + reason + ")"@
}

fn exclusion_message(reason: &str) -> (res: String)
    ensures
        res@ == exclusion_text(reason@),
{
    let mut message = if text::same_text(reason, "policy_excluded") {
        "プライバシーポリシーに抵触したため永続化対象外".to_owned()
    } else if text::same_text(reason, "empty_summary") {
        "要約が空だったため永続化対象外".to_owned()
    } else if text::same_text(reason, "invalid_embedding") {
        "埋め込みベクトルが不正なため永続化対象外".to_owned()
    } else {
        "事実の検証に失敗したため永続化対象外".to_owned()
    };
    text::append_text(&mut message, " (");
    text::append_text(&mut message, reason);
    text::append_text(&mut message, ")");
    message
}

/// Whether a list shows the rows that were not stored.
pub open spec fn shows_exclusions(
    list: Seq<SummaryExclusionDetail>,
    terminal: Seq<SummaryStatusBatchInput>,
    places: Seq<int>,
) -> bool {
    &&& list.len() == places.len()
    &&& forall|k: int|
        0 <= k < list.len() ==> (#[trigger] list[k]).entity_id@ == terminal[places[k]].entity_id@
            && list[k].reason@ == exclusion_text(terminal[places[k]].reason->0@)
}

fn list_exclusions(terminal: &Vec<SummaryStatusBatchInput>) -> (res: (
    Vec<SummaryExclusionDetail>,
    usize,
))
    ensures
        shows_exclusions(res.0@, terminal@, ordering::places(excluded(terminal@))),
        res.1 == ordering::places(policy_excluded(terminal@)).len(),
{
    let ghost flags = excluded(terminal@);
    let ghost policy = policy_excluded(terminal@);
    let mut list: Vec<SummaryExclusionDetail> = Vec::new();
    let mut count: usize = 0;
    let mut i: usize = 0;
    while i < terminal.len()
        invariant
            i <= terminal@.len(),
            flags == excluded(terminal@),
            policy == policy_excluded(terminal@),
            shows_exclusions(list@, terminal@, ordering::places(flags.take(i as int))),
            count == ordering::places(policy.take(i as int)).len(),
            count <= i,
        decreases terminal@.len() - i,
    {
        let ghost before = list@;
        if let Some(reason) = &terminal[i].reason {
            if text::same_text(reason.as_str(), "policy_excluded") {
                count += 1;
            }
            if text::same_text(reason.as_str(), "policy_excluded") || text::same_text(
                reason.as_str(),
                "empty_summary",
            ) || text::same_text(reason.as_str(), "invalid_embedding") || text::same_text(
                reason.as_str(),
                "fact_validation_failed",
            ) {
                list.push(
                    SummaryExclusionDetail {
                        entity_id: terminal[i].entity_id.clone(),
                        reason: exclusion_message(reason.as_str()),
                    },
                );
            }
        }
        i += 1;
        proof {
            assert(flags.take(i as int).drop_last() == flags.take(i - 1));
            assert(flags.take(i as int).last() == flags[i - 1]);
            assert(policy.take(i as int).drop_last() == policy.take(i - 1));
            assert(policy.take(i as int).last() == policy[i - 1]);
            let places = ordering::places(flags.take(i as int));
            assert forall|k: int| 0 <= k < list@.len() implies (#[trigger] list@[k]).entity_id@
                == terminal@[places[k]].entity_id@ && list@[k].reason@ == exclusion_text(
                terminal@[places[k]].reason->0@,
            ) by {
                if k < before.len() {
                    assert(list@[k] == before[k]);
                }
            }
        }
    }
    assert(flags.take(i as int) == flags);
    assert(policy.take(i as int) == policy);
    (list, count)
}

/// Whether a result tells what the journal did with a batch.
pub open spec fn tells_outcome(
    result: SummaryBackfillApplyResult,
    requested: Seq<SummaryStatusBatchInput>,
    outcome: BatchOutcome,
) -> bool {
    let terminal = outcome.terminal_statuses@;
    &&& result.persisted == outcome.completed_ids@.len()
    &&& result.terminal_failed == ordering::places(unrequested(terminal, requested, true)).len()
    &&& result.terminal_skipped == ordering::places(unrequested(terminal, requested, false)).len()
    &&& shows_exclusions(result.exclusions@, terminal, ordering::places(excluded(terminal)))
    &&& result.policy_excluded == ordering::places(policy_excluded(terminal)).len()
}

/// Tells what the journal did with a batch. Failures and skips that were handed
/// in are not counted once more.
pub fn batch_result(
    requested: &Vec<SummaryStatusBatchInput>,
    outcome: &BatchOutcome,
    projection_error: Option<String>,
) -> (res: SummaryBackfillApplyResult)
    ensures
        tells_outcome(res, requested@, *outcome),
        res.projection_error == projection_error,
{
    let terminal_failed = count_unrequested(&outcome.terminal_statuses, requested, true);
    let terminal_skipped = count_unrequested(&outcome.terminal_statuses, requested, false);
    let (exclusions, policy) = list_exclusions(&outcome.terminal_statuses);
    SummaryBackfillApplyResult {
        persisted: outcome.completed_ids.len(),
        policy_excluded: policy,
        exclusions,
        terminal_failed,
        terminal_skipped,
        projection_error,
    }
}

impl Default for SummaryBackfillApplyResult {
    /// What became of a batch without rows: nothing.
    fn default() -> (res: SummaryBackfillApplyResult)
        ensures
            res.persisted == 0,
            res.policy_excluded == 0,
            res.exclusions@.len() == 0,
            res.terminal_failed == 0,
            res.terminal_skipped == 0,
            res.projection_error is None,
    {
        SummaryBackfillApplyResult {
            persisted: 0,
            policy_excluded: 0,
            exclusions: Vec::new(),
            terminal_failed: 0,
            terminal_skipped: 0,
            projection_error: None,
        }
    }
}

/// The statuses of a kind.
pub open spec fn of_kind(statuses: Seq<SummaryStatusBatchInput>, failed: bool) -> Seq<bool> {
    statuses.map_values(|s: SummaryStatusBatchInput| has_kind(s.status@, failed))
}

/// The sum, or the greatest number where it is too great.
pub open spec fn capped_sum(a: int, b: int) -> int {
    if a + b <= usize::MAX {
        a + b
    } else {
        usize::MAX as int
    }
}

fn count_of_kind(statuses: &Vec<SummaryStatusBatchInput>, failed: bool) -> (res: usize)
    ensures
        res == ordering::places(of_kind(statuses@, failed)).len(),
{
    let ghost wanted = of_kind(statuses@, failed);
    let mut flags: Vec<bool> = Vec::new();
    let mut i: usize = 0;
    while i < statuses.len()
        invariant
            i <= statuses@.len(),
            wanted == of_kind(statuses@, failed),
            flags@ == wanted.take(i as int),
        decreases statuses@.len() - i,
    {
        flags.push(kind_of(statuses[i].status.as_str(), failed));
        i += 1;
        assert(wanted.take(i as int) == wanted.take(i - 1).push(wanted[i - 1]));
    }
    assert(wanted.take(i as int) == wanted);
    let places = ordering::set_places(&flags);
    places.len()
}

/// Counts the failures and skips that were handed in as well, for callers that
/// have not counted them.
pub fn with_supplied_counts(
    result: SummaryBackfillApplyResult,
    supplied: &Vec<SummaryStatusBatchInput>,
) -> (res: SummaryBackfillApplyResult)
    ensures
        res.terminal_failed == capped_sum(
            result.terminal_failed as int,
            ordering::places(of_kind(supplied@, true)).len() as int,
        ),
        res.terminal_skipped == capped_sum(
            result.terminal_skipped as int,
            ordering::places(of_kind(supplied@, false)).len() as int,
        ),
        res.persisted == result.persisted,
        res.policy_excluded == result.policy_excluded,
        res.exclusions == result.exclusions,
        res.projection_error == result.projection_error,
{
    let failed = count_of_kind(supplied, true);
    let skipped = count_of_kind(supplied, false);
    SummaryBackfillApplyResult {
        terminal_failed: result.terminal_failed.saturating_add(failed),
        terminal_skipped: result.terminal_skipped.saturating_add(skipped),
        persisted: result.persisted,
        policy_excluded: result.policy_excluded,
        exclusions: result.exclusions,
        projection_error: result.projection_error,
    }
}

/// What was handed in is never counted as found: with no outcome but the
/// statuses handed in, nothing is added.
pub proof fn law_requested_outcomes_are_not_counted_again(
    requested: Seq<SummaryStatusBatchInput>,
    failed: bool,
)
    ensures
        ordering::places(unrequested(requested, requested, failed)).len() == 0,
{
    let flags = unrequested(requested, requested, failed);
    ordering::lemma_places(flags);
    if ordering::places(flags).len() > 0 {
        let at = ordering::places(flags)[0];
        assert(flags[at]);
        assert(has_kind(requested[at].status@, failed));
        assert(is_requested(requested, failed, requested[at].entity_id@));
    }
}

/// A summary that is written to the journal. The vector is known by a number
/// under which the caller keeps it.
#[derive(Debug)]
pub struct SummaryBatchInput {
    pub entity_id: String,
    pub summary: String,
    pub embedding: Option<u64>,
    pub attempt_id: Option<String>,
    pub model_id: Option<String>,
    pub prompt_version: Option<String>,
}

/// The journal entry of a single summary.
pub fn single_summary(id: &str, summary: &str, embedding: Option<u64>) -> (res: SummaryBatchInput)
    ensures
        res.entity_id@ == id@,
        res.summary@ == summary@,
        res.embedding == embedding,
        res.attempt_id is None,
        text::opt_view(res.model_id) == Some(lance_memory::SUMMARY_MODEL_ID@),
        text::opt_view(res.prompt_version) == Some(lance_memory::SUMMARY_PROMPT_VERSION@),
{
    SummaryBatchInput {
        entity_id: id.to_owned(),
        summary: summary.to_owned(),
        embedding,
        attempt_id: None,
        model_id: Some(lance_memory::SUMMARY_MODEL_ID.to_owned()),
        prompt_version: Some(lance_memory::SUMMARY_PROMPT_VERSION.to_owned()),
    }
}

/// An update of the table: the condition, the columns with their values as they
/// stand in a query, and the number of the vector where one is set.
#[derive(Debug)]
pub struct TableUpdate {
    pub condition: String,
    pub columns: Vec<ColumnValue>,
    pub vector: Option<u64>,
}

/// A column, and its value as it stands in a query.
#[derive(Debug)]
pub struct ColumnValue {
    pub column: &'static str,
    pub value: String,
}

/// A column, and its value.
pub struct ColumnValueModel {
    pub column: Seq<char>,
    pub value: Seq<char>,
}

impl View for ColumnValue {
    type V = ColumnValueModel;

    open spec fn view(&self) -> ColumnValueModel {
        ColumnValueModel { column: self.column@, value: self.value@ }
    }
}

pub open spec fn value_views(columns: Seq<ColumnValue>) -> Seq<ColumnValueModel> {
    columns.map_values(|c: ColumnValue| c@)
}

/// An update of the table.
pub struct UpdateModel {
    pub condition: Seq<char>,
    pub columns: Seq<ColumnValueModel>,
    pub vector: Option<u64>,
}

impl View for TableUpdate {
    type V = UpdateModel;

    open spec fn view(&self) -> UpdateModel {
        UpdateModel {
            condition: self.condition@,
            columns: value_views(self.columns@),
            vector: self.vector,
        }
    }
}

pub open spec fn update_views(updates: Seq<TableUpdate>) -> Seq<UpdateModel> {
    updates.map_values(|u: TableUpdate| u@)
}

/// A column with a quoted value.
pub open spec fn quoted_column(column: Seq<char>, value: Seq<char>) -> ColumnValueModel {
    ColumnValueModel { column, value: lance_memory::sql_quoted(value) }
}

/// A column with a quoted value, where there is a value.
pub open spec fn optional_column(column: Seq<char>, value: Option<Seq<char>>) -> Seq<
    ColumnValueModel,
> {
    match value {
        Some(v) => seq![quoted_column(column, v)],
        None => Seq::empty(),
    }
}

fn push_column(columns: &mut Vec<ColumnValue>, column: &'static str, value: &str)
    ensures
        value_views(final(columns)@) == value_views(old(columns)@).push(
            quoted_column(column@, value@),
        ),
{
    let ghost before = columns@;
    columns.push(ColumnValue { column, value: lance_memory::sql_literal(value) });
    assert(value_views(columns@) == value_views(before).push(quoted_column(column@, value@)));
}

fn push_optional(columns: &mut Vec<ColumnValue>, column: &'static str, value: &Option<String>)
    ensures
        value_views(final(columns)@) == value_views(old(columns)@) + optional_column(
            column@,
            text::opt_view(*value),
        ),
{
    let ghost before = columns@;
    if let Some(v) = value {
        push_column(columns, column, v.as_str());
    }
    assert(value_views(columns@) == value_views(before) + optional_column(
        column@,
        text::opt_view(*value),
    ));
}

/// The update that puts a completed summary into the table. Only a pending row
/// is changed.
pub open spec fn summary_update(
    id: Seq<char>,
    summary: Seq<char>,
    model_id: Option<Seq<char>>,
    prompt_version: Option<Seq<char>>,
    embedding: Option<u64>,
) -> UpdateModel {
    UpdateModel {
        condition: lance_memory::guarded_condition(
            id,
            Some(lance_memory::SUMMARY_STATUS_PENDING@),
        ),
        columns: seq![
            quoted_column("summary"@, summary),
            quoted_column("summary_status"@, lance_memory::SUMMARY_STATUS_COMPLETED@),
        ] + optional_column("summary_model"@, model_id) + optional_column(
            "summary_prompt_version"@,
            prompt_version,
        ) + (if embedding is Some {
            seq![quoted_column("vector_source"@, lance_memory::VECTOR_SOURCE_SUMMARY@)]
        } else {
            Seq::empty()
        }),
        vector: embedding,
    }
}

fn completed_update(input: &SummaryBatchInput, durable: &JournalStatus) -> (res: TableUpdate)
    ensures
        res@ == summary_update(
            input.entity_id@,
            input.summary@,
            text::opt_view(durable.model_id),
            text::opt_view(durable.prompt_version),
            input.embedding,
        ),
{
    let mut columns: Vec<ColumnValue> = Vec::new();
    push_column(&mut columns, "summary", input.summary.as_str());
    push_column(&mut columns, "summary_status", lance_memory::SUMMARY_STATUS_COMPLETED);
    assert(value_views(columns@) == seq![
        quoted_column("summary"@, input.summary@),
        quoted_column("summary_status"@, lance_memory::SUMMARY_STATUS_COMPLETED@),
    ]);
    push_optional(&mut columns, "summary_model", &durable.model_id);
    push_optional(&mut columns, "summary_prompt_version", &durable.prompt_version);
    let ghost before = value_views(columns@);
    if input.embedding.is_some() {
        push_column(&mut columns, "vector_source", lance_memory::VECTOR_SOURCE_SUMMARY);
    }
    assert(value_views(columns@) == before + (if input.embedding is Some {
        seq![quoted_column("vector_source"@, lance_memory::VECTOR_SOURCE_SUMMARY@)]
    } else {
        Seq::empty()
    }));
    TableUpdate {
        condition: memory_summary::pending_predicate(input.entity_id.as_str()),
        columns,
        vector: input.embedding,
    }
}

/// Whether the table is updated for a summary: the journal completed it with
/// this batch, and has it as completed now.
pub open spec fn is_completed(
    input: SummaryBatchInput,
    completed_ids: Seq<Seq<char>>,
    known: Option<JournalStatus>,
) -> bool {
    completed_ids.contains(input.entity_id@) && journal_status(known) == Some(
        lance_memory::SUMMARY_STATUS_COMPLETED@,
    )
}

/// Which of the summaries reach the table.
pub open spec fn completed(
    inputs: Seq<SummaryBatchInput>,
    event_ids: Seq<Seq<char>>,
    completed_ids: Seq<Seq<char>>,
    journal: Seq<JournalEntry>,
) -> Seq<bool> {
    Seq::new(
        inputs.len(),
        |i: int| is_completed(inputs[i], completed_ids, known_of(journal, event_ids[i])),
    )
}

/// The update for one of the summaries.
pub open spec fn update_of(
    inputs: Seq<SummaryBatchInput>,
    event_ids: Seq<Seq<char>>,
    journal: Seq<JournalEntry>,
    i: int,
) -> UpdateModel {
    let known = known_of(journal, event_ids[i])->0;
    summary_update(
        inputs[i].entity_id@,
        inputs[i].summary@,
        text::opt_view(known.model_id),
        text::opt_view(known.prompt_version),
        inputs[i].embedding,
    )
}

fn input_ids(inputs: &Vec<SummaryBatchInput>) -> (res: Vec<String>)
    ensures
        res@.len() == inputs@.len(),
        forall|i: int| 0 <= i < res@.len() ==> (#[trigger] res@[i])@ == inputs@[i].entity_id@,
{
    let mut ids: Vec<String> = Vec::new();
    let mut i: usize = 0;
    while i < inputs.len()
        invariant
            i <= inputs@.len(),
            ids@.len() == i,
            forall|k: int| 0 <= k < i ==> (#[trigger] ids@[k])@ == inputs@[k].entity_id@,
        decreases inputs@.len() - i,
    {
        ids.push(inputs[i].entity_id.clone());
        i += 1;
    }
    ids
}

/// The updates that put the completed summaries of a batch into the table.
/// `event_ids` are the canonical identifiers of the summaries.
#[verifier::rlimit(40)]
pub fn completed_updates(
    inputs: &Vec<SummaryBatchInput>,
    event_ids: &Vec<String>,
    completed_ids: &Vec<String>,
    journal: &Vec<JournalEntry>,
) -> (res: Vec<TableUpdate>)
    requires
        event_ids@.len() == inputs@.len(),
    ensures
        update_views(res@) == ordering::places(
            completed(inputs@, text::views(event_ids@), text::views(completed_ids@), journal@),
        ).map_values(|i: int| update_of(inputs@, text::views(event_ids@), journal@, i)),
{
    let own = input_ids(inputs);
    let listed = ordering::listed_in(&own, completed_ids);
    let ids = journal_event_ids(journal);
    let known = ordering::find_each(event_ids, &ids);
    let ghost events = text::views(event_ids@);
    let ghost flags = completed(inputs@, events, text::views(completed_ids@), journal@);
    let ghost update = |i: int| update_of(inputs@, events, journal@, i);
    let mut updates: Vec<TableUpdate> = Vec::new();
    let mut i: usize = 0;
    while i < inputs.len()
        invariant
            i <= inputs@.len(),
            event_ids@.len() == inputs@.len(),
            own@.len() == inputs@.len(),
            listed@.len() == inputs@.len(),
            known@.len() == inputs@.len(),
            ids@.len() == journal@.len(),
            text::views(ids@) == journal_ids(journal@),
            events == text::views(event_ids@),
            flags == completed(inputs@, events, text::views(completed_ids@), journal@),
            update == (|i: int| update_of(inputs@, events, journal@, i)),
            forall|k: int| 0 <= k < own@.len() ==> (#[trigger] own@[k])@ == inputs@[k].entity_id@,
            forall|k: int|
                0 <= k < own@.len() ==> #[trigger] listed@[k] == text::views(
                    completed_ids@,
                ).contains(own@[k]@),
            forall|k: int|
                0 <= k < event_ids@.len() ==> match #[trigger] known@[k] {
                    Some(at) => at < ids@.len() && ordering::found_at(
                        text::views(ids@),
                        event_ids@[k]@,
                    ) == Some(at as int),
                    None => ordering::found_at(text::views(ids@), event_ids@[k]@) is None,
                },
            update_views(updates@) == ordering::places(flags.take(i as int)).map_values(update),
        decreases inputs@.len() - i,
    {
        let ghost before = updates@;
        let ghost places = ordering::places(flags.take(i as int));
        assert(own@[i as int]@ == inputs@[i as int].entity_id@);
        assert(events[i as int] == event_ids@[i as int]@);
        match known[i] {
            Some(at) => {
                assert(known_of(journal@, events[i as int]) == Some(journal@[at as int].status));
                if listed[i] && text::same_text(
                    journal[at].status.status.as_str(),
                    lance_memory::SUMMARY_STATUS_COMPLETED,
                ) {
                    updates.push(completed_update(&inputs[i], &journal[at].status));
                    assert(flags[i as int]);
                    assert(updates@.last()@ == update(i as int));
                    assert(update_views(updates@) == update_views(before).push(update(i as int)));
                    assert(places.push(i as int).map_values(update) == places.map_values(
                        update,
                    ).push(update(i as int)));
                } else {
                    assert(!flags[i as int]);
                }
            },
            None => {
                assert(!flags[i as int]);
            },
        }
        i += 1;
        assert(flags.take(i as int).drop_last() == flags.take(i - 1));
        assert(flags.take(i as int).last() == flags[i - 1]);
    }
    assert(flags.take(i as int) == flags);
    updates
}

/// What rows that are updated together have in common.
pub struct GroupKey {
    pub status: Seq<char>,
    pub model_id: Option<Seq<char>>,
    pub prompt_version: Option<Seq<char>>,
}

pub open spec fn key_of(known: JournalStatus) -> GroupKey {
    GroupKey {
        status: known.status@,
        model_id: text::opt_view(known.model_id),
        prompt_version: text::opt_view(known.prompt_version),
    }
}

/// Whether an outcome is the first one of its entity, leaving out those that
/// are still pending.
pub open spec fn is_first_outcome(statuses: Seq<SummaryStatusBatchInput>, i: int) -> bool {
    &&& statuses[i].status@ != lance_memory::SUMMARY_STATUS_PENDING@
    &&& forall|j: int|
        0 <= j < i ==> (#[trigger] statuses[j]).status@ == lance_memory::SUMMARY_STATUS_PENDING@
            || statuses[j].entity_id@ != statuses[i].entity_id@
}

/// The group of an outcome, where it reaches the table: it is the first one of
/// its entity, and the journal does not have the entity as pending.
pub open spec fn outcome_key(
    statuses: Seq<SummaryStatusBatchInput>,
    event_ids: Seq<Seq<char>>,
    journal: Seq<JournalEntry>,
    i: int,
) -> Option<GroupKey> {
    match known_of(journal, event_ids[i]) {
        Some(known) => if is_first_outcome(statuses, i) && known.status@
            != lance_memory::SUMMARY_STATUS_PENDING@ {
            Some(key_of(known))
        } else {
            None
        },
        None => None,
    }
}

/// The groups of all outcomes.
pub open spec fn outcome_keys(
    statuses: Seq<SummaryStatusBatchInput>,
    event_ids: Seq<Seq<char>>,
    journal: Seq<JournalEntry>,
) -> Seq<Option<GroupKey>> {
    Seq::new(statuses.len(), |i: int| outcome_key(statuses, event_ids, journal, i))
}

/// Rows that get the same status, model and version.
#[derive(Debug)]
pub struct StatusGroup {
    pub status: String,
    pub model_id: Option<String>,
    pub prompt_version: Option<String>,
    pub ids: Vec<String>,
}

impl StatusGroup {
    pub open spec fn key(self) -> GroupKey {
        GroupKey {
            status: self.status@,
            model_id: text::opt_view(self.model_id),
            prompt_version: text::opt_view(self.prompt_version),
        }
    }
}

/// Which outcomes belong to a group.
pub open spec fn members(keys: Seq<Option<GroupKey>>, key: GroupKey) -> Seq<bool> {
    keys.map_values(|k: Option<GroupKey>| k == Some(key))
}

pub open spec fn entity_views(statuses: Seq<SummaryStatusBatchInput>) -> Seq<Seq<char>> {
    statuses.map_values(|s: SummaryStatusBatchInput| s.entity_id@)
}

/// Whether the groups sort the outcomes by what they have in common: each group
/// holds the entities of its outcomes, in order, no two groups are alike, and
/// every outcome that reaches the table is in one.
pub open spec fn sorts_outcomes(
    groups: Seq<StatusGroup>,
    entities: Seq<Seq<char>>,
    keys: Seq<Option<GroupKey>>,
) -> bool {
    &&& forall|g: int|
        0 <= g < groups.len() ==> text::views((#[trigger] groups[g]).ids@) == ordering::in_order(
            entities,
            ordering::places(members(keys, groups[g].key())),
        )
    &&& forall|g: int| 0 <= g < groups.len() ==> keys.contains(Some((#[trigger] groups[g]).key()))
    &&& forall|g: int, h: int|
        0 <= g < h < groups.len() ==> (#[trigger] groups[g]).key() != (#[trigger] groups[h]).key()
    &&& forall|i: int|
        0 <= i < keys.len() && (#[trigger] keys[i]) is Some ==> exists|g: int|
            0 <= g < groups.len() && (#[trigger] groups[g]).key() == keys[i]->0
}

fn same_option(a: &Option<String>, b: &Option<String>) -> (res: bool)
    ensures
        res == (text::opt_view(*a) == text::opt_view(*b)),
{
    match (a, b) {
        (Some(x), Some(y)) => text::same_text(x.as_str(), y.as_str()),
        (None, None) => true,
        _ => false,
    }
}

fn find_group(groups: &Vec<StatusGroup>, known: &JournalStatus) -> (res: usize)
    ensures
        res <= groups@.len(),
        res < groups@.len() ==> groups@[res as int].key() == key_of(*known),
        forall|g: int| 0 <= g < res ==> (#[trigger] groups@[g]).key() != key_of(*known),
{
    let mut g: usize = 0;
    while g < groups.len()
        invariant
            g <= groups@.len(),
            forall|k: int| 0 <= k < g ==> (#[trigger] groups@[k]).key() != key_of(*known),
        decreases groups@.len() - g,
    {
        if text::same_text(groups[g].status.as_str(), known.status.as_str()) && same_option(
            &groups[g].model_id,
            &known.model_id,
        ) && same_option(&groups[g].prompt_version, &known.prompt_version) {
            return g;
        }
        g += 1;
    }
    g
}

/// The outcomes that are the first of their entities.
fn first_outcomes(statuses: &Vec<SummaryStatusBatchInput>) -> (res: Vec<bool>)
    ensures
        res@.len() == statuses@.len(),
        forall|i: int| 0 <= i < res@.len() ==> #[trigger] res@[i] == is_first_outcome(statuses@, i),
{
    let mut open: Vec<bool> = Vec::new();
    let mut i: usize = 0;
    while i < statuses.len()
        invariant
            i <= statuses@.len(),
            open@.len() == i,
            forall|k: int|
                0 <= k < i ==> #[trigger] open@[k] == (statuses@[k].status@
                    != lance_memory::SUMMARY_STATUS_PENDING@),
        decreases statuses@.len() - i,
    {
        open.push(
            !text::same_text(statuses[i].status.as_str(), lance_memory::SUMMARY_STATUS_PENDING),
        );
        i += 1;
    }
    let places = ordering::set_places(&open);
    let ghost order = ordering::places(open@);
    proof {
        ordering::lemma_places(open@);
    }
    let mut ids: Vec<String> = Vec::new();
    let mut n: usize = 0;
    while n < places.len()
        invariant
            n <= places@.len(),
            order == ordering::indexes(places@),
            forall|k: int| 0 <= k < places@.len() ==> #[trigger] places@[k] < statuses@.len(),
            ids@.len() == n,
            forall|k: int|
                0 <= k < n ==> (#[trigger] ids@[k])@ == statuses@[places@[k] as int].entity_id@,
        decreases places@.len() - n,
    {
        let at: usize = places[n];
        ids.push(statuses[at].entity_id.clone());
        n += 1;
    }
    let first = ordering::first_occurrences(&ids);
    let mut flags: Vec<bool> = Vec::new();
    let mut next: usize = 0;
    let mut m: usize = 0;
    while m < statuses.len()
        invariant
            m <= statuses@.len() == open@.len(),
            ids@.len() == places@.len(),
            first@.len() == ids@.len(),
            order == ordering::indexes(places@),
            order == ordering::places(open@),
            forall|k: int|
                0 <= k < open@.len() ==> #[trigger] open@[k] == (statuses@[k].status@
                    != lance_memory::SUMMARY_STATUS_PENDING@),
            forall|k: int|
                0 <= k < order.len() ==> 0 <= #[trigger] order[k] < open@.len() && open@[order[k]],
            forall|k: int| 0 <= k < open@.len() && open@[k] ==> #[trigger] order.contains(k),
            forall|j: int, k: int|
                0 <= j < k < order.len() ==> #[trigger] order[j] < #[trigger] order[k],
            forall|k: int|
                0 <= k < ids@.len() ==> (#[trigger] ids@[k])@
                    == statuses@[places@[k] as int].entity_id@,
            forall|k: int|
                0 <= k < ids@.len() ==> #[trigger] first@[k] == !text::views(ids@).take(
                    k,
                ).contains(ids@[k]@),
            next <= order.len(),
            next <= m,
            forall|k: int| 0 <= k < next ==> #[trigger] order[k] < m,
            forall|k: int| next <= k < order.len() ==> m <= #[trigger] order[k],
            flags@.len() == m,
            forall|k: int|
                0 <= k < m ==> #[trigger] flags@[k] == is_first_outcome(statuses@, k),
        decreases statuses@.len() - m,
    {
        if open[m] {
            proof {
                assert(order.contains(m as int));
                let at = order.index_of(m as int);
                assert(next <= at);
                if next < at {
                    assert(order[next as int] < order[at]);
                }
                assert(order[next as int] == m);
                lemma_first_outcome(
                    statuses@,
                    open@,
                    order,
                    text::views(ids@),
                    next as int,
                );
                assert(text::views(ids@)[next as int] == ids@[next as int]@);
                assert(order[next as int] == places@[next as int]);
            }
            flags.push(first[next]);
            next += 1;
        } else {
            proof {
                assert(next < order.len() ==> order[next as int] != m) by {
                    if next < order.len() {
                        assert(open@[order[next as int]]);
                    }
                }
            }
            flags.push(false);
        }
        m += 1;
    }
    flags
}

proof fn lemma_first_outcome(
    statuses: Seq<SummaryStatusBatchInput>,
    open: Seq<bool>,
    order: Seq<int>,
    ids: Seq<Seq<char>>,
    n: int,
)
    requires
        0 <= n < order.len() == ids.len(),
        open.len() == statuses.len(),
        order == ordering::places(open),
        forall|k: int|
            0 <= k < open.len() ==> #[trigger] open[k] == (statuses[k].status@
                != lance_memory::SUMMARY_STATUS_PENDING@),
        forall|k: int| 0 <= k < ids.len() ==> #[trigger] ids[k] == statuses[order[k]].entity_id@,
    ensures
        is_first_outcome(statuses, order[n]) == !ids.take(n).contains(ids[n]),
{
    ordering::lemma_places(open);
    let i = order[n];
    assert(open[i]);
    if ids.take(n).contains(ids[n]) {
        let k = ids.take(n).index_of(ids[n]);
        assert(ids[k] == ids[n]);
        assert(order[k] < order[n]);
        assert(open[order[k]]);
        assert(statuses[order[k]].entity_id@ == statuses[i].entity_id@);
    } else {
        assert forall|j: int| 0 <= j < i implies (#[trigger] statuses[j]).status@
            == lance_memory::SUMMARY_STATUS_PENDING@ || statuses[j].entity_id@
            != statuses[i].entity_id@ by {
            if open[j] {
                assert(order.contains(j));
                let k = order.index_of(j);
                if k >= n {
                    if k > n {
                        assert(order[n] < order[k]);
                    }
                }
                assert(ids.take(n)[k] == ids[k]);
                assert(ids[k] == statuses[j].entity_id@);
                assert(ids[n] == statuses[i].entity_id@);
            }
        }
    }
}

/// Sorts the outcomes of a batch into groups that are updated together.
/// `event_ids` are the canonical identifiers of the outcomes.
pub fn status_groups(
    statuses: &Vec<SummaryStatusBatchInput>,
    event_ids: &Vec<String>,
    journal: &Vec<JournalEntry>,
) -> (res: Vec<StatusGroup>)
    requires
        event_ids@.len() == statuses@.len(),
    ensures
        sorts_outcomes(
            res@,
            entity_views(statuses@),
            outcome_keys(statuses@, text::views(event_ids@), journal@),
        ),
{
    let ghost events = text::views(event_ids@);
    let ghost keys = outcome_keys(statuses@, events, journal@);
    let first = first_outcomes(statuses);
    let ids = journal_event_ids(journal);
    let known = ordering::find_each(event_ids, &ids);
    let mut groups: Vec<StatusGroup> = Vec::new();
    let mut assigned: Vec<Option<usize>> = Vec::new();
    let mut i: usize = 0;
    while i < statuses.len()
        invariant
            i <= statuses@.len(),
            event_ids@.len() == statuses@.len(),
            first@.len() == statuses@.len(),
            known@.len() == statuses@.len(),
            ids@.len() == journal@.len(),
            text::views(ids@) == journal_ids(journal@),
            events == text::views(event_ids@),
            keys == outcome_keys(statuses@, events, journal@),
            forall|k: int|
                0 <= k < first@.len() ==> #[trigger] first@[k] == is_first_outcome(statuses@, k),
            forall|k: int|
                0 <= k < event_ids@.len() ==> match #[trigger] known@[k] {
                    Some(at) => at < ids@.len() && ordering::found_at(
                        text::views(ids@),
                        event_ids@[k]@,
                    ) == Some(at as int),
                    None => ordering::found_at(text::views(ids@), event_ids@[k]@) is None,
                },
            assigned@.len() == i,
            forall|k: int|
                0 <= k < i ==> match #[trigger] assigned@[k] {
                    Some(g) => g < groups@.len() && keys[k] == Some(groups@[g as int].key()),
                    None => keys[k] is None,
                },
            forall|g: int|
                0 <= g < groups@.len() ==> keys.contains(Some((#[trigger] groups@[g]).key())),
            forall|g: int, h: int|
                0 <= g < h < groups@.len() ==> (#[trigger] groups@[g]).key() != (
                #[trigger] groups@[h]).key(),
        decreases statuses@.len() - i,
    {
        assert(events[i as int] == event_ids@[i as int]@);
        let ghost before = groups@;
        match known[i] {
            Some(at) => {
                assert(known_of(journal@, events[i as int]) == Some(journal@[at as int].status));
                if first[i] && !text::same_text(
                    journal[at].status.status.as_str(),
                    lance_memory::SUMMARY_STATUS_PENDING,
                ) {
                    let g = find_group(&groups, &journal[at].status);
                    assert(keys[i as int] == Some(key_of(journal@[at as int].status)));
                    if g == groups.len() {
                        groups.push(
                            StatusGroup {
                                status: journal[at].status.status.clone(),
                                model_id: lance_memory::duplicate_option(
                                    &journal[at].status.model_id,
                                ),
                                prompt_version: lance_memory::duplicate_option(
                                    &journal[at].status.prompt_version,
                                ),
                                ids: Vec::new(),
                            },
                        );
                        assert(groups@.last().key() == key_of(journal@[at as int].status));
                        assert(keys.contains(keys[i as int]));
                    }
                    assigned.push(Some(g));
                } else {
                    assigned.push(None);
                }
            },
            None => {
                assigned.push(None);
            },
        }
        i += 1;
        assert forall|k: int| 0 <= k < i implies match #[trigger] assigned@[k] {
            Some(g) => g < groups@.len() && keys[k] == Some(groups@[g as int].key()),
            None => keys[k] is None,
        } by {
            if k < i - 1 {
                match assigned@[k] {
                    Some(g) => {
                        assert(groups@[g as int] == before[g as int]);
                    },
                    None => {},
                }
            }
        }
    }
    fill_groups(statuses, &assigned, groups, Ghost(keys))
}

/// Gives each group the entities of its outcomes.
fn fill_groups(
    statuses: &Vec<SummaryStatusBatchInput>,
    assigned: &Vec<Option<usize>>,
    groups: Vec<StatusGroup>,
    Ghost(keys): Ghost<Seq<Option<GroupKey>>>,
) -> (res: Vec<StatusGroup>)
    requires
        keys.len() == statuses@.len(),
        assigned@.len() == statuses@.len(),
        forall|k: int|
            0 <= k < assigned@.len() ==> match #[trigger] assigned@[k] {
                Some(g) => g < groups@.len() && keys[k] == Some(groups@[g as int].key()),
                None => keys[k] is None,
            },
        forall|g: int|
            0 <= g < groups@.len() ==> keys.contains(Some((#[trigger] groups@[g]).key())),
        forall|g: int, h: int|
            0 <= g < h < groups@.len() ==> (#[trigger] groups@[g]).key() != (
            #[trigger] groups@[h]).key(),
    ensures
        sorts_outcomes(res@, entity_views(statuses@), keys),
{
    let ghost entities = entity_views(statuses@);
    let mut filled: Vec<StatusGroup> = Vec::new();
    let mut g: usize = 0;
    while g < groups.len()
        invariant
            g <= groups@.len(),
            entities == entity_views(statuses@),
            keys.len() == statuses@.len(),
            assigned@.len() == statuses@.len(),
            forall|k: int|
                0 <= k < assigned@.len() ==> match #[trigger] assigned@[k] {
                    Some(n) => n < groups@.len() && keys[k] == Some(groups@[n as int].key()),
                    None => keys[k] is None,
                },
            forall|m: int, h: int|
                0 <= m < h < groups@.len() ==> (#[trigger] groups@[m]).key() != (
                #[trigger] groups@[h]).key(),
            filled@.len() == g,
            forall|m: int|
                0 <= m < g ==> (#[trigger] filled@[m]).key() == groups@[m].key() && text::views(
                    filled@[m].ids@,
                ) == ordering::in_order(
                    entities,
                    ordering::places(members(keys, groups@[m].key())),
                ),
        decreases groups@.len() - g,
    {
        let ghost key = groups@[g as int].key();
        let ghost flags = members(keys, key);
        let mut ids: Vec<String> = Vec::new();
        let mut i: usize = 0;
        while i < statuses.len()
            invariant
                i <= statuses@.len(),
                g < groups@.len(),
                entities == entity_views(statuses@),
                key == groups@[g as int].key(),
                flags == members(keys, key),
                keys.len() == statuses@.len(),
                assigned@.len() == statuses@.len(),
                forall|k: int|
                    0 <= k < assigned@.len() ==> match #[trigger] assigned@[k] {
                        Some(n) => n < groups@.len() && keys[k] == Some(groups@[n as int].key()),
                        None => keys[k] is None,
                    },
                forall|m: int, h: int|
                    0 <= m < h < groups@.len() ==> (#[trigger] groups@[m]).key() != (
                    #[trigger] groups@[h]).key(),
                text::views(ids@) == ordering::in_order(
                    entities,
                    ordering::places(flags.take(i as int)),
                ),
            decreases statuses@.len() - i,
        {
            let ghost earlier = ids@;
            let ghost places = ordering::places(flags.take(i as int));
            let mine = match assigned[i] {
                Some(n) => n == g,
                None => false,
            };
            proof {
                assert(mine == flags[i as int]) by {
                    match assigned@[i as int] {
                        Some(n) => {
                            if n < g {
                                assert(groups@[n as int].key() != groups@[g as int].key());
                            } else if g < n {
                                assert(groups@[g as int].key() != groups@[n as int].key());
                            }
                        },
                        None => {},
                    }
                }
            }
            if mine {
                ids.push(statuses[i].entity_id.clone());
                assert(text::views(ids@) == text::views(earlier).push(entities[i as int]));
                assert(ordering::in_order(entities, places.push(i as int)) == ordering::in_order(
                    entities,
                    places,
                ).push(entities[i as int]));
            }
            i += 1;
            assert(flags.take(i as int).drop_last() == flags.take(i - 1));
            assert(flags.take(i as int).last() == flags[i - 1]);
        }
        assert(flags.take(i as int) == flags);
        filled.push(
            StatusGroup {
                status: groups[g].status.clone(),
                model_id: lance_memory::duplicate_option(&groups[g].model_id),
                prompt_version: lance_memory::duplicate_option(&groups[g].prompt_version),
                ids,
            },
        );
        g += 1;
    }
    proof {
        assert forall|i: int|
            0 <= i < keys.len() && (#[trigger] keys[i]) is Some implies exists|m: int|
            0 <= m < filled@.len() && (#[trigger] filled@[m]).key() == keys[i]->0 by {
            let n = assigned@[i]->0;
            assert(filled@[n as int].key() == keys[i]->0);
        }
        assert forall|m: int, h: int| 0 <= m < h < filled@.len() implies (
        #[trigger] filled@[m]).key() != (#[trigger] filled@[h]).key() by {
            assert(groups@[m].key() != groups@[h].key());
        }
    }
    filled
}

/// The update of a group of rows. Only pending rows are changed.
pub open spec fn group_update(ids: Seq<Seq<char>>, key: GroupKey) -> UpdateModel {
    UpdateModel {
        condition: lance_memory::ids_condition(ids) + " AND "@ + lance_memory::status_condition(
            Some(lance_memory::SUMMARY_STATUS_PENDING@),
        ),
        columns: seq![quoted_column("summary_status"@, key.status)] + optional_column(
            "summary_model"@,
            key.model_id,
        ) + optional_column("summary_prompt_version"@, key.prompt_version),
        vector: None,
    }
}

/// The update of a group of rows, where it has any.
pub fn update_of_group(group: &StatusGroup) -> (res: Option<TableUpdate>)
    ensures
        group.ids@.len() == 0 ==> res is None,
        group.ids@.len() > 0 ==> res is Some && res->0@ == group_update(
            text::views(group.ids@),
            group.key(),
        ),
{
    match lance_memory::ids_predicate(&group.ids) {
        Some(list) => {
            let mut condition = list;
            let pending = Some(lance_memory::SUMMARY_STATUS_PENDING.to_owned());
            text::append_text(&mut condition, " AND ");
            text::append_text(&mut condition, lance_memory::status_predicate(&pending).as_str());
            let mut columns: Vec<ColumnValue> = Vec::new();
            push_column(&mut columns, "summary_status", group.status.as_str());
            assert(value_views(columns@) == seq![
                quoted_column("summary_status"@, group.status@),
            ]);
            push_optional(&mut columns, "summary_model", &group.model_id);
            push_optional(&mut columns, "summary_prompt_version", &group.prompt_version);
            Some(TableUpdate { condition, columns, vector: None })
        },
        None => None,
    }
}

/// What the journal says of a summary comes before what the table says: with a
/// status and a contract in the journal, the row does not matter.
pub proof fn law_the_journal_comes_first(
    a: StoredMemory,
    b: StoredMemory,
    status: Seq<char>,
    version: Seq<char>,
)
    ensures
        snapshot_candidate(a, SummaryAdmission::Eligible, Some(status), Some(version))
            == snapshot_candidate(b, SummaryAdmission::Eligible, Some(status), Some(version)),
        status == "pending"@ || status == "legacy"@ || status == "completed"@
            ==> snapshot_candidate(a, SummaryAdmission::Eligible, Some(status), Some(version)),
        status == "skipped"@ || status == "fallback"@ || status == "error"@ ==> snapshot_candidate(
            a,
            SummaryAdmission::Eligible,
            Some(status),
            Some(version),
        ) == (version != "v3"@),
        status == "deleted"@ ==> !snapshot_candidate(
            a,
            SummaryAdmission::Eligible,
            Some(status),
            Some(version),
        ),
{
    lance_memory::lemma_statuses_differ();
}

/// Without a journal the row decides: one that has no status, waits, is of an
/// older kind or is completed takes part, and one that ended only where it was
/// made under another contract.
pub proof fn law_rows_without_a_journal_decide_themselves(row: StoredMemory)
    ensures
        row.summary_status is None ==> snapshot_candidate(
            row,
            SummaryAdmission::Eligible,
            None,
            None,
        ),
        text::opt_view(row.summary_status) == Some("pending"@) || text::opt_view(
            row.summary_status,
        ) == Some("legacy"@) || text::opt_view(row.summary_status) == Some("completed"@)
            ==> snapshot_candidate(row, SummaryAdmission::Eligible, None, None),
        text::opt_view(row.summary_status) == Some("skipped"@) || text::opt_view(
            row.summary_status,
        ) == Some("fallback"@) || text::opt_view(row.summary_status) == Some("error"@)
            ==> snapshot_candidate(row, SummaryAdmission::Eligible, None, None) == (
        row.summary_prompt_version is Some && text::opt_view(row.summary_prompt_version) != Some(
            "v3"@,
        )),
        text::opt_view(row.summary_status) == Some("deleted"@) ==> !snapshot_candidate(
            row,
            SummaryAdmission::Eligible,
            None,
            None,
        ),
{
    lance_memory::lemma_statuses_differ();
}

/// The first entry of the journal for an event is the one that counts.
pub proof fn law_the_first_entry_of_an_event_counts(
    journal: Seq<JournalEntry>,
    event_id: Seq<char>,
    at: int,
)
    ensures
        0 <= at < journal.len() && journal[at].event_id@ == event_id && (forall|j: int|
            0 <= j < at ==> (#[trigger] journal[j]).event_id@ != event_id) ==> known_of(
            journal,
            event_id,
        ) == Some(journal[at].status),
        (forall|j: int|
            0 <= j < journal.len() ==> (#[trigger] journal[j]).event_id@ != event_id) ==> known_of(
            journal,
            event_id,
        ) is None,
{
    let ids = journal_ids(journal);
    ordering::lemma_found(ids, event_id);
    assert(forall|j: int|
        0 <= j < journal.len() ==> #[trigger] ids[j] == journal[j].event_id@);
    if 0 <= at < journal.len() && journal[at].event_id@ == event_id && (forall|j: int|
        0 <= j < at ==> (#[trigger] journal[j]).event_id@ != event_id) {
        ordering::lemma_found_at(ids, event_id, at);
    }
    if forall|j: int| 0 <= j < journal.len() ==> (#[trigger] journal[j]).event_id@ != event_id {
        if let Some(found) = ordering::found_at(ids, event_id) {
            assert(ids[found] == journal[found].event_id@);
        }
    }
}

/// An eligible row without a status, of which neither the journal nor the
/// facts know anything, is queued, and its place is among those handed out;
/// a row of a kind that is not summarised never is.
pub proof fn law_new_rows_are_queued(
    facts: Seq<FactEntry>,
    journal: Seq<JournalEntry>,
    event_ids: Seq<Seq<char>>,
    rows: Seq<StoredMemory>,
    admissions: Seq<SummaryAdmission>,
    i: int,
)
    requires
        0 <= i < rows.len(),
        event_ids.len() == rows.len(),
        admissions.len() == rows.len(),
    ensures
        admissions[i] == SummaryAdmission::Eligible && (rows[i].summary_status is None
            || text::opt_view(rows[i].summary_status) == Some("pending"@)) && (forall|j: int|
            0 <= j < journal.len() ==> (#[trigger] journal[j]).event_id@ != event_ids[i]) && (
        forall|j: int| 0 <= j < facts.len() ==> (#[trigger] facts[j]).event_id@ != event_ids[i])
            ==> ordering::places(queued(facts, journal, event_ids, rows, admissions)).contains(i),
        admissions[i] != SummaryAdmission::Eligible ==> !ordering::places(
            queued(facts, journal, event_ids, rows, admissions),
        ).contains(i),
{
    law_the_first_entry_of_an_event_counts(journal, event_ids[i], 0);
    law_rows_without_a_journal_decide_themselves(rows[i]);
    lance_memory::lemma_statuses_differ();
    let flags = queued(facts, journal, event_ids, rows, admissions);
    ordering::lemma_places(flags);
    assert(flags[i] == is_queued(facts, journal, event_ids[i], rows[i], admissions[i]));
    if ordering::places(flags).contains(i) {
        let k = ordering::places(flags).index_of(i);
        assert(flags[ordering::places(flags)[k]]);
    }
}

/// A row with a fact is queued again only where one of its facts can be
/// repaired; only facts of summaries count.
pub proof fn law_facts_hold_a_row_back(
    facts: Seq<FactEntry>,
    journal: Seq<JournalEntry>,
    event_id: Seq<char>,
    row: StoredMemory,
    i: int,
)
    requires
        0 <= i < facts.len(),
        facts[i].event_id@ == event_id,
        facts[i].key@.len() >= 8,
        facts[i].key@.take(8) == "summary-"@,
        forall|j: int|
            0 <= j < facts.len() && (#[trigger] facts[j]).event_id@ == event_id
                ==> !facts[j].repairable,
    ensures
        !is_queued(facts, journal, event_id, row, SummaryAdmission::Eligible),
{
    reveal_strlit("summary-");
    assert(facts[i].key@.subrange(0, 8) == facts[i].key@.take(8));
    assert(is_summary_fact(facts[i]));
    assert(has_fact(facts, event_id));
}

/// Rows are queued in chunks of no more than two hundred and fifty-six.
pub proof fn law_chunks_have_a_size(state: QueueState)
    requires
        0 <= state.next <= state.rows.len(),
    ensures
        state.rows.len() - state.next <= 256 ==> state.chunk_end() == state.rows.len(),
        state.rows.len() - state.next > 256 ==> state.chunk_end() == state.next + 256,
        state.done() == (state.next == state.rows.len()),
        state.chunk() == state.rows.subrange(state.next, state.chunk_end()),
{
}

/// Every status that is written names its entity, the model and the contract
/// in force: declined rows are skipped, and the others fall back with the
/// reason that is known, or that the model failed.
pub proof fn law_statuses_name_the_contract(
    ids: Seq<Seq<char>>,
    fallbacks: Seq<FallbackReason>,
    i: int,
)
    ensures
        declined_statuses(ids).len() == ids.len(),
        0 <= i < ids.len() ==> declined_statuses(ids)[i] == (StatusModel {
            entity_id: ids[i],
            status: "skipped"@,
            model_id: Some("gemma-3-1b-it-Q4_K_S.gguf"@),
            prompt_version: Some("v3"@),
            attempt_id: None,
            reason: Some("model_declined"@),
        }),
        unexplained(ids).len() == ids.len(),
        0 <= i < ids.len() ==> unexplained(ids)[i] == (StatusModel {
            entity_id: ids[i],
            status: "fallback"@,
            model_id: Some("gemma-3-1b-it-Q4_K_S.gguf"@),
            prompt_version: Some("v3"@),
            attempt_id: None,
            reason: Some("inference_failed"@),
        }),
        fallback_statuses(fallbacks).len() == fallbacks.len(),
        0 <= i < fallbacks.len() ==> fallback_statuses(fallbacks)[i] == (StatusModel {
            entity_id: fallbacks[i].entity_id@,
            status: "fallback"@,
            model_id: Some("gemma-3-1b-it-Q4_K_S.gguf"@),
            prompt_version: Some("v3"@),
            attempt_id: None,
            reason: Some(fallbacks[i].reason@),
        }),
{
}

/// A row that is queued waits under a new attempt, for the model and the
/// contract in force.
pub proof fn law_queued_rows_wait(status: StatusModel, id: Seq<char>)
    requires
        queues(status, id),
    ensures
        status.entity_id == id,
        status.status == "pending"@,
        status.model_id == Some("gemma-3-1b-it-Q4_K_S.gguf"@),
        status.prompt_version == Some("v3"@),
        status.reason is None,
        status.attempt_id is Some,
        status.attempt_id->0.len() == "attempt"@.len() + 33,
{
}

/// An outcome is counted as found exactly where it is of the kind that is
/// counted and no status of that kind was handed in for the same entity.
pub proof fn law_found_outcomes_are_counted(
    terminal: Seq<SummaryStatusBatchInput>,
    requested: Seq<SummaryStatusBatchInput>,
    i: int,
)
    requires
        0 <= i < terminal.len(),
    ensures
        ordering::places(unrequested(terminal, requested, true)).contains(i) == ((
        terminal[i].status@ == "fallback"@ || terminal[i].status@ == "error"@) && forall|j: int|
            0 <= j < requested.len() && (requested[j].status@ == "fallback"@ || requested[j].status@
                == "error"@) ==> (#[trigger] requested[j]).entity_id@ != terminal[i].entity_id@),
        ordering::places(unrequested(terminal, requested, false)).contains(i) == (
        terminal[i].status@ == "skipped"@ && forall|j: int|
            0 <= j < requested.len() && requested[j].status@ == "skipped"@ ==> (
            #[trigger] requested[j]).entity_id@ != terminal[i].entity_id@),
        ordering::places(of_kind(terminal, true)).contains(i) == (terminal[i].status@
            == "fallback"@ || terminal[i].status@ == "error"@),
        ordering::places(of_kind(terminal, false)).contains(i) == (terminal[i].status@
            == "skipped"@),
{
    let id = terminal[i].entity_id@;
    ordering::law_set_places_are_listed(unrequested(terminal, requested, true), i);
    ordering::law_set_places_are_listed(unrequested(terminal, requested, false), i);
    ordering::law_set_places_are_listed(of_kind(terminal, true), i);
    ordering::law_set_places_are_listed(of_kind(terminal, false), i);
    assert(unrequested(terminal, requested, true)[i] == (has_kind(terminal[i].status@, true)
        && !is_requested(requested, true, id)));
    assert(unrequested(terminal, requested, false)[i] == (has_kind(terminal[i].status@, false)
        && !is_requested(requested, false, id)));
}

/// An outcome is shown as excluded exactly where it has one of the four
/// reasons, which is shown with it; those of the privacy policy are counted.
pub proof fn law_exclusions_have_a_reason(terminal: Seq<SummaryStatusBatchInput>, i: int)
    requires
        0 <= i < terminal.len(),
    ensures
        ({
            let reason = text::opt_view(terminal[i].reason);
            &&& ordering::places(excluded(terminal)).contains(i) == (reason == Some(
                "policy_excluded"@,
            ) || reason == Some("empty_summary"@) || reason == Some("invalid_embedding"@)
                || reason == Some("fact_validation_failed"@))
            &&& ordering::places(policy_excluded(terminal)).contains(i) == (reason == Some(
                "policy_excluded"@,
            ))
        }),
{
    ordering::law_set_places_are_listed(excluded(terminal), i);
    ordering::law_set_places_are_listed(policy_excluded(terminal), i);
}

/// What is shown for an exclusion explains it and ends with its code.
pub proof fn law_exclusions_are_explained(reason: Seq<char>)
    ensures
        reason == "policy_excluded"@ ==> exclusion_text(reason)
            == "プライバシーポリシーに抵触したため永続化対象外"@ + " ("@ + reason + ")"@,
        reason == "empty_summary"@ ==> exclusion_text(reason)
            == "要約が空だったため永続化対象外"@ + " ("@ + reason + ")"@,
        reason == "invalid_embedding"@ ==> exclusion_text(reason)
            == "埋め込みベクトルが不正なため永続化対象外"@ + " ("@ + reason + ")"@,
        reason == "fact_validation_failed"@ ==> exclusion_text(reason)
            == "事実の検証に失敗したため永続化対象外"@ + " ("@ + reason + ")"@,
{
    reveal_strlit("policy_excluded");
    reveal_strlit("empty_summary");
    reveal_strlit("invalid_embedding");
    reveal_strlit("fact_validation_failed");
    assert("policy_excluded"@.len() == 15 && "empty_summary"@.len() == 13
        && "invalid_embedding"@.len() == 17 && "fact_validation_failed"@.len() == 22);
}

/// A finished summary is written to its row and no other, and only while the
/// row waits: the text, the status, the model and the contract that the
/// journal names, and the vector where there is one.
pub proof fn law_finished_summaries_are_written(
    id: Seq<char>,
    summary: Seq<char>,
    model_id: Seq<char>,
    version: Seq<char>,
    embedding: Option<u64>,
)
    ensures
        ({
            let update = summary_update(id, summary, Some(model_id), Some(version), embedding);
            let bare = summary_update(id, summary, None, None, embedding);
            &&& update.condition == "id = "@ + lance_memory::sql_quoted(id) + " AND "@
                + "summary_status = "@ + lance_memory::sql_quoted("pending"@)
            &&& update.vector == embedding
            &&& update.columns[0] == (ColumnValueModel {
                column: "summary"@,
                value: lance_memory::sql_quoted(summary),
            })
            &&& update.columns[1] == (ColumnValueModel {
                column: "summary_status"@,
                value: lance_memory::sql_quoted("completed"@),
            })
            &&& update.columns[2] == (ColumnValueModel {
                column: "summary_model"@,
                value: lance_memory::sql_quoted(model_id),
            })
            &&& update.columns[3] == (ColumnValueModel {
                column: "summary_prompt_version"@,
                value: lance_memory::sql_quoted(version),
            })
            &&& embedding is Some ==> update.columns.len() == 5 && update.columns[4] == (
            ColumnValueModel {
                column: "vector_source"@,
                value: lance_memory::sql_quoted("summary"@),
            })
            &&& embedding is None ==> update.columns.len() == 4
            &&& bare.columns.len() == update.columns.len() - 2
        }),
{
    lance_memory::law_conditions_name_the_row_and_its_status(id, "pending"@);
}

/// A summary is written exactly where it was stored and the journal has it as
/// completed.
pub proof fn law_only_stored_summaries_are_written(
    inputs: Seq<SummaryBatchInput>,
    event_ids: Seq<Seq<char>>,
    completed_ids: Seq<Seq<char>>,
    journal: Seq<JournalEntry>,
    i: int,
)
    requires
        0 <= i < inputs.len(),
    ensures
        ordering::places(completed(inputs, event_ids, completed_ids, journal)).contains(i) == (
        completed_ids.contains(inputs[i].entity_id@) && known_of(journal, event_ids[i]) is Some
            && known_of(journal, event_ids[i])->0.status@ == "completed"@),
{
    ordering::law_set_places_are_listed(completed(inputs, event_ids, completed_ids, journal), i);
}

/// Of the outcomes of one entity the first that is not a wait counts, and the
/// journal says what is written: nothing as long as it waits too, or knows
/// nothing of the event.
pub proof fn law_the_journal_says_what_is_written(
    statuses: Seq<SummaryStatusBatchInput>,
    event_ids: Seq<Seq<char>>,
    journal: Seq<JournalEntry>,
    i: int,
)
    requires
        0 <= i < statuses.len(),
    ensures
        ({
            let key = outcome_keys(statuses, event_ids, journal)[i];
            let known = known_of(journal, event_ids[i]);
            &&& statuses[i].status@ == "pending"@ ==> key is None
            &&& known is None || known->0.status@ == "pending"@ ==> key is None
            &&& forall|j: int|
                0 <= j < i && (#[trigger] statuses[j]).entity_id@ == statuses[i].entity_id@
                    && statuses[j].status@ != "pending"@ ==> key is None
            &&& statuses[i].status@ != "pending"@ && known is Some && known->0.status@
                != "pending"@ && (forall|j: int|
                0 <= j < i ==> (#[trigger] statuses[j]).status@ == "pending"@
                    || statuses[j].entity_id@ != statuses[i].entity_id@) ==> key == Some(
                GroupKey {
                    status: known->0.status@,
                    model_id: text::opt_view(known->0.model_id),
                    prompt_version: text::opt_view(known->0.prompt_version),
                },
            )
        }),
{
}

/// The rows of one outcome are written at once, and only while they wait.
pub proof fn law_outcomes_are_written_to_waiting_rows(ids: Seq<Seq<char>>, key: GroupKey)
    ensures
        group_update(ids, key).condition == lance_memory::ids_condition(ids) + " AND "@ + (
        "summary_status = "@ + lance_memory::sql_quoted("pending"@)),
        group_update(ids, key).columns[0] == (ColumnValueModel {
            column: "summary_status"@,
            value: lance_memory::sql_quoted(key.status),
        }),
        group_update(ids, key).vector is None,
        key.model_id matches Some(model_id) ==> group_update(ids, key).columns[1] == (
        ColumnValueModel {
            column: "summary_model"@,
            value: lance_memory::sql_quoted(model_id),
        }),
        key.prompt_version matches Some(version) ==> group_update(ids, key).columns.last() == (
        ColumnValueModel {
            column: "summary_prompt_version"@,
            value: lance_memory::sql_quoted(version),
        }),
        key.model_id is None && key.prompt_version is None ==> group_update(
            ids,
            key,
        ).columns.len() == 1,
{
}

/// The numbers of a result agree with what the journal did: everything that
/// was completed is counted, every row that was not stored is listed under its
/// own name, and nothing else is listed.
pub proof fn law_results_tell_what_was_done(
    result: SummaryBackfillApplyResult,
    requested: Seq<SummaryStatusBatchInput>,
    outcome: BatchOutcome,
    i: int,
    k: int,
)
    requires
        tells_outcome(result, requested, outcome),
        0 <= i < outcome.terminal_statuses@.len(),
    ensures
        result.persisted == outcome.completed_ids@.len(),
        result.terminal_failed <= outcome.terminal_statuses@.len(),
        result.terminal_skipped <= outcome.terminal_statuses@.len(),
        ({
            let status = outcome.terminal_statuses@[i];
            &&& status.reason is Some && is_exclusion_reason(status.reason->0@) ==> exists|n: int|
                0 <= n < result.exclusions@.len() && (#[trigger] result.exclusions@[n]).entity_id@
                    == status.entity_id@ && result.exclusions@[n].reason@ == exclusion_text(
                    status.reason->0@,
                )
            &&& has_kind(status.status@, true) && !is_requested(
                requested,
                true,
                status.entity_id@,
            ) ==> result.terminal_failed > 0
            &&& has_kind(status.status@, false) && !is_requested(
                requested,
                false,
                status.entity_id@,
            ) ==> result.terminal_skipped > 0
            &&& status.reason is Some && status.reason->0@ == "policy_excluded"@
                ==> result.policy_excluded > 0
        }),
        0 <= k < result.exclusions@.len() ==> exists|n: int|
            0 <= n < outcome.terminal_statuses@.len() && (
            #[trigger] outcome.terminal_statuses@[n]).entity_id@ == result.exclusions@[k].entity_id@
                && outcome.terminal_statuses@[n].reason is Some,
{
    let terminal = outcome.terminal_statuses@;
    let listed = ordering::places(excluded(terminal));
    let failed = unrequested(terminal, requested, true);
    let skipped = unrequested(terminal, requested, false);
    ordering::lemma_places(excluded(terminal));
    ordering::lemma_places(failed);
    ordering::lemma_places(skipped);
    ordering::lemma_places(policy_excluded(terminal));
    ordering::law_set_places_are_listed(excluded(terminal), i);
    ordering::law_set_places_are_listed(failed, i);
    ordering::law_set_places_are_listed(skipped, i);
    ordering::law_set_places_are_listed(policy_excluded(terminal), i);
    lemma_no_more_places(failed);
    lemma_no_more_places(skipped);
    if excluded(terminal)[i] {
        let n = choose|n: int| 0 <= n < listed.len() && listed[n] == i;
        assert(result.exclusions@[n].entity_id@ == terminal[i].entity_id@);
    }
    if 0 <= k < result.exclusions@.len() {
        let n = listed[k];
        assert(listed.contains(n));
        assert(excluded(terminal)[n]);
        assert(terminal[n].entity_id@ == result.exclusions@[k].entity_id@);
    }
}

proof fn lemma_no_more_places(flags: Seq<bool>)
    ensures
        ordering::places(flags).len() <= flags.len(),
    decreases flags.len(),
{
    if flags.len() > 0 {
        lemma_no_more_places(flags.drop_last());
    }
}

/// Counts are added as numbers are, up to the greatest that can be written.
pub proof fn law_counts_are_added(a: usize, b: usize)
    ensures
        a + b <= usize::MAX ==> capped_sum(a as int, b as int) == a + b,
        a + b > usize::MAX ==> capped_sum(a as int, b as int) == usize::MAX,
{
}

/// Every outcome that reaches the table stands in one group alone, the one it
/// has its status in common with, and every name in a group is that of such an
/// outcome.
pub proof fn law_outcomes_stand_in_one_group(
    groups: Seq<StatusGroup>,
    entities: Seq<Seq<char>>,
    keys: Seq<Option<GroupKey>>,
    i: int,
    g: int,
    k: int,
)
    requires
        sorts_outcomes(groups, entities, keys),
        entities.len() == keys.len(),
        0 <= i < keys.len(),
    ensures
        keys[i] is Some ==> exists|h: int|
            0 <= h < groups.len() && (#[trigger] groups[h]).key() == keys[i]->0 && text::views(
                groups[h].ids@,
            ).contains(entities[i]),
        0 <= g < groups.len() && 0 <= k < groups[g].ids@.len() ==> exists|n: int|
            0 <= n < entities.len() && (#[trigger] entities[n]) == groups[g].ids@[k]@ && keys[n]
                == Some(groups[g].key()),
        forall|a: int, b: int|
            0 <= a < groups.len() && 0 <= b < groups.len() && (#[trigger] groups[a]).key() == (
            #[trigger] groups[b]).key() ==> a == b,
{
    if keys[i] is Some {
        let h = choose|h: int| 0 <= h < groups.len() && (#[trigger] groups[h]).key() == keys[i]->0;
        let flags = members(keys, groups[h].key());
        let order = ordering::places(flags);
        ordering::law_set_places_are_listed(flags, i);
        let n = choose|n: int| 0 <= n < order.len() && order[n] == i;
        assert(ordering::in_order(entities, order)[n] == entities[i]);
        assert(text::views(groups[h].ids@).contains(entities[i]));
    }
    if 0 <= g < groups.len() && 0 <= k < groups[g].ids@.len() {
        let flags = members(keys, groups[g].key());
        let order = ordering::places(flags);
        ordering::lemma_places(flags);
        let ids = text::views(groups[g].ids@);
        assert(ids == ordering::in_order(entities, order));
        assert(ids.len() == groups[g].ids@.len() && ids.len() == order.len());
        assert(ids[k] == groups[g].ids@[k]@);
        let n = order[k];
        assert(order.contains(n));
        assert(flags[n]);
        assert(entities[n] == groups[g].ids@[k]@);
    }
    assert forall|a: int, b: int|
        0 <= a < groups.len() && 0 <= b < groups.len() && (#[trigger] groups[a]).key() == (
        #[trigger] groups[b]).key() implies a == b by {
        if a < b {
            assert(groups[a].key() != groups[b].key());
        } else if b < a {
            assert(groups[b].key() != groups[a].key());
        }
    }
}

/// The condition for a queued row is that of the row, in brackets, so that it
/// can stand beside others.
pub proof fn law_conditions_stand_in_brackets(rows: Seq<QueuedRow>, i: int)
    requires
        0 <= i < rows.len(),
    ensures
        row_guards(rows).len() == rows.len(),
        ({
            let condition = row_guards(rows)[i];
            &&& condition.len() >= 2
            &&& condition[0] == '('
            &&& condition.last() == ')'
            &&& condition.subrange(1, condition.len() - 1) == lance_memory::guarded_condition(
                rows[i].id@,
                text::opt_view(rows[i].status),
            )
        }),
{
    reveal_strlit("(");
    reveal_strlit(")");
    let inner = lance_memory::guarded_condition(rows[i].id@, text::opt_view(rows[i].status));
    let condition = row_guards(rows)[i];
    assert(condition == "("@ + inner + ")"@);
    assert(condition.subrange(1, condition.len() - 1) == inner);
}

/// A row that is read again counts as waiting where it says so, and only there.
pub proof fn law_waiting_rows_say_so(rows: Seq<StoredMemory>, i: int)
    requires
        0 <= i < rows.len(),
    ensures
        pending_rows(rows).len() == rows.len(),
        pending_rows(rows)[i] == (rows[i].summary_status is Some && rows[i].summary_status->0@
            == "pending"@),
{
}

} // verus!
