//! Why a summary failed, and how the reason stands in an error text.
use vstd::prelude::*;

use crate::text;

verus! {

/// Why a summary failed.
#[derive(Debug, Clone, Copy, PartialEq, Eq, Structural)]
pub enum SummaryFailureReason {
    InvalidModelOutput,
    MetadataEcho,
    UngroundedSummary,
    EmptySource,
    SourceTooLong,
    SummaryRuntimeTimeout,
    SummaryRuntimeFailed,
    SummaryQueueFailed,
    InferenceFailed,
}

impl SummaryFailureReason {
    /// The stable code of the reason.
    pub open spec fn code_text(self) -> Seq<char> {
        match self {
            SummaryFailureReason::InvalidModelOutput => "invalid_model_output"@,
            SummaryFailureReason::MetadataEcho => "metadata_echo"@,
            SummaryFailureReason::UngroundedSummary => "ungrounded_summary"@,
            SummaryFailureReason::EmptySource => "empty_source"@,
            SummaryFailureReason::SourceTooLong => "source_too_long"@,
            SummaryFailureReason::SummaryRuntimeTimeout => "summary_runtime_timeout"@,
            SummaryFailureReason::SummaryRuntimeFailed => "summary_runtime_failed"@,
            SummaryFailureReason::SummaryQueueFailed => "summary_queue_failed"@,
            SummaryFailureReason::InferenceFailed => "inference_failed"@,
        }
    }

    /// Whether the model broke the output contract, while the runtime is well.
    pub open spec fn breaks_contract(self) -> bool {
        self == SummaryFailureReason::InvalidModelOutput || self
            == SummaryFailureReason::MetadataEcho || self
            == SummaryFailureReason::UngroundedSummary
    }

    /// The stable code of the reason.
    pub fn code(self) -> (res: &'static str)
        ensures
            res@ == self.code_text(),
    {
        match self {
            SummaryFailureReason::InvalidModelOutput => "invalid_model_output",
            SummaryFailureReason::MetadataEcho => "metadata_echo",
            SummaryFailureReason::UngroundedSummary => "ungrounded_summary",
            SummaryFailureReason::EmptySource => "empty_source",
            SummaryFailureReason::SourceTooLong => "source_too_long",
            SummaryFailureReason::SummaryRuntimeTimeout => "summary_runtime_timeout",
            SummaryFailureReason::SummaryRuntimeFailed => "summary_runtime_failed",
            SummaryFailureReason::SummaryQueueFailed => "summary_queue_failed",
            SummaryFailureReason::InferenceFailed => "inference_failed",
        }
    }

    /// Tells whether the model broke the output contract.
    pub fn is_contract_violation(self) -> (res: bool)
        ensures
            res == self.breaks_contract(),
    {
        match self {
            SummaryFailureReason::InvalidModelOutput => true,
            SummaryFailureReason::MetadataEcho => true,
            SummaryFailureReason::UngroundedSummary => true,
            _ => false,
        }
    }
}

/// The error text of a reason.
pub open spec fn reason_text(reason: SummaryFailureReason, detail: Seq<char>) -> Seq<char> {
    reason.code_text() + ": "@ + detail
}

/// The error text of a broken output contract.
pub open spec fn violation_text(reason: SummaryFailureReason, detail: Seq<char>) -> Seq<char> {
    "contract violation: "@ + reason.code_text() + " ("@ + detail + ")"@
}

/// Writes the error text of a reason.
pub fn format_reason(reason: SummaryFailureReason, detail: &str) -> (res: String)
    ensures
        res@ == reason_text(reason, detail@),
{
    let mut message = reason.code().to_owned();
    text::append_text(&mut message, ": ");
    text::append_text(&mut message, detail);
    message
}

/// Writes the error text of a broken output contract.
pub fn format_contract_violation(reason: SummaryFailureReason, detail: &str) -> (res: String)
    ensures
        res@ == violation_text(reason, detail@),
{
    let mut message = "contract violation: ".to_owned();
    text::append_text(&mut message, reason.code());
    text::append_text(&mut message, " (");
    text::append_text(&mut message, detail);
    text::append_text(&mut message, ")");
    message
}

/// The part of an error text that begins with the code, if it has one.
pub open spec fn coded_part(error: Seq<char>) -> Seq<char> {
    if text::begins_with(error, "contract violation: "@) {
        error.skip(20)
    } else {
        error
    }
}

/// The reason whose code a text begins with.
pub open spec fn coded_reason(s: Seq<char>) -> Option<SummaryFailureReason> {
    if text::begins_with(s, SummaryFailureReason::InvalidModelOutput.code_text()) {
        Some(SummaryFailureReason::InvalidModelOutput)
    } else if text::begins_with(s, SummaryFailureReason::MetadataEcho.code_text()) {
        Some(SummaryFailureReason::MetadataEcho)
    } else if text::begins_with(s, SummaryFailureReason::UngroundedSummary.code_text()) {
        Some(SummaryFailureReason::UngroundedSummary)
    } else if text::begins_with(s, SummaryFailureReason::EmptySource.code_text()) {
        Some(SummaryFailureReason::EmptySource)
    } else if text::begins_with(s, SummaryFailureReason::SourceTooLong.code_text()) {
        Some(SummaryFailureReason::SourceTooLong)
    } else if text::begins_with(s, SummaryFailureReason::SummaryRuntimeTimeout.code_text()) {
        Some(SummaryFailureReason::SummaryRuntimeTimeout)
    } else if text::begins_with(s, SummaryFailureReason::SummaryRuntimeFailed.code_text()) {
        Some(SummaryFailureReason::SummaryRuntimeFailed)
    } else if text::begins_with(s, SummaryFailureReason::SummaryQueueFailed.code_text()) {
        Some(SummaryFailureReason::SummaryQueueFailed)
    } else if text::begins_with(s, SummaryFailureReason::InferenceFailed.code_text()) {
        Some(SummaryFailureReason::InferenceFailed)
    } else {
        None
    }
}

/// The reason behind an error text without a code.
pub open spec fn uncoded_reason(error: Seq<char>) -> SummaryFailureReason {
    if text::contains_text(error, "not JSON"@) {
        SummaryFailureReason::InvalidModelOutput
    } else if text::contains_text(error, "timeout"@) || text::contains_text(error, "timed out"@) {
        SummaryFailureReason::SummaryRuntimeTimeout
    } else if text::begins_with(error, "summary request failed"@) {
        SummaryFailureReason::SummaryRuntimeFailed
    } else {
        SummaryFailureReason::InferenceFailed
    }
}

/// The reason that an error text gives.
pub open spec fn reason_of(error: Seq<char>) -> SummaryFailureReason {
    match coded_reason(coded_part(error)) {
        Some(reason) => reason,
        None => uncoded_reason(error),
    }
}

fn read_coded_reason(s: &str) -> (res: Option<SummaryFailureReason>)
    ensures
        res == coded_reason(s@),
{
    if text::text_begins_with(s, "invalid_model_output") {
        Some(SummaryFailureReason::InvalidModelOutput)
    } else if text::text_begins_with(s, "metadata_echo") {
        Some(SummaryFailureReason::MetadataEcho)
    } else if text::text_begins_with(s, "ungrounded_summary") {
        Some(SummaryFailureReason::UngroundedSummary)
    } else if text::text_begins_with(s, "empty_source") {
        Some(SummaryFailureReason::EmptySource)
    } else if text::text_begins_with(s, "source_too_long") {
        Some(SummaryFailureReason::SourceTooLong)
    } else if text::text_begins_with(s, "summary_runtime_timeout") {
        Some(SummaryFailureReason::SummaryRuntimeTimeout)
    } else if text::text_begins_with(s, "summary_runtime_failed") {
        Some(SummaryFailureReason::SummaryRuntimeFailed)
    } else if text::text_begins_with(s, "summary_queue_failed") {
        Some(SummaryFailureReason::SummaryQueueFailed)
    } else if text::text_begins_with(s, "inference_failed") {
        Some(SummaryFailureReason::InferenceFailed)
    } else {
        None
    }
}

/// Reads the reason from an error text.
pub fn reason_from_error(error: &str) -> (res: SummaryFailureReason)
    ensures
        res == reason_of(error@),
{
    proof {
        reveal_strlit("contract violation: ");
    }
    let coded = if text::text_begins_with(error, "contract violation: ") {
        let chars = text::chars_of(error);
        let total: usize = chars.len();
        assert(error@.skip(20) == error@.subrange(20, total as int));
        text::string_of_range(&chars, 20, total)
    } else {
        error.to_owned()
    };
    match read_coded_reason(coded.as_str()) {
        Some(reason) => reason,
        None => {
            if text::text_contains(error, "not JSON") {
                SummaryFailureReason::InvalidModelOutput
            } else if text::text_contains(error, "timeout") || text::text_contains(
                error,
                "timed out",
            ) {
                SummaryFailureReason::SummaryRuntimeTimeout
            } else if text::text_begins_with(error, "summary request failed") {
                SummaryFailureReason::SummaryRuntimeFailed
            } else {
                SummaryFailureReason::InferenceFailed
            }
        },
    }
}

/// The place at which the codes of two reasons differ.
spec fn difference(a: SummaryFailureReason, b: SummaryFailureReason) -> int {
    let pair_i = SummaryFailureReason::InvalidModelOutput;
    let pair_j = SummaryFailureReason::InferenceFailed;
    let source = SummaryFailureReason::SourceTooLong;
    let timed = SummaryFailureReason::SummaryRuntimeTimeout;
    let failed = SummaryFailureReason::SummaryRuntimeFailed;
    let queue = SummaryFailureReason::SummaryQueueFailed;
    if (a == pair_i && b == pair_j) || (a == pair_j && b == pair_i) {
        2
    } else if (a == timed && b == failed) || (a == failed && b == timed) {
        16
    } else if (a == queue && (b == timed || b == failed)) || (b == queue && (a == timed || a
        == failed)) {
        8
    } else if a == source && (b == timed || b == failed || b == queue) || b == source && (a == timed
        || a == failed || a == queue) {
        1
    } else {
        0
    }
}

proof fn lemma_codes_differ(a: SummaryFailureReason, b: SummaryFailureReason)
    requires
        a != b,
    ensures
        0 <= difference(a, b) < a.code_text().len(),
        difference(a, b) < b.code_text().len(),
        a.code_text()[difference(a, b)] != b.code_text()[difference(a, b)],
{
    reveal_strlit("invalid_model_output");
    reveal_strlit("metadata_echo");
    reveal_strlit("ungrounded_summary");
    reveal_strlit("empty_source");
    reveal_strlit("source_too_long");
    reveal_strlit("summary_runtime_timeout");
    reveal_strlit("summary_runtime_failed");
    reveal_strlit("summary_queue_failed");
    reveal_strlit("inference_failed");
}

/// A text that begins with the code of a reason begins with no other code.
proof fn lemma_coded_reason(reason: SummaryFailureReason, rest: Seq<char>)
    ensures
        coded_reason(reason.code_text() + rest) == Some(reason),
{
    let code = reason.code_text();
    let whole = code + rest;
    assert(whole.subrange(0, code.len() as int) == code);
    assert(text::begins_with(whole, code));
    assert forall|other: SummaryFailureReason| other != reason implies !#[trigger] text::begins_with(
        whole,
        other.code_text(),
    ) by {
        lemma_codes_differ(reason, other);
        let k = difference(reason, other);
        if text::begins_with(whole, other.code_text()) {
            assert(whole.subrange(0, 0 + other.code_text().len() as int)[k] == whole[k]);
            assert(whole[k] == code[k]);
        }
    }
}

/// The reason written into an error text is read back from it.
pub proof fn law_reasons_are_read_back(reason: SummaryFailureReason, detail: Seq<char>)
    ensures
        reason_of(reason_text(reason, detail)) == reason,
        reason_of(violation_text(reason, detail)) == reason,
{
    reveal_strlit("contract violation: ");
    let plain = reason_text(reason, detail);
    assert(plain == reason.code_text() + (": "@ + detail));
    lemma_coded_reason(reason, ": "@ + detail);
    lemma_no_code_is_a_violation(reason);
    assert(!text::begins_with(plain, "contract violation: "@)) by {
        if text::begins_with(plain, "contract violation: "@) {
            assert(plain.subrange(0, 20)[0] == plain[0]);
        }
    }
    let broken = violation_text(reason, detail);
    let tail = " ("@ + detail + ")"@;
    assert(broken == "contract violation: "@ + (reason.code_text() + tail));
    assert(broken.subrange(0, 20) == "contract violation: "@);
    assert(broken.skip(20) == reason.code_text() + tail);
    lemma_coded_reason(reason, tail);
}

proof fn lemma_no_code_is_a_violation(reason: SummaryFailureReason)
    ensures
        reason.code_text().len() > 0,
        reason.code_text()[0] != 'c',
{
    reveal_strlit("invalid_model_output");
    reveal_strlit("metadata_echo");
    reveal_strlit("ungrounded_summary");
    reveal_strlit("empty_source");
    reveal_strlit("source_too_long");
    reveal_strlit("summary_runtime_timeout");
    reveal_strlit("summary_runtime_failed");
    reveal_strlit("summary_queue_failed");
    reveal_strlit("inference_failed");
}

/// A message without a code is read by its words: what is no JSON breaks the
/// contract, a timeout is one, a failed request is a failure of the runtime,
/// and anything else a failure of the model.
pub proof fn law_messages_without_a_code_are_read(error: Seq<char>)
    requires
        coded_reason(coded_part(error)) is None,
    ensures
        text::contains_text(error, "not JSON"@) ==> reason_of(error)
            == SummaryFailureReason::InvalidModelOutput,
        !text::contains_text(error, "not JSON"@) && (text::contains_text(error, "timeout"@)
            || text::contains_text(error, "timed out"@)) ==> reason_of(error)
            == SummaryFailureReason::SummaryRuntimeTimeout,
        !text::contains_text(error, "not JSON"@) && !text::contains_text(error, "timeout"@)
            && !text::contains_text(error, "timed out"@) && text::begins_with(
            error,
            "summary request failed"@,
        ) ==> reason_of(error) == SummaryFailureReason::SummaryRuntimeFailed,
        !text::contains_text(error, "not JSON"@) && !text::contains_text(error, "timeout"@)
            && !text::contains_text(error, "timed out"@) && !text::begins_with(
            error,
            "summary request failed"@,
        ) ==> reason_of(error) == SummaryFailureReason::InferenceFailed,
{
}

/// The model breaks its contract with an answer that cannot be read, echoes
/// metadata or is not grounded; the other failures are not its own.
pub proof fn law_three_reasons_break_the_contract(reason: SummaryFailureReason)
    ensures
        reason.breaks_contract() == (reason == SummaryFailureReason::InvalidModelOutput || reason
            == SummaryFailureReason::MetadataEcho || reason
            == SummaryFailureReason::UngroundedSummary),
        reason.code_text() == match reason {
            SummaryFailureReason::InvalidModelOutput => "invalid_model_output"@,
            SummaryFailureReason::MetadataEcho => "metadata_echo"@,
            SummaryFailureReason::UngroundedSummary => "ungrounded_summary"@,
            SummaryFailureReason::EmptySource => "empty_source"@,
            SummaryFailureReason::SourceTooLong => "source_too_long"@,
            SummaryFailureReason::SummaryRuntimeTimeout => "summary_runtime_timeout"@,
            SummaryFailureReason::SummaryRuntimeFailed => "summary_runtime_failed"@,
            SummaryFailureReason::SummaryQueueFailed => "summary_queue_failed"@,
            SummaryFailureReason::InferenceFailed => "inference_failed"@,
        },
        reason_text(reason, Seq::empty()) == reason.code_text() + ": "@,
        violation_text(reason, Seq::empty()) == "contract violation: "@ + reason.code_text() + " ("@
            + ")"@,
{
    let nothing = Seq::<char>::empty();
    assert(reason.code_text() + ": "@ + nothing == reason.code_text() + ": "@);
    let start = "contract violation: "@ + reason.code_text() + " ("@;
    assert(start + nothing == start);
}

} // verus!
