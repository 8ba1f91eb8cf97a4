//! The local model that summarises memories: what it is asked, and which of its
//! answers are accepted.
use vstd::prelude::*;

use crate::grounding;
use crate::json;
use crate::json::{Json, JsonModel};
use crate::lance_memory;
use crate::lance_memory::SummaryAdmission;
use crate::summary_failure;
use crate::summary_failure::SummaryFailureReason;
use crate::text;

pub use crate::lance_memory::{SUMMARY_MODEL_ID, SUMMARY_PROMPT_VERSION};

verus! {

/// The longest summary, in characters.
pub const MAX_SUMMARY_CHARS: usize = 240;

/// The longest text that the model is given, in characters.
pub const MAX_SUMMARY_INPUT_CHARS: usize = 1200;

/// What the model decided about a text.
#[derive(Debug, PartialEq, Eq)]
pub struct SummaryDecision {
    pub should_store: bool,
    pub summary: Option<String>,
}

/// Tells whether events of a kind are summarised.
pub fn is_summary_candidate(event_type: &str) -> (res: bool)
    ensures
        res == lance_memory::is_candidate_type(event_type@),
{
    lance_memory::is_summary_candidate_type(event_type)
}

/// The reason that an error text tells of.
pub fn classify_summary_error(error: &str) -> (res: SummaryFailureReason)
    ensures
        res == summary_failure::reason_of(error@),
{
    summary_failure::reason_from_error(error)
}

/// Whether an attempt that failed for this reason is worth a second one.
pub open spec fn is_transient(reason: SummaryFailureReason) -> bool {
    reason.breaks_contract() || reason == SummaryFailureReason::SummaryRuntimeTimeout || reason
        == SummaryFailureReason::SummaryRuntimeFailed
}

/// Tells whether an attempt that ended with this error is worth a second one.
pub fn is_transient_summary_error(error: &str) -> (res: bool)
    ensures
        res == is_transient(summary_failure::reason_of(error@)),
{
    match summary_failure::reason_from_error(error) {
        SummaryFailureReason::InvalidModelOutput => true,
        SummaryFailureReason::MetadataEcho => true,
        SummaryFailureReason::UngroundedSummary => true,
        SummaryFailureReason::SummaryRuntimeTimeout => true,
        SummaryFailureReason::SummaryRuntimeFailed => true,
        _ => false,
    }
}

/// Tells whether an error is about the form or the content of an answer.
pub fn is_contract_violation(error: &str) -> (res: bool)
    ensures
        res == summary_failure::reason_of(error@).breaks_contract(),
{
    summary_failure::reason_from_error(error).is_contract_violation()
}

/// What follows an attempt that failed: the end, or a second attempt, which
/// tells the model of its mistake where it made one.
#[derive(Debug, Clone, Copy, PartialEq, Eq, Structural)]
pub enum RetryStep {
    GiveUp,
    Retry { corrective: bool },
}

/// What follows an attempt that failed for a reason.
pub open spec fn retry_step(retried: bool, reason: SummaryFailureReason) -> RetryStep {
    if !retried && is_transient(reason) {
        RetryStep::Retry { corrective: reason.breaks_contract() }
    } else {
        RetryStep::GiveUp
    }
}

/// Decides what follows an attempt that ended with an error. `retried` tells
/// whether it was the second one already, which is the last.
pub fn retry_summary_inference(retried: bool, error: &str) -> (res: RetryStep)
    ensures
        res == retry_step(retried, summary_failure::reason_of(error@)),
{
    if !retried && is_transient_summary_error(error) {
        RetryStep::Retry { corrective: is_contract_violation(error) }
    } else {
        RetryStep::GiveUp
    }
}

/// An answer that breaks the contract is tried again once, with a hint; so is a
/// failure of the server, without one; an unusable source is not.
pub proof fn law_contract_violations_are_retried(reason: SummaryFailureReason, detail: Seq<char>)
    ensures
        is_transient(summary_failure::reason_of(summary_failure::violation_text(reason, detail)))
            == is_transient(reason),
        reason.breaks_contract() ==> is_transient(reason),
        reason.breaks_contract() ==> retry_step(false, reason) == (RetryStep::Retry {
            corrective: true,
        }),
        reason == SummaryFailureReason::EmptySource || reason
            == SummaryFailureReason::SourceTooLong ==> retry_step(false, reason)
            == RetryStep::GiveUp,
        retry_step(true, reason) == RetryStep::GiveUp,
{
    summary_failure::law_reasons_are_read_back(reason, detail);
}

/// The error of a text that is too long.
pub open spec fn too_long_error() -> Seq<char> {
    summary_failure::reason_text(
        SummaryFailureReason::SourceTooLong,
        "summary input exceeds 1200 characters"@,
    )
}

/// The error of a text that is too long.
pub fn too_long_message() -> (res: String)
    ensures
        res@ == too_long_error(),
{
    summary_failure::format_reason(
        SummaryFailureReason::SourceTooLong,
        "summary input exceeds 1200 characters",
    )
}

/// The error of a text of which nothing is left.
pub open spec fn nothing_left_error() -> Seq<char> {
    summary_failure::reason_text(
        SummaryFailureReason::EmptySource,
        "content is empty after redaction-safe admission"@,
    )
}

fn nothing_left_message() -> (res: String)
    ensures
        res@ == nothing_left_error(),
{
    summary_failure::format_reason(
        SummaryFailureReason::EmptySource,
        "content is empty after redaction-safe admission",
    )
}

/// The text of an event that the model is given, where it is given one: `None`
/// for events that are never summarised. `redaction` is the answer of the
/// privacy policy.
pub fn admitted_summary_content(
    event_type: &str,
    content: &str,
    redaction: &Option<String>,
) -> (res: Result<Option<String>, String>)
    ensures
        match lance_memory::admission(event_type@, content@, text::opt_view(*redaction)) {
            SummaryAdmission::NotApplicable => res == Ok::<Option<String>, String>(None),
            SummaryAdmission::Invalid => res is Err && res->Err_0@ == nothing_left_error(),
            SummaryAdmission::Eligible => {
                let document = lance_memory::redacted_document(
                    content@,
                    text::opt_view(*redaction),
                )->0;
                if document.len() > MAX_SUMMARY_INPUT_CHARS {
                    res is Err && res->Err_0@ == too_long_error()
                } else {
                    res is Ok && res->Ok_0 is Some && res->Ok_0->0@ == document
                }
            },
        },
{
    match lance_memory::admit_summary_document(event_type, content, redaction) {
        Ok(document) => {
            let chars = text::chars_of(document.as_str());
            if chars.len() > MAX_SUMMARY_INPUT_CHARS {
                return Err(too_long_message());
            }
            Ok(Some(document))
        },
        Err(SummaryAdmission::NotApplicable) => Ok(None),
        Err(_) => Err(nothing_left_message()),
    }
}

/// The text that a trial of the model uses: the given one, or a fixed sentence.
pub fn test_summary_text(given: &str) -> (res: String)
    ensures
        res@ == if text::is_blank(given@) {
            "ユーザーは猫を2匹飼っています。"@
        } else {
            given@
        },
{
    if text::is_blank_text(given) {
        "ユーザーは猫を2匹飼っています。".to_owned()
    } else {
        given.to_owned()
    }
}

/// The text that the model is given in a trial. `redaction` is the answer of the
/// privacy policy.
pub fn test_summary(content: &str, redaction: &Option<String>) -> (res: Result<String, String>)
    ensures
        lance_memory::admission("user_speech"@, content@, text::opt_view(*redaction))
            == SummaryAdmission::Eligible ==> res is Ok && lance_memory::redacted_document(
            content@,
            text::opt_view(*redaction),
        ) == Some(res->Ok_0@),
        lance_memory::admission("user_speech"@, content@, text::opt_view(*redaction))
            != SummaryAdmission::Eligible ==> res is Err && res->Err_0@ == nothing_left_error(),
{
    match lance_memory::admit_summary_document("user_speech", content, redaction) {
        Ok(document) => Ok(document),
        Err(_) => Err(nothing_left_message()),
    }
}

/// The kinds of events, which are no summary.
pub open spec fn event_tokens() -> Seq<Seq<char>> {
    seq!["twitch_chat"@, "user_speech"@, "discord_speech"@]
}

/// Other words that are no summary when they stand alone.
pub open spec fn bare_tokens() -> Seq<Seq<char>> {
    seq![
        "ai_response"@,
        "auto_commentary"@,
        "human"@,
        "manual"@,
        "system"@,
        "microphone"@,
        "twitch"@,
        "discord"@,
    ]
}

/// The names of fields, which are no summary alone or before a value.
pub open spec fn field_labels() -> Seq<Seq<char>> {
    seq![
        "event_type"@,
        "eventtype"@,
        "source"@,
        "sourcename"@,
        "timestamp"@,
        "event_id"@,
        "eventid"@,
        "attempt_id"@,
        "attemptid"@,
        "model_id"@,
        "modelid"@,
        "prompt_version"@,
        "promptversion"@,
        "status"@,
        "preview"@,
        "content"@,
        "document"@,
        "field"@,
        "field_label"@,
        "fieldlabel"@,
        "id"@,
        "summary"@,
    ]
}

/// Whether a text is a label, or begins with one that is followed by a colon or
/// an equals sign.
pub open spec fn is_labelled(compact: Seq<char>, label: Seq<char>) -> bool {
    compact == label || text::begins_with(compact, label + ":"@) || text::begins_with(
        compact,
        label + "="@,
    )
}

/// Whether a character can stand in the time part of a time stamp.
pub open spec fn is_time_char(c: char) -> bool {
    text::is_ascii_digit(c) || c == 'T' || c == 't' || c == 'Z' || c == 'z' || c == ':' || c == '+'
        || c == '-' || c == '.'
}

/// Whether a text is a date, alone or with a time.
pub open spec fn is_timestamp(s: Seq<char>) -> bool {
    &&& s.len() >= 10
    &&& s[4] == '-' && s[7] == '-'
    &&& text::is_ascii_digit(s[0]) && text::is_ascii_digit(s[1]) && text::is_ascii_digit(s[2])
        && text::is_ascii_digit(s[3])
    &&& text::is_ascii_digit(s[5]) && text::is_ascii_digit(s[6])
    &&& text::is_ascii_digit(s[8]) && text::is_ascii_digit(s[9])
    &&& forall|i: int| 10 <= i < s.len() ==> is_time_char(#[trigger] s[i])
}

/// Tells whether a text is a date, alone or with a time.
pub fn looks_like_timestamp(value: &str) -> (res: bool)
    ensures
        res == is_timestamp(value@),
{
    let c = text::chars_of(value);
    if c.len() < 10 {
        return false;
    }
    if c[4] != '-' || c[7] != '-' {
        return false;
    }
    if !(text::is_ascii_digit_char(c[0]) && text::is_ascii_digit_char(c[1])
        && text::is_ascii_digit_char(c[2]) && text::is_ascii_digit_char(c[3])
        && text::is_ascii_digit_char(c[5]) && text::is_ascii_digit_char(c[6])
        && text::is_ascii_digit_char(c[8]) && text::is_ascii_digit_char(c[9])) {
        return false;
    }
    let mut i: usize = 10;
    while i < c.len()
        invariant
            10 <= i <= c@.len(),
            c@ == value@,
            forall|k: int| 10 <= k < i ==> is_time_char(#[trigger] value@[k]),
        decreases c@.len() - i,
    {
        let x: char = c[i];
        if !(text::is_ascii_digit_char(x) || x == 'T' || x == 't' || x == 'Z' || x == 'z' || x
            == ':' || x == '+' || x == '-' || x == '.') {
            assert(!is_time_char(value@[i as int]));
            return false;
        }
        i += 1;
    }
    true
}

/// A text in the form in which echoes are recognised.
pub open spec fn plain_form(s: Seq<char>) -> Seq<char> {
    text::ascii_lowered(text::trimmed(s))
}

/// Whether a summary repeats where its text came from instead of what it says.
pub open spec fn is_echo(summary: Seq<char>, provenance: Seq<Seq<char>>) -> bool {
    let normalized = plain_form(summary);
    let compact = text::without_white(normalized);
    ||| exists|i: int|
        0 <= i < event_tokens().len() && text::contains_text(
            compact,
            #[trigger] event_tokens()[i],
        )
    ||| bare_tokens().contains(compact)
    ||| exists|i: int|
        0 <= i < field_labels().len() && is_labelled(compact, #[trigger] field_labels()[i])
    ||| is_timestamp(normalized)
    ||| exists|i: int|
        0 <= i < provenance.len() && plain_form(#[trigger] provenance[i]).len() > 0 && plain_form(
            provenance[i],
        ) == normalized
}

fn holds_event_token(compact: &str) -> (res: bool)
    ensures
        res == exists|i: int|
            0 <= i < event_tokens().len() && text::contains_text(
                compact@,
                #[trigger] event_tokens()[i],
            ),
{
    let ghost tokens = event_tokens();
    assert(tokens[0] == "twitch_chat"@ && tokens[1] == "user_speech"@ && tokens[2]
        == "discord_speech"@);
    text::text_contains(compact, "twitch_chat") || text::text_contains(compact, "user_speech")
        || text::text_contains(compact, "discord_speech")
}

fn is_bare_token(compact: &str) -> (res: bool)
    ensures
        res == bare_tokens().contains(compact@),
{
    let list: Vec<&'static str> = vec![
        "ai_response",
        "auto_commentary",
        "human",
        "manual",
        "system",
        "microphone",
        "twitch",
        "discord",
    ];
    assert(text::static_views(list@) == bare_tokens());
    text::is_one_of(&list, compact)
}

fn is_labelled_with(compact: &str, label: &str) -> (res: bool)
    ensures
        res == is_labelled(compact@, label@),
{
    if text::same_text(compact, label) {
        return true;
    }
    let mut colon = label.to_owned();
    text::append_text(&mut colon, ":");
    let mut equals = label.to_owned();
    text::append_text(&mut equals, "=");
    text::text_begins_with(compact, colon.as_str()) || text::text_begins_with(
        compact,
        equals.as_str(),
    )
}

fn is_any_label(compact: &str) -> (res: bool)
    ensures
        res == exists|i: int|
            0 <= i < field_labels().len() && is_labelled(compact@, #[trigger] field_labels()[i]),
{
    let list: Vec<&'static str> = vec![
        "event_type",
        "eventtype",
        "source",
        "sourcename",
        "timestamp",
        "event_id",
        "eventid",
        "attempt_id",
        "attemptid",
        "model_id",
        "modelid",
        "prompt_version",
        "promptversion",
        "status",
        "preview",
        "content",
        "document",
        "field",
        "field_label",
        "fieldlabel",
        "id",
        "summary",
    ];
    let ghost labels = field_labels();
    assert(text::static_views(list@) == labels);
    let mut i: usize = 0;
    while i < list.len()
        invariant
            i <= list@.len(),
            labels == field_labels(),
            text::static_views(list@) == labels,
            forall|k: int| 0 <= k < i ==> !is_labelled(compact@, #[trigger] labels[k]),
        decreases list@.len() - i,
    {
        assert(labels[i as int] == list@[i as int]@);
        if is_labelled_with(compact, list[i]) {
            return true;
        }
        i += 1;
    }
    false
}

fn repeats_provenance(normalized: &str, provenance: &Vec<String>) -> (res: bool)
    ensures
        res == exists|i: int|
            0 <= i < provenance@.len() && plain_form(#[trigger] text::views(provenance@)[i]).len()
                > 0 && plain_form(text::views(provenance@)[i]) == normalized@,
{
    let ghost all = text::views(provenance@);
    let mut i: usize = 0;
    while i < provenance.len()
        invariant
            i <= provenance@.len(),
            all == text::views(provenance@),
            forall|k: int|
                0 <= k < i ==> !(plain_form(#[trigger] all[k]).len() > 0 && plain_form(all[k])
                    == normalized@),
        decreases provenance@.len() - i,
    {
        assert(all[i as int] == provenance@[i as int]@);
        let value = text::ascii_lower_text(text::trim_text(provenance[i].as_str()).as_str());
        if !value.as_str().is_empty() && text::same_text(normalized, value.as_str()) {
            return true;
        }
        i += 1;
    }
    false
}

/// Tells whether a summary repeats where its text came from instead of what it
/// says. `provenance` is the kind, the source and the time of the event.
pub fn is_metadata_echo(summary: &str, provenance: &Vec<String>) -> (res: bool)
    ensures
        res == is_echo(summary@, text::views(provenance@)),
{
    let normalized = text::ascii_lower_text(text::trim_text(summary).as_str());
    let compact = text::remove_white(normalized.as_str());
    holds_event_token(compact.as_str()) || is_bare_token(compact.as_str()) || is_any_label(
        compact.as_str(),
    ) || looks_like_timestamp(normalized.as_str()) || repeats_provenance(
        normalized.as_str(),
        provenance,
    )
}

/// What an answer of the model comes to.
pub enum ReplyModel {
    /// The summary is kept.
    Keep(Seq<char>),
    /// The model declined, as it should.
    Decline,
    /// The model declined, and explained itself all the same.
    DeclineWithText,
    /// The answer breaks the contract.
    Refuse(SummaryFailureReason, Seq<char>),
}

/// Whether a summary holds a control character.
pub open spec fn has_control(s: Seq<char>) -> bool {
    exists|i: int| 0 <= i < s.len() && text::is_control(#[trigger] s[i])
}

/// What a summary comes to that the model wants to have kept.
pub open spec fn kept_summary(
    summary: Seq<char>,
    document: Seq<char>,
    provenance: Seq<Seq<char>>,
) -> ReplyModel {
    if summary.len() == 0 {
        ReplyModel::Refuse(SummaryFailureReason::InvalidModelOutput, "summary_is_empty"@)
    } else if summary.len() > MAX_SUMMARY_CHARS || has_control(summary) {
        ReplyModel::Refuse(
            SummaryFailureReason::InvalidModelOutput,
            "length_or_control_characters"@,
        )
    } else if is_echo(summary, provenance) {
        ReplyModel::Refuse(SummaryFailureReason::MetadataEcho, "metadata_only_summary"@)
    } else if !text::is_blank(document) && !grounding::is_grounded(document, summary) {
        ReplyModel::Refuse(
            SummaryFailureReason::UngroundedSummary,
            "summary_not_grounded_in_source"@,
        )
    } else {
        ReplyModel::Keep(summary)
    }
}

/// What an answer comes to, given what it parses to.
pub open spec fn reply_of(
    value: Option<JsonModel>,
    document: Seq<char>,
    provenance: Seq<Seq<char>>,
) -> ReplyModel {
    match value {
        Some(JsonModel::Object(members)) => {
            let object = JsonModel::Object(members);
            if members.len() != 2 || object.get("should_store"@) is None || object.get(
                "summary"@,
            ) is None {
                ReplyModel::Refuse(
                    SummaryFailureReason::InvalidModelOutput,
                    "exact_keys_required"@,
                )
            } else {
                match (object.bool_member("should_store"@), object.text_member("summary"@)) {
                    (None, _) => ReplyModel::Refuse(
                        SummaryFailureReason::InvalidModelOutput,
                        "should_store_must_be_boolean"@,
                    ),
                    (_, None) => ReplyModel::Refuse(
                        SummaryFailureReason::InvalidModelOutput,
                        "summary_must_be_string"@,
                    ),
                    (Some(store), Some(summary)) => if store {
                        kept_summary(text::trimmed(summary), document, provenance)
                    } else if text::trimmed(summary).len() > 0 {
                        ReplyModel::DeclineWithText
                    } else {
                        ReplyModel::Decline
                    },
                }
            }
        },
        _ => ReplyModel::Refuse(SummaryFailureReason::InvalidModelOutput, "json_object_required"@),
    }
}

/// What an answer of the model comes to.
#[derive(Debug)]
pub enum ModelReply {
    Keep(String),
    Decline,
    DeclineWithText,
    Refuse(SummaryFailureReason, &'static str),
}

impl View for ModelReply {
    type V = ReplyModel;

    open spec fn view(&self) -> ReplyModel {
        match self {
            ModelReply::Keep(summary) => ReplyModel::Keep(summary@),
            ModelReply::Decline => ReplyModel::Decline,
            ModelReply::DeclineWithText => ReplyModel::DeclineWithText,
            ModelReply::Refuse(reason, detail) => ReplyModel::Refuse(*reason, detail@),
        }
    }
}

fn holds_control(summary: &Vec<char>) -> (res: bool)
    ensures
        res == has_control(summary@),
{
    let mut i: usize = 0;
    while i < summary.len()
        invariant
            i <= summary@.len(),
            forall|k: int| 0 <= k < i ==> !text::is_control(#[trigger] summary@[k]),
        decreases summary@.len() - i,
    {
        if text::is_control_char(summary[i]) {
            return true;
        }
        i += 1;
    }
    false
}

fn read_kept_summary(summary: &str, document: &str, provenance: &Vec<String>) -> (res: ModelReply)
    ensures
        res@ == kept_summary(summary@, document@, text::views(provenance@)),
{
    let chars = text::chars_of(summary);
    if chars.len() == 0 {
        return ModelReply::Refuse(SummaryFailureReason::InvalidModelOutput, "summary_is_empty");
    }
    if chars.len() > MAX_SUMMARY_CHARS || holds_control(&chars) {
        return ModelReply::Refuse(
            SummaryFailureReason::InvalidModelOutput,
            "length_or_control_characters",
        );
    }
    if is_metadata_echo(summary, provenance) {
        return ModelReply::Refuse(SummaryFailureReason::MetadataEcho, "metadata_only_summary");
    }
    if !text::is_blank_text(document) && !grounding::is_summary_grounded(document, summary) {
        return ModelReply::Refuse(
            SummaryFailureReason::UngroundedSummary,
            "summary_not_grounded_in_source",
        );
    }
    ModelReply::Keep(summary.to_owned())
}

/// What a parsed answer is, where there is one.
pub open spec fn opt_model(value: Option<&Json>) -> Option<JsonModel> {
    match value {
        Some(json) => Some(json.model()),
        None => None,
    }
}

/// Reads an answer that was parsed as JSON; `None` where it could not be.
pub fn read_reply(value: Option<&Json>, document: &str, provenance: &Vec<String>) -> (res: ModelReply)
    ensures
        res@ == reply_of(opt_model(value), document@, text::views(provenance@)),
{
    let object = match value {
        Some(json) => json,
        None => {
            return ModelReply::Refuse(
                SummaryFailureReason::InvalidModelOutput,
                "json_object_required",
            );
        },
    };
    let count: usize = match object {
        Json::Object(members) => members.len(),
        _ => {
            return ModelReply::Refuse(
                SummaryFailureReason::InvalidModelOutput,
                "json_object_required",
            );
        },
    };
    assert(object.model()->Object_0.len() == count);
    if count != 2 || object.get("should_store").is_none() || object.get("summary").is_none() {
        return ModelReply::Refuse(SummaryFailureReason::InvalidModelOutput, "exact_keys_required");
    }
    let store = match object.bool_member("should_store") {
        Some(flag) => flag,
        None => {
            return ModelReply::Refuse(
                SummaryFailureReason::InvalidModelOutput,
                "should_store_must_be_boolean",
            );
        },
    };
    let summary = match object.text_member("summary") {
        Some(given) => text::trim_text(given.as_str()),
        None => {
            return ModelReply::Refuse(
                SummaryFailureReason::InvalidModelOutput,
                "summary_must_be_string",
            );
        },
    };
    if store {
        return read_kept_summary(summary.as_str(), document, provenance);
    }
    if summary.as_str().is_empty() {
        ModelReply::Decline
    } else {
        ModelReply::DeclineWithText
    }
}

/// Whether a decision is what an answer comes to. An answer that declines and
/// explains itself is a decision only where that is overlooked.
pub open spec fn decides(
    res: Result<SummaryDecision, String>,
    reply: ReplyModel,
    overlook: bool,
) -> bool {
    match reply {
        ReplyModel::Keep(summary) => res is Ok && res->Ok_0.should_store && text::opt_view(
            res->Ok_0.summary,
        ) == Some(summary),
        ReplyModel::Decline => res is Ok && !res->Ok_0.should_store && res->Ok_0.summary is None,
        ReplyModel::DeclineWithText => if overlook {
            res is Ok && !res->Ok_0.should_store && res->Ok_0.summary is None
        } else {
            res is Err && res->Err_0@ == summary_failure::violation_text(
                SummaryFailureReason::InvalidModelOutput,
                "false_requires_empty_summary"@,
            )
        },
        ReplyModel::Refuse(reason, detail) => res is Err && res->Err_0@
            == summary_failure::violation_text(reason, detail),
    }
}

fn decide(reply: ModelReply, overlook: bool) -> (res: Result<SummaryDecision, String>)
    ensures
        decides(res, reply@, overlook),
{
    match reply {
        ModelReply::Keep(summary) => Ok(
            SummaryDecision { should_store: true, summary: Some(summary) },
        ),
        ModelReply::Decline => Ok(SummaryDecision { should_store: false, summary: None }),
        ModelReply::DeclineWithText => {
            if overlook {
                Ok(SummaryDecision { should_store: false, summary: None })
            } else {
                Err(
                    summary_failure::format_contract_violation(
                        SummaryFailureReason::InvalidModelOutput,
                        "false_requires_empty_summary",
                    ),
                )
            }
        },
        ModelReply::Refuse(reason, detail) => Err(
            summary_failure::format_contract_violation(reason, detail),
        ),
    }
}

fn parse_reply(raw: &str, document: &str, provenance: &Vec<String>) -> (res: ModelReply)
    ensures
        res@ == reply_of(
            json::parsed_model(text::trimmed(raw@)),
            document@,
            text::views(provenance@),
        ),
{
    let trimmed = text::trim_text(raw);
    match json::parse_json(trimmed.as_str()) {
        Ok(value) => read_reply(Some(&value), document, provenance),
        Err(_) => read_reply(None, document, provenance),
    }
}

/// Reads an answer of the model, and holds it against the text and the
/// provenance of the event.
pub fn parse_summary_response_with_provenance(
    raw: &str,
    document: &str,
    provenance: &Vec<String>,
) -> (res: Result<SummaryDecision, String>)
    ensures
        decides(
            res,
            reply_of(
                json::parsed_model(text::trimmed(raw@)),
                document@,
                text::views(provenance@),
            ),
            false,
        ),
{
    decide(parse_reply(raw, document, provenance), false)
}

/// Reads an answer of the model by its form alone.
pub fn parse_summary_response(raw: &str) -> (res: Result<SummaryDecision, String>)
    ensures
        decides(
            res,
            reply_of(json::parsed_model(text::trimmed(raw@)), Seq::empty(), Seq::empty()),
            false,
        ),
{
    let nothing: Vec<String> = Vec::new();
    proof {
        reveal_strlit("");
        assert(""@ == Seq::<char>::empty());
        assert(text::views(nothing@) == Seq::<Seq<char>>::empty());
    }
    parse_summary_response_with_provenance(raw, "", &nothing)
}

/// Reads an answer of the model, and holds it against the text of the event.
pub fn parse_summary_response_for_document(raw: &str, document: &str) -> (res: Result<
    SummaryDecision,
    String,
>)
    ensures
        decides(
            res,
            reply_of(json::parsed_model(text::trimmed(raw@)), document@, Seq::empty()),
            false,
        ),
{
    let nothing: Vec<String> = Vec::new();
    assert(text::views(nothing@) == Seq::<Seq<char>>::empty());
    parse_summary_response_with_provenance(raw, document, &nothing)
}

/// Reads an answer of the model. An explanation beside a negative decision is
/// dropped: the decision counts.
pub fn parse_model_decision(raw: &str, document: &str, provenance: &Vec<String>) -> (res: Result<
    SummaryDecision,
    String,
>)
    ensures
        decides(
            res,
            reply_of(
                json::parsed_model(text::trimmed(raw@)),
                document@,
                text::views(provenance@),
            ),
            true,
        ),
{
    decide(parse_reply(raw, document, provenance), true)
}

/// A summary that is kept is not empty, not too long, without control
/// characters and blanks at its ends, no echo, and grounded in its document.
pub proof fn law_kept_summaries_are_sound(
    value: Option<JsonModel>,
    document: Seq<char>,
    provenance: Seq<Seq<char>>,
    summary: Seq<char>,
)
    requires
        reply_of(value, document, provenance) == ReplyModel::Keep(summary),
    ensures
        0 < summary.len() <= MAX_SUMMARY_CHARS,
        !has_control(summary),
        text::trimmed(summary) == summary,
        !is_echo(summary, provenance),
        !text::is_blank(document) ==> grounding::is_grounded(document, summary),
{
    let object = value->0;
    text::lemma_trimmed_twice(object.text_member("summary"@)->0);
}

/// Every answer that is refused is a violation of the contract, so that it is
/// tried again with a hint.
pub proof fn law_refused_answers_break_the_contract(
    value: Option<JsonModel>,
    document: Seq<char>,
    provenance: Seq<Seq<char>>,
)
    ensures
        match reply_of(value, document, provenance) {
            ReplyModel::Refuse(reason, detail) => reason.breaks_contract()
                && summary_failure::reason_of(summary_failure::violation_text(reason, detail))
                == reason,
            _ => true,
        },
{
    match reply_of(value, document, provenance) {
        ReplyModel::Refuse(reason, detail) => {
            summary_failure::law_reasons_are_read_back(reason, detail);
        },
        _ => {},
    }
}

/// A request is repeated once, and only after a failure that can pass: with a
/// correction where the model broke the contract, and as it was after a
/// timeout or a failure of the runtime.
pub proof fn law_one_retry_after_a_passing_failure(reason: SummaryFailureReason)
    ensures
        retry_step(true, reason) == RetryStep::GiveUp,
        reason == SummaryFailureReason::InvalidModelOutput || reason
            == SummaryFailureReason::MetadataEcho || reason
            == SummaryFailureReason::UngroundedSummary ==> retry_step(false, reason) == (
        RetryStep::Retry { corrective: true }),
        reason == SummaryFailureReason::SummaryRuntimeTimeout || reason
            == SummaryFailureReason::SummaryRuntimeFailed ==> retry_step(false, reason) == (
        RetryStep::Retry { corrective: false }),
        reason == SummaryFailureReason::EmptySource || reason == SummaryFailureReason::SourceTooLong
            || reason == SummaryFailureReason::SummaryQueueFailed || reason
            == SummaryFailureReason::InferenceFailed ==> retry_step(false, reason)
            == RetryStep::GiveUp,
{
}

/// A summary is kept, word for word, where it has one to two hundred and forty
/// characters without control characters, does not echo metadata, and is
/// grounded in its document, if there is one; else the first thing that is
/// wrong with it is the reason to refuse it.
pub proof fn law_sound_summaries_are_kept(
    summary: Seq<char>,
    document: Seq<char>,
    provenance: Seq<Seq<char>>,
)
    ensures
        ({
            let kept = kept_summary(summary, document, provenance);
            let plain = forall|i: int|
                0 <= i < summary.len() ==> !text::is_control(#[trigger] summary[i]);
            &&& 1 <= summary.len() <= 240 && plain && !is_echo(summary, provenance) && (
            text::is_blank(document) || grounding::is_grounded(document, summary)) ==> kept
                == ReplyModel::Keep(summary)
            &&& summary.len() == 0 || summary.len() > 240 || !plain ==> kept is Refuse
                && kept->Refuse_0 == SummaryFailureReason::InvalidModelOutput
            &&& 1 <= summary.len() <= 240 && plain && is_echo(summary, provenance) ==> kept
                is Refuse && kept->Refuse_0 == SummaryFailureReason::MetadataEcho
            &&& 1 <= summary.len() <= 240 && plain && !is_echo(summary, provenance)
                && !text::is_blank(document) && !grounding::is_grounded(document, summary) ==> kept
                is Refuse && kept->Refuse_0 == SummaryFailureReason::UngroundedSummary
        }),
{
}

/// The answer of the model is an object with the two members and no others: the
/// summary is kept, trimmed, where it is to be stored; an empty one declines;
/// every other answer breaks the contract.
pub proof fn law_answers_have_two_members(
    members: Seq<(Seq<char>, JsonModel)>,
    document: Seq<char>,
    provenance: Seq<Seq<char>>,
)
    ensures
        ({
            let object = JsonModel::Object(members);
            let reply = reply_of(Some(object), document, provenance);
            let store = object.get("should_store"@);
            let summary = object.get("summary"@);
            let whole = members.len() == 2 && store is Some && summary is Some;
            &&& whole && store->0 == JsonModel::Bool(true) && summary->0 is Text ==> reply
                == kept_summary(text::trimmed(summary->0->Text_0), document, provenance)
            &&& whole && store->0 == JsonModel::Bool(false) && summary->0 is Text
                && text::is_blank(summary->0->Text_0) ==> reply == ReplyModel::Decline
            &&& whole && store->0 == JsonModel::Bool(false) && summary->0 is Text
                && !text::is_blank(summary->0->Text_0) ==> reply == ReplyModel::DeclineWithText
            &&& !whole || !(store->0 is Bool) || !(summary->0 is Text) ==> reply is Refuse
                && reply->Refuse_0 == SummaryFailureReason::InvalidModelOutput
        }),
        reply_of(None, document, provenance) is Refuse,
{
    let object = JsonModel::Object(members);
    if object.get("summary"@) is Some && object.get("summary"@)->0 is Text {
        text::lemma_blank_iff_trimmed_empty(object.get("summary"@)->0->Text_0);
    }
}

/// A summary that is the name of a field, or begins with one and a colon or an
/// equals sign, echoes metadata; so does one that holds the name of a kind of
/// event, or is the source of its event, however it is spaced or capitalised.
pub proof fn law_metadata_is_recognised(
    summary: Seq<char>,
    provenance: Seq<Seq<char>>,
    label: Seq<char>,
    i: int,
)
    requires
        ({
            let compact = text::without_white(text::ascii_lowered(text::trimmed(summary)));
            ||| (label == "event_type"@ || label == "source"@ || label == "timestamp"@ || label
                == "event_id"@ || label == "status"@ || label == "preview"@ || label == "content"@
                || label == "document"@ || label == "summary"@ || label == "id"@) && (compact
                == label || text::begins_with(compact, label + ":"@) || text::begins_with(
                compact,
                label + "="@,
            ))
            ||| text::contains_text(compact, "twitch_chat"@)
            ||| text::contains_text(compact, "user_speech"@)
            ||| text::contains_text(compact, "discord_speech"@)
            ||| compact == "ai_response"@
            ||| compact == "system"@
            ||| compact == "microphone"@
            ||| compact == "twitch"@
            ||| compact == "discord"@
            ||| 0 <= i < provenance.len() && !text::is_blank(provenance[i]) && text::ascii_lowered(
                text::trimmed(provenance[i]),
            ) == text::ascii_lowered(text::trimmed(summary))
        }),
    ensures
        is_echo(summary, provenance),
{
    let compact = text::without_white(text::ascii_lowered(text::trimmed(summary)));
    let labels = field_labels();
    let tokens = event_tokens();
    let bare = bare_tokens();
    assert(labels[0] == "event_type"@ && labels[2] == "source"@ && labels[4] == "timestamp"@
        && labels[5] == "event_id"@ && labels[13] == "status"@ && labels[14] == "preview"@
        && labels[15] == "content"@ && labels[16] == "document"@ && labels[20] == "id"@
        && labels[21] == "summary"@);
    assert(tokens[0] == "twitch_chat"@ && tokens[1] == "user_speech"@ && tokens[2]
        == "discord_speech"@);
    assert(bare[0] == "ai_response"@ && bare[4] == "system"@ && bare[5] == "microphone"@ && bare[6]
        == "twitch"@ && bare[7] == "discord"@);
    if 0 <= i < provenance.len() && !text::is_blank(provenance[i]) && text::ascii_lowered(
        text::trimmed(provenance[i]),
    ) == text::ascii_lowered(text::trimmed(summary)) {
        text::lemma_blank_iff_trimmed_empty(provenance[i]);
        assert(plain_form(provenance[i]).len() > 0);
    }
}

/// What a person would write is no metadata: a text without ASCII letters that
/// does not begin with a digit is none, unless it repeats the source of its
/// event.
pub proof fn law_japanese_sentences_are_no_metadata(
    summary: Seq<char>,
    provenance: Seq<Seq<char>>,
)
    requires
        forall|i: int|
            0 <= i < summary.len() ==> !text::is_ascii_letter(#[trigger] summary[i]),
        text::trimmed(summary).len() > 0,
        !text::is_ascii_digit(text::trimmed(summary)[0]),
        forall|i: int|
            0 <= i < provenance.len() ==> text::ascii_lowered(
                text::trimmed(#[trigger] provenance[i]),
            ) != text::ascii_lowered(text::trimmed(summary)),
    ensures
        !is_echo(summary, provenance),
{
    let clean = text::trimmed(summary);
    let normalized = plain_form(summary);
    let compact = text::without_white(normalized);
    let spoken = |c: char| !text::is_white(c);
    text::lemma_trimmed_is_part(summary);
    let at = choose|at: int|
        0 <= at && at + clean.len() <= summary.len() && #[trigger] summary.subrange(
            at,
            at + clean.len(),
        ) == clean;
    assert forall|i: int| 0 <= i < normalized.len() implies !text::is_ascii_letter(
        #[trigger] normalized[i],
    ) && normalized[i] == clean[i] by {
        assert(clean[i] == summary[at + i]);
    }
    assert forall|i: int| 0 <= i < compact.len() implies !text::is_ascii_letter(
        #[trigger] compact[i],
    ) by {
        lemma_filtered_from(normalized, spoken, i);
        let k = choose|k: int| 0 <= k < normalized.len() && #[trigger] normalized[k] == compact[i];
        assert(!text::is_ascii_letter(normalized[k]));
    }
    lemma_tokens_begin_with_letters();
    let tokens = event_tokens();
    let bare = bare_tokens();
    let labels = field_labels();
    assert forall|i: int| 0 <= i < tokens.len() implies !text::contains_text(
        compact,
        #[trigger] tokens[i],
    ) by {
        assert(text::is_ascii_letter(tokens[i][0]));
        if text::contains_text(compact, tokens[i]) {
            let p = choose|p: int| text::occurs_at(compact, tokens[i], p);
            assert(compact.subrange(p, p + tokens[i].len())[0] == compact[p]);
        }
    }
    if bare.contains(compact) {
        let i = bare.index_of(compact);
        assert(text::is_ascii_letter(bare[i][0]));
        assert(compact[0] == bare[i][0]);
    }
    assert forall|i: int| 0 <= i < labels.len() implies !is_labelled(
        compact,
        #[trigger] labels[i],
    ) by {
        let label = labels[i];
        assert(text::is_ascii_letter(label[0]));
        reveal_strlit(":");
        reveal_strlit("=");
        if compact == label {
            assert(!text::is_ascii_letter(compact[0]));
        }
        if text::begins_with(compact, label + ":"@) {
            assert(compact.subrange(0, (label + ":"@).len() as int)[0] == compact[0]);
            assert((label + ":"@)[0] == label[0]);
        }
        if text::begins_with(compact, label + "="@) {
            assert(compact.subrange(0, (label + "="@).len() as int)[0] == compact[0]);
            assert((label + "="@)[0] == label[0]);
        }
    }
    assert(normalized[0] == clean[0]);
}

proof fn lemma_filtered_from(s: Seq<char>, pred: spec_fn(char) -> bool, i: int)
    requires
        0 <= i < s.filter(pred).len(),
    ensures
        exists|k: int| 0 <= k < s.len() && #[trigger] s[k] == s.filter(pred)[i],
    decreases s.len(),
{
    reveal(Seq::filter);
    if s.len() > 0 {
        let rest = s.drop_last().filter(pred);
        if i < rest.len() {
            lemma_filtered_from(s.drop_last(), pred, i);
            let k = choose|k: int| 0 <= k < s.drop_last().len() && #[trigger] s.drop_last()[k] == rest[i];
            assert(s[k] == s.filter(pred)[i]);
        } else {
            assert(s[s.len() - 1] == s.filter(pred)[i]);
        }
    }
}

proof fn lemma_tokens_begin_with_letters()
    ensures
        forall|i: int|
            0 <= i < event_tokens().len() ==> (#[trigger] event_tokens()[i]).len() > 0
                && text::is_ascii_letter(event_tokens()[i][0]),
        forall|i: int|
            0 <= i < bare_tokens().len() ==> (#[trigger] bare_tokens()[i]).len() > 0
                && text::is_ascii_letter(bare_tokens()[i][0]),
        forall|i: int|
            0 <= i < field_labels().len() ==> (#[trigger] field_labels()[i]).len() > 0
                && text::is_ascii_letter(field_labels()[i][0]),
{
    reveal_strlit("twitch_chat");
    reveal_strlit("user_speech");
    reveal_strlit("discord_speech");
    reveal_strlit("ai_response");
    reveal_strlit("auto_commentary");
    reveal_strlit("human");
    reveal_strlit("manual");
    reveal_strlit("system");
    reveal_strlit("microphone");
    reveal_strlit("twitch");
    reveal_strlit("discord");
    reveal_strlit("event_type");
    reveal_strlit("eventtype");
    reveal_strlit("source");
    reveal_strlit("sourcename");
    reveal_strlit("timestamp");
    reveal_strlit("event_id");
    reveal_strlit("eventid");
    reveal_strlit("attempt_id");
    reveal_strlit("attemptid");
    reveal_strlit("model_id");
    reveal_strlit("modelid");
    reveal_strlit("prompt_version");
    reveal_strlit("promptversion");
    reveal_strlit("status");
    reveal_strlit("preview");
    reveal_strlit("content");
    reveal_strlit("document");
    reveal_strlit("field");
    reveal_strlit("field_label");
    reveal_strlit("fieldlabel");
    reveal_strlit("id");
    reveal_strlit("summary");
}

/// A date with four, two and two digits is a timestamp, with or without a time
/// after it; a text that does not begin so is none.
pub proof fn law_dates_are_timestamps(s: Seq<char>)
    ensures
        s.len() == 10 && s[4] == '-' && s[7] == '-' && (forall|i: int|
            0 <= i < 10 && i != 4 && i != 7 ==> '0' <= #[trigger] s[i] <= '9') ==> is_timestamp(s),
        is_timestamp(s) ==> s.len() >= 10 && '0' <= s[0] <= '9' && s[4] == '-' && s[7] == '-' && '0'
            <= s[9] <= '9',
        is_timestamp(s) && s.len() > 10 ==> {
            ||| '0' <= s[10] <= '9'
            ||| s[10] == 'T'
            ||| s[10] == 't'
            ||| s[10] == 'Z'
            ||| s[10] == 'z'
            ||| s[10] == ':'
            ||| s[10] == '+'
            ||| s[10] == '-'
            ||| s[10] == '.'
        },
{
    if s.len() > 10 && is_timestamp(s) {
        assert(is_time_char(s[10]));
    }
}

/// A decision follows the answer: a kept summary is stored as it is, nothing is
/// stored where the model declined, and an answer that breaks the contract is
/// an error with its reason. A decline that explains itself is an error where
/// that is not overlooked.
pub proof fn law_decisions_follow_the_answer(
    res: Result<SummaryDecision, String>,
    reply: ReplyModel,
    overlook: bool,
)
    requires
        decides(res, reply, overlook),
    ensures
        res is Ok ==> res->Ok_0.should_store == (reply is Keep) && res->Ok_0.should_store == (
        res->Ok_0.summary is Some),
        reply is Keep ==> res is Ok && res->Ok_0.summary is Some && res->Ok_0.summary->0@
            == reply->Keep_0,
        reply is Decline ==> res is Ok,
        reply is DeclineWithText ==> (res is Ok) == overlook,
        reply is Refuse ==> res is Err && res->Err_0@ == summary_failure::violation_text(
            reply->Refuse_0,
            reply->Refuse_1,
        ),
        reply is DeclineWithText && !overlook ==> res->Err_0@ == summary_failure::violation_text(
            SummaryFailureReason::InvalidModelOutput,
            "false_requires_empty_summary"@,
        ),
{
}

/// A date is a timestamp with any time behind it: digits, the letters between
/// and behind them, colons, points and the signs of an offset; and with nothing
/// else.
pub proof fn law_times_may_follow_a_date(s: Seq<char>, n: int)
    requires
        s.len() >= 10,
        s[4] == '-' && s[7] == '-',
        forall|i: int| 0 <= i < 10 && i != 4 && i != 7 ==> '0' <= #[trigger] s[i] <= '9',
    ensures
        (forall|i: int|
            10 <= i < s.len() ==> ('0' <= #[trigger] s[i] <= '9') || s[i] == 'T' || s[i] == 't'
                || s[i] == 'Z' || s[i] == 'z' || s[i] == ':' || s[i] == '.' || s[i] == '+' || s[i]
                == '-') ==> is_timestamp(s),
        10 <= n < s.len() && (text::is_white(s[n]) || s[n] == ',' || s[n] == '/' || s[n] >= '\u{7f}')
            ==> !is_timestamp(s),
{
    assert('0' <= s[0] <= '9' && '0' <= s[1] <= '9' && '0' <= s[2] <= '9' && '0' <= s[3] <= '9');
    assert('0' <= s[5] <= '9' && '0' <= s[6] <= '9' && '0' <= s[8] <= '9' && '0' <= s[9] <= '9');
}

} // verus!
