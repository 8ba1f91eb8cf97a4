//! Requests to the language models and what is made of their answers.
use vstd::prelude::*;

pub use crate::generation::{AiClient, AiGenerateOptions, ChatMessage};
use crate::text;

verus! {

pub const GEMINI_DEFAULT_ENDPOINT: &'static str =
    "https://generativelanguage.googleapis.com/v1beta";

/// How often one model is asked with one key.
pub const GEMINI_MAX_ATTEMPTS: usize = 3;

/// The pause after the first failed attempt; later ones grow in step.
pub const GEMINI_RETRY_DELAY_MS: u64 = 100;

pub const GEMINI_REQUEST_TIMEOUT_MS: u64 = 60000;

/// What is wrong with the configured keys.
#[derive(Debug, Clone, Copy, PartialEq, Eq, Structural)]
pub enum GeminiKeyError {
    Missing,
    Invalid,
}

impl GeminiKeyError {
    /// The stable code of the error.
    pub fn code(self) -> (res: &'static str)
        ensures
            res@ == match self {
                GeminiKeyError::Missing => "api_key_missing"@,
                GeminiKeyError::Invalid => "api_key_invalid"@,
            },
    {
        match self {
            GeminiKeyError::Missing => "api_key_missing",
            GeminiKeyError::Invalid => "api_key_invalid",
        }
    }
}

pub open spec fn is_quote(c: char) -> bool {
    c == '\'' || c == '"'
}

/// Whether a text can be a key: it is not empty, holds no white space, control
/// characters or quotation marks, and is no placeholder.
pub open spec fn is_plain_key(key: Seq<char>) -> bool {
    &&& key.len() > 0
    &&& forall|i: int|
        0 <= i < key.len() ==> !text::is_white(#[trigger] key[i]) && !text::is_control(key[i])
            && !is_quote(key[i])
    &&& text::ascii_lowered(key) != "null"@
    &&& text::ascii_lowered(key) != "undefined"@
}

/// The key that one trimmed piece of the configuration gives, between
/// quotation marks or without.
pub open spec fn key_in_piece(piece: Seq<char>) -> Option<Seq<char>> {
    if piece.len() == 0 {
        None
    } else if is_quote(piece[0]) || is_quote(piece.last()) {
        if piece.len() >= 2 && piece[0] == piece.last() && is_plain_key(
            piece.subrange(1, piece.len() - 1),
        ) {
            Some(piece.subrange(1, piece.len() - 1))
        } else {
            None
        }
    } else if is_plain_key(piece) {
        Some(piece)
    } else {
        None
    }
}

/// The pieces of a configuration: what stands between the commas, trimmed.
pub open spec fn key_pieces(configured: Seq<char>) -> Seq<Seq<char>> {
    text::parts(configured, ',').map_values(|part: Seq<char>| text::trimmed(part))
}

/// The keys of a configuration. Without any piece they are missing; where one
/// piece gives no key they are invalid.
pub open spec fn configured_keys(configured: Seq<char>) -> Result<
    Seq<Seq<char>>,
    GeminiKeyError,
> {
    let pieces = key_pieces(configured);
    if forall|i: int| 0 <= i < pieces.len() ==> (#[trigger] pieces[i]).len() == 0 {
        Err(GeminiKeyError::Missing)
    } else if forall|i: int| 0 <= i < pieces.len() ==> key_in_piece(#[trigger] pieces[i]) is Some {
        Ok(pieces.map_values(|piece: Seq<char>| key_in_piece(piece)->0))
    } else {
        Err(GeminiKeyError::Invalid)
    }
}

fn is_quote_char(c: char) -> (res: bool)
    ensures
        res == is_quote(c),
{
    c == '\'' || c == '"'
}

fn is_plain_key_text(key: &str) -> (res: bool)
    ensures
        res == is_plain_key(key@),
{
    let chars = text::chars_of(key);
    if chars.len() == 0 {
        return false;
    }
    let mut i: usize = 0;
    while i < chars.len()
        invariant
            i <= chars@.len(),
            chars@ == key@,
            forall|k: int|
                0 <= k < i ==> !text::is_white(#[trigger] key@[k]) && !text::is_control(key@[k])
                    && !is_quote(key@[k]),
        decreases chars@.len() - i,
    {
        if text::is_white_char(chars[i]) || text::is_control_char(chars[i]) || is_quote_char(
            chars[i],
        ) {
            assert(!is_plain_key(key@)) by {
                let c = key@[i as int];
            }
            return false;
        }
        i += 1;
    }
    let lowered = text::ascii_lower_text(key);
    !text::same_text(lowered.as_str(), "null") && !text::same_text(lowered.as_str(), "undefined")
}

fn key_of_piece(piece: &str) -> (res: Option<String>)
    ensures
        match res {
            Some(key) => key_in_piece(piece@) == Some(key@),
            None => key_in_piece(piece@) is None,
        },
{
    let chars = text::chars_of(piece);
    let len: usize = chars.len();
    if len == 0 {
        return None;
    }
    let first: char = chars[0];
    let last: char = chars[len - 1];
    let key = if is_quote_char(first) || is_quote_char(last) {
        if first != last || len < 2 {
            return None;
        }
        text::string_of_range(&chars, 1, len - 1)
    } else {
        piece.to_owned()
    };
    if is_plain_key_text(key.as_str()) {
        Some(key)
    } else {
        None
    }
}

/// Reads the configured keys, which commas part.
pub fn parse_gemini_api_keys(configured: &str) -> (res: Result<Vec<String>, GeminiKeyError>)
    ensures
        match res {
            Ok(keys) => configured_keys(configured@) == Ok::<Seq<Seq<char>>, GeminiKeyError>(
                text::views(keys@),
            ) && keys@.len() > 0,
            Err(error) => configured_keys(configured@) == Err::<Seq<Seq<char>>, GeminiKeyError>(
                error,
            ),
        },
{
    let parts = text::split_at_char(configured, ',');
    let ghost pieces = key_pieces(configured@);
    let mut trimmed: Vec<String> = Vec::new();
    let mut any = false;
    let mut i: usize = 0;
    while i < parts.len()
        invariant
            i <= parts@.len(),
            pieces == key_pieces(configured@),
            text::views(parts@) == text::parts(configured@, ','),
            pieces.len() == parts@.len(),
            text::views(trimmed@) == pieces.take(i as int),
            any <==> exists|k: int| 0 <= k < i && (#[trigger] pieces[k]).len() > 0,
        decreases parts@.len() - i,
    {
        let ghost before = trimmed@;
        let piece = text::trim_text(parts[i].as_str());
        assert(text::parts(configured@, ',')[i as int] == parts@[i as int]@);
        assert(piece@ == pieces[i as int]);
        if !piece.as_str().is_empty() {
            any = true;
        }
        trimmed.push(piece);
        assert(text::views(trimmed@) == text::views(before).push(piece@));
        i += 1;
        assert(pieces.take(i as int) == pieces.take(i - 1).push(pieces[i - 1]));
    }
    assert(pieces.take(i as int) == pieces);
    if !any {
        return Err(GeminiKeyError::Missing);
    }
    let mut keys: Vec<String> = Vec::new();
    let mut j: usize = 0;
    while j < trimmed.len()
        invariant
            j <= trimmed@.len(),
            pieces == key_pieces(configured@),
            pieces == text::views(trimmed@),
            exists|k: int| 0 <= k < pieces.len() && (#[trigger] pieces[k]).len() > 0,
            forall|k: int| 0 <= k < j ==> key_in_piece(#[trigger] pieces[k]) is Some,
            text::views(keys@) == pieces.take(j as int).map_values(
                |piece: Seq<char>| key_in_piece(piece)->0,
            ),
        decreases trimmed@.len() - j,
    {
        let ghost before = keys@;
        assert(pieces[j as int] == trimmed@[j as int]@);
        match key_of_piece(trimmed[j].as_str()) {
            Some(key) => {
                keys.push(key);
                assert(text::views(keys@) == text::views(before).push(key@));
            },
            None => {
                return Err(GeminiKeyError::Invalid);
            },
        }
        j += 1;
        assert(pieces.take(j as int) == pieces.take(j - 1).push(pieces[j - 1]));
    }
    assert(pieces.take(j as int) == pieces);
    Ok(keys)
}

/// Tells what is wrong with the configured keys, if anything is.
pub fn validate_gemini_api_key(configured: &str) -> (res: Result<(), GeminiKeyError>)
    ensures
        match res {
            Ok(_) => configured_keys(configured@) is Ok,
            Err(error) => configured_keys(configured@) == Err::<Seq<Seq<char>>, GeminiKeyError>(
                error,
            ),
        },
{
    match parse_gemini_api_keys(configured) {
        Ok(_) => Ok(()),
        Err(error) => Err(error),
    }
}

proof fn lemma_parts_of_blank(s: Seq<char>, separator: char, from: int)
    requires
        text::is_blank(s),
        0 <= from <= s.len(),
    ensures
        forall|i: int|
            0 <= i < text::parts_from(s, separator, from).len() ==> text::is_blank(
                #[trigger] text::parts_from(s, separator, from)[i],
            ),
    decreases s.len() - from,
{
    text::lemma_find_from(s, seq![separator], from);
    let whole = text::parts_from(s, separator, from);
    match text::find_from(s, seq![separator], from) {
        Some(at) => {
            lemma_parts_of_blank(s, separator, at + 1);
            let rest = text::parts_from(s, separator, at + 1);
            let first = s.subrange(from, at);
            assert(whole == seq![first] + rest);
            assert forall|i: int| 0 <= i < whole.len() implies text::is_blank(
                #[trigger] whole[i],
            ) by {
                if i == 0 {
                    assert forall|k: int| 0 <= k < first.len() implies text::is_white(
                        #[trigger] first[k],
                    ) by {
                        assert(first[k] == s[from + k]);
                    }
                } else {
                    assert(whole[i] == rest[i - 1]);
                }
            }
        },
        None => {
            assert forall|k: int| 0 <= k < s.skip(from).len() implies text::is_white(
                #[trigger] s.skip(from)[k],
            ) by {
                assert(s.skip(from)[k] == s[from + k]);
            }
        },
    }
}

/// A blank configuration holds no keys.
pub proof fn law_blank_configuration_is_missing(configured: Seq<char>)
    requires
        text::is_blank(configured),
    ensures
        configured_keys(configured) == Err::<Seq<Seq<char>>, GeminiKeyError>(
            GeminiKeyError::Missing,
        ),
{
    lemma_parts_of_blank(configured, ',', 0);
    let parts = text::parts(configured, ',');
    let pieces = key_pieces(configured);
    assert forall|i: int| 0 <= i < pieces.len() implies (#[trigger] pieces[i]).len() == 0 by {
        assert(text::is_blank(parts[i]));
        text::lemma_blank_iff_trimmed_empty(parts[i]);
    }
}

/// Every key that is accepted can be sent as it is: it is not empty and holds
/// neither white space nor control characters nor quotation marks.
pub proof fn law_accepted_keys_are_plain(configured: Seq<char>)
    ensures
        configured_keys(configured) matches Ok(keys) ==> keys.len() > 0 && forall|i: int|
            0 <= i < keys.len() ==> is_plain_key(#[trigger] keys[i]),
{
    let pieces = key_pieces(configured);
    if configured_keys(configured) is Ok {
        let keys = configured_keys(configured)->Ok_0;
        assert forall|i: int| 0 <= i < keys.len() implies is_plain_key(#[trigger] keys[i]) by {
            assert(key_in_piece(pieces[i]) is Some);
        }
        assert(exists|i: int| 0 <= i < pieces.len() && (#[trigger] pieces[i]).len() > 0);
    }
}

/// Whether an HTTP status is worth another attempt.
pub open spec fn is_retryable(status: u16) -> bool {
    status == 408 || status == 425 || status == 429 || status == 500 || status == 502 || status
        == 503 || status == 504
}

/// Tells whether an HTTP status is worth another attempt.
pub fn retryable_status(status: u16) -> (res: bool)
    ensures
        res == is_retryable(status),
{
    status == 408 || status == 425 || status == 429 || status == 500 || status == 502 || status
        == 503 || status == 504
}

/// Whether a character ends the value of a query parameter.
pub open spec fn ends_value(c: char) -> bool {
    c == '&' || c == ')' || c == ' ' || c == '"' || c == '\'' || c == '\n' || c == '\r'
}

/// The text from `from` on with the value after every `marker` replaced.
pub open spec fn redacted_from(s: Seq<char>, marker: Seq<char>, from: int) -> Seq<char>
    decreases s.len() - from,
{
    if from < 0 || from > s.len() || marker.len() == 0 {
        Seq::empty()
    } else {
        match text::find_from(s, marker, from) {
            Some(at) => {
                let value = at + marker.len();
                let end = text::stop_from(s, value, |c: char| ends_value(c));
                if from <= at && value <= end <= s.len() {
                    s.subrange(from, value) + "[REDACTED]"@ + redacted_from(s, marker, end)
                } else {
                    Seq::empty()
                }
            },
            None => s.skip(from),
        }
    }
}

/// The message without the values of key parameters.
pub open spec fn sanitized(message: Seq<char>) -> Seq<char> {
    redacted_from(redacted_from(message, "?key="@, 0), "&key="@, 0)
}

proof fn lemma_stop_from(s: Seq<char>, i: int, stop: spec_fn(char) -> bool)
    requires
        0 <= i <= s.len(),
    ensures
        i <= text::stop_from(s, i, stop) <= s.len(),
        text::stop_from(s, i, stop) < s.len() ==> stop(s[text::stop_from(s, i, stop)]),
    decreases s.len() - i,
{
    if i < s.len() && !stop(s[i]) {
        lemma_stop_from(s, i + 1, stop);
    }
}

proof fn lemma_stops_at(s: Seq<char>, i: int, stop: spec_fn(char) -> bool, end: int)
    requires
        0 <= i <= end <= s.len(),
        forall|k: int| i <= k < end ==> !stop(#[trigger] s[k]),
        end < s.len() ==> stop(s[end]),
    ensures
        text::stop_from(s, i, stop) == end,
    decreases end - i,
{
    if i < end {
        lemma_stops_at(s, i + 1, stop, end);
    }
}

fn value_end(chars: &Vec<char>, from: usize) -> (res: usize)
    requires
        from <= chars@.len(),
    ensures
        res == text::stop_from(chars@, from as int, |c: char| ends_value(c)),
        from <= res <= chars@.len(),
{
    let mut i: usize = from;
    while i < chars.len() && !(chars[i] == '&' || chars[i] == ')' || chars[i] == ' ' || chars[i]
        == '"' || chars[i] == '\'' || chars[i] == '\n' || chars[i] == '\r')
        invariant
            from <= i <= chars@.len(),
            text::stop_from(chars@, from as int, |c: char| ends_value(c)) == text::stop_from(
                chars@,
                i as int,
                |c: char| ends_value(c),
            ),
        decreases chars@.len() - i,
    {
        i += 1;
    }
    i
}

fn redact_values(message: &str, marker: &str) -> (res: String)
    requires
        marker@.len() > 0,
    ensures
        res@ == redacted_from(message@, marker@, 0),
{
    let chars = text::chars_of(message);
    let needle = text::chars_of(marker);
    let total: usize = chars.len();
    let mut res = String::new();
    let mut from: usize = 0;
    loop
        invariant
            from <= total,
            total == chars@.len(),
            chars@ == message@,
            needle@ == marker@,
            marker@.len() > 0,
            res@ + redacted_from(message@, marker@, from as int) == redacted_from(
                message@,
                marker@,
                0,
            ),
        decreases total - from,
    {
        let ghost before = res@;
        match text::find_text_from(&chars, &needle, from) {
            Some(at) => {
                let value: usize = at + needle.len();
                let end: usize = value_end(&chars, value);
                let kept = text::string_of_range(&chars, from, value);
                text::append_text(&mut res, kept.as_str());
                text::append_text(&mut res, "[REDACTED]");
                assert(before + (message@.subrange(from as int, value as int) + "[REDACTED]"@
                    + redacted_from(message@, marker@, end as int)) == res@ + redacted_from(
                    message@,
                    marker@,
                    end as int,
                ));
                from = end;
            },
            None => {
                let rest = text::string_of_range(&chars, from, total);
                text::append_text(&mut res, rest.as_str());
                assert(message@.skip(from as int) == message@.subrange(from as int, total as int));
                return res;
            },
        }
    }
}

/// Removes the values of key parameters from the message of a failed request,
/// so that no key reaches a log or a user.
pub fn sanitize_transport_error(message: &str) -> (res: String)
    ensures
        res@ == sanitized(message@),
{
    proof {
        reveal_strlit("?key=");
        reveal_strlit("&key=");
    }
    let first = redact_values(message, "?key=");
    redact_values(first.as_str(), "&key=")
}

/// A message without key parameters stays as it is.
pub proof fn law_messages_without_keys_are_unchanged(message: Seq<char>)
    requires
        !text::contains_text(message, "?key="@),
        !text::contains_text(message, "&key="@),
    ensures
        sanitized(message) == message,
{
    reveal_strlit("?key=");
    reveal_strlit("&key=");
    lemma_nothing_to_redact(message, "?key="@);
    lemma_nothing_to_redact(message, "&key="@);
}

proof fn lemma_nothing_to_redact(message: Seq<char>, marker: Seq<char>)
    requires
        marker.len() > 0,
        !text::contains_text(message, marker),
    ensures
        redacted_from(message, marker, 0) == message,
{
    text::lemma_find_from(message, marker, 0);
    if let Some(at) = text::find_from(message, marker, 0) {
        assert(text::occurs_at(message, marker, at));
    }
    assert(message.skip(0) == message);
}

/// Whether a place is behind the end of a value: the end of the text, or a
/// character that ends values.
pub open spec fn value_ends_at(s: Seq<char>, at: int) -> bool {
    at == s.len() || (0 <= at < s.len() && ends_value(s[at]))
}

/// Whether the value of every `marker` in a text is the replacement, and
/// nothing but that.
pub open spec fn values_are_redacted(s: Seq<char>, marker: Seq<char>) -> bool {
    forall|at: int| #[trigger]
        text::occurs_at(s, marker, at) ==> text::occurs_at(s, "[REDACTED]"@, at + marker.len())
            && value_ends_at(s, at + marker.len() + 10)
}

/// The two markers of key parameters, which differ in their first character.
pub open spec fn is_key_marker(marker: Seq<char>) -> bool {
    marker == seq!['?', 'k', 'e', 'y', '='] || marker == seq!['&', 'k', 'e', 'y', '=']
}

proof fn lemma_occurs_in_prefix(a: Seq<char>, b: Seq<char>, needle: Seq<char>, at: int)
    requires
        0 <= at,
        at + needle.len() <= a.len(),
    ensures
        text::occurs_at(a + b, needle, at) <==> text::occurs_at(a, needle, at),
{
    assert((a + b).subrange(at, at + needle.len()) == a.subrange(at, at + needle.len()));
}

proof fn lemma_occurs_in_suffix(a: Seq<char>, b: Seq<char>, needle: Seq<char>, at: int)
    requires
        a.len() <= at,
    ensures
        text::occurs_at(a + b, needle, at) <==> text::occurs_at(b, needle, at - a.len()),
{
    if at + needle.len() <= (a + b).len() {
        assert((a + b).subrange(at, at + needle.len()) == b.subrange(
            at - a.len(),
            at - a.len() + needle.len(),
        ));
    }
}

proof fn lemma_char_of_occurrence(s: Seq<char>, needle: Seq<char>, at: int, k: int)
    requires
        text::occurs_at(s, needle, at),
        0 <= k < needle.len(),
    ensures
        s[at + k] == needle[k],
{
    assert(s.subrange(at, at + needle.len())[k] == s[at + k]);
}

/// Behind a value the redaction begins with what stands there.
proof fn lemma_redaction_starts_alike(s: Seq<char>, marker: Seq<char>, from: int)
    requires
        is_key_marker(marker),
        0 <= from <= s.len(),
    ensures
        from == s.len() ==> redacted_from(s, marker, from).len() == 0,
        from < s.len() ==> redacted_from(s, marker, from).len() > 0 && redacted_from(
            s,
            marker,
            from,
        )[0] == s[from],
{
    text::lemma_find_from(s, marker, from);
    if let Some(found) = text::find_from(s, marker, from) {
        let value = found + 5;
        let end = text::stop_from(s, value, |c: char| ends_value(c));
        lemma_stop_from(s, value, |c: char| ends_value(c));
        assert(s.subrange(from, value)[0] == s[from]);
    }
}

/// Redacting the values after one marker leaves every value after it, and
/// every value after the other marker that was redacted before, redacted.
#[verifier::rlimit(30)]
#[verifier::spinoff_prover]
proof fn lemma_redaction(s: Seq<char>, marker: Seq<char>, other: Seq<char>, from: int)
    requires
        is_key_marker(marker),
        is_key_marker(other),
        marker != other ==> values_are_redacted(s, other),
        0 <= from <= s.len(),
    ensures
        values_are_redacted(redacted_from(s, marker, from), other),
    decreases s.len() - from,
{
    reveal_strlit("[REDACTED]");
    let mask = "[REDACTED]"@;
    let whole = redacted_from(s, marker, from);
    text::lemma_find_from(s, marker, from);
    match text::find_from(s, marker, from) {
        None => {
            assert(whole == s.skip(from));
            assert forall|at: int| #[trigger] text::occurs_at(whole, other, at) implies text::occurs_at(
                whole,
                mask,
                at + other.len(),
            ) && value_ends_at(whole, at + other.len() + 10) by {
                assert(s.subrange(from + at, from + at + 5) == whole.subrange(at, at + 5));
                assert(text::occurs_at(s, other, from + at));
                if marker == other {
                    assert(false);
                }
                assert(s.subrange(from + at + 5, from + at + 15) == whole.subrange(
                    at + 5,
                    at + 15,
                ));
                assert(value_ends_at(s, from + at + 15));
            }
        },
        Some(found) => {
            let value = found + 5;
            let end = text::stop_from(s, value, |c: char| ends_value(c));
            lemma_stop_from(s, value, |c: char| ends_value(c));
            lemma_redaction(s, marker, other, end);
            lemma_redaction_starts_alike(s, marker, end);
            let head = s.subrange(from, value);
            let rest = redacted_from(s, marker, end);
            let front = head + mask;
            assert(whole == front + rest);
            assert forall|at: int| #[trigger] text::occurs_at(whole, other, at) implies text::occurs_at(
                whole,
                mask,
                at + other.len(),
            ) && value_ends_at(whole, at + other.len() + 10) by {
                lemma_char_of_occurrence(whole, other, at, 0);
                if at >= front.len() {
                    lemma_occurs_in_suffix(front, rest, other, at);
                    assert(text::occurs_at(rest, mask, at - front.len() + 5));
                    lemma_occurs_in_suffix(front, rest, mask, at + 5);
                    assert(value_ends_at(rest, at - front.len() + 15));
                } else if at >= head.len() {
                    // The first character of a marker does not stand in the
                    // replacement.
                    assert(whole[at] == mask[at - head.len()]);
                } else if at + 5 > head.len() {
                    // Nor does the replacement begin within a marker.
                    lemma_char_of_occurrence(whole, other, at, head.len() - at);
                    assert(whole[head.len() as int] == mask[0]);
                } else {
                    lemma_occurs_in_prefix(head, mask + rest, other, at);
                    assert(front + rest == head + (mask + rest));
                    assert(s.subrange(from + at, from + at + 5) == head.subrange(at, at + 5));
                    assert(text::occurs_at(s, other, from + at));
                    lemma_markers_do_not_overlap(s, marker, other, found, from + at);
                    if from + at == found {
                        assert(whole.subrange(at + 5, at + 15) == mask);
                        assert(at + 15 == front.len());
                        if end < s.len() {
                            assert(whole[at + 15] == rest[0]);
                        }
                    } else {
                        assert(other != marker) by {
                            if other == marker {
                                assert(from <= from + at < found);
                            }
                        }
                        // The earlier replacement ends before the marker.
                        assert(text::occurs_at(s, mask, from + at + 5));
                        if found < from + at + 15 {
                            lemma_char_of_occurrence(s, marker, found, 0);
                            lemma_char_of_occurrence(s, mask, from + at + 5, found - from - at - 5);
                        }
                        assert(whole.subrange(at + 5, at + 15) == s.subrange(
                            from + at + 5,
                            from + at + 15,
                        ));
                        assert(value_ends_at(s, from + at + 15));
                        assert(whole[at + 15] == s[from + at + 15]);
                    }
                }
            }
        },
    }
}

/// Where the values are redacted already, redacting them changes nothing.
proof fn lemma_redacted_stays(s: Seq<char>, marker: Seq<char>, from: int)
    requires
        is_key_marker(marker),
        values_are_redacted(s, marker),
        0 <= from <= s.len(),
    ensures
        redacted_from(s, marker, from) == s.skip(from),
    decreases s.len() - from,
{
    reveal_strlit("[REDACTED]");
    let mask = "[REDACTED]"@;
    let stop = |c: char| ends_value(c);
    text::lemma_find_from(s, marker, from);
    if let Some(found) = text::find_from(s, marker, from) {
        let value = found + 5;
        assert(text::occurs_at(s, marker, found));
        assert(text::occurs_at(s, mask, value) && value_ends_at(s, value + 10));
        assert forall|k: int| value <= k < value + 10 implies !stop(#[trigger] s[k]) by {
            lemma_char_of_occurrence(s, mask, value, k - value);
        }
        lemma_stops_at(s, value, stop, value + 10);
        lemma_redacted_stays(s, marker, value + 10);
        assert(s.skip(from) == s.subrange(from, value) + mask + s.skip(value + 10)) by {
            assert(s.subrange(value, value + 10) == mask);
        }
    }
}

/// Two markers stand either at the same place or apart from each other.
proof fn lemma_markers_do_not_overlap(
    s: Seq<char>,
    a: Seq<char>,
    b: Seq<char>,
    i: int,
    j: int,
)
    requires
        is_key_marker(a),
        is_key_marker(b),
        text::occurs_at(s, a, i),
        text::occurs_at(s, b, j),
        j <= i,
    ensures
        i == j ==> a == b,
        i != j ==> j + 5 <= i,
{
    lemma_char_of_occurrence(s, a, i, 0);
    if i - j < 5 {
        lemma_char_of_occurrence(s, b, j, i - j);
    }
}

/// In a sanitized message the value of every key parameter is the replacement.
pub proof fn law_no_key_value_is_left(message: Seq<char>)
    ensures
        values_are_redacted(sanitized(message), "?key="@),
        values_are_redacted(sanitized(message), "&key="@),
{
    reveal_strlit("?key=");
    reveal_strlit("&key=");
    let question = seq!['?', 'k', 'e', 'y', '='];
    let ampersand = seq!['&', 'k', 'e', 'y', '='];
    assert("?key="@ == question);
    assert("&key="@ == ampersand);
    let first = redacted_from(message, question, 0);
    lemma_redaction(message, question, question, 0);
    lemma_redaction(first, ampersand, question, 0);
    lemma_redaction(first, ampersand, ampersand, 0);
}

/// Sanitizing a message twice is sanitizing it once.
pub proof fn law_sanitizing_twice(message: Seq<char>)
    ensures
        sanitized(sanitized(message)) == sanitized(message),
{
    reveal_strlit("?key=");
    reveal_strlit("&key=");
    assert("?key="@ == seq!['?', 'k', 'e', 'y', '=']);
    assert("&key="@ == seq!['&', 'k', 'e', 'y', '=']);
    let once = sanitized(message);
    law_no_key_value_is_left(message);
    lemma_redacted_stays(once, "?key="@, 0);
    assert(once.skip(0) == once);
    lemma_redacted_stays(once, "&key="@, 0);
}

/// The text without the blocks between `open` and `close`. The end of a block
/// is looked for `skip` characters after its beginning; a block without end
/// takes the rest of the text with it.
pub open spec fn without_blocks(s: Seq<char>, open: Seq<char>, skip: int, close: Seq<char>) -> Seq<
    char,
>
    decreases s.len(),
{
    match text::find_from(s, open, 0) {
        None => s,
        Some(start) => match text::find_from(s, close, start + skip) {
            Some(end) => if 0 <= start <= end && end + close.len() <= s.len() && close.len() > 0 {
                without_blocks(s.take(start) + s.skip(end + close.len()), open, skip, close)
            } else {
                s
            },
            None => s.take(start),
        },
    }
}

/// The answer without the traces of the model's thoughts.
pub open spec fn without_thoughts(answer: Seq<char>) -> Seq<char> {
    text::trimmed(
        without_blocks(
            without_blocks(
                without_blocks(answer, "<thought>"@, 0, "</thought>"@),
                "*thought*"@,
                9,
                "*thought*"@,
            ),
            "```thought"@,
            10,
            "```"@,
        ),
    )
}

fn remove_blocks(source: String, open: &str, skip: usize, close: &str) -> (res: String)
    requires
        close@.len() > 0,
        skip <= open@.len(),
    ensures
        res@ == without_blocks(source@, open@, skip as int, close@),
{
    let opening = text::chars_of(open);
    let closing = text::chars_of(close);
    let mut current = source;
    loop
        invariant
            opening@ == open@,
            closing@ == close@,
            close@.len() > 0,
            skip <= open@.len(),
            without_blocks(current@, open@, skip as int, close@) == without_blocks(
                source@,
                open@,
                skip as int,
                close@,
            ),
        decreases current@.len(),
    {
        let chars = text::chars_of(current.as_str());
        let total: usize = chars.len();
        match text::find_text_from(&chars, &opening, 0) {
            None => {
                return current;
            },
            Some(start) => {
                assert(current@.take(start as int) == current@.subrange(0, start as int));
                let head = text::string_of_range(&chars, 0, start);
                match text::find_text_from(&chars, &closing, start + skip) {
                    None => {
                        return head;
                    },
                    Some(end) => {
                        let after: usize = end + closing.len();
                        assert(current@.skip(after as int) == current@.subrange(
                            after as int,
                            total as int,
                        ));
                        let tail = text::string_of_range(&chars, after, total);
                        let mut joined = head;
                        text::append_text(&mut joined, tail.as_str());
                        current = joined;
                    },
                }
            },
        }
    }
}

/// Removes the traces of the model's thoughts from an answer.
pub fn strip_thought_artifacts(answer: &str) -> (res: String)
    ensures
        res@ == without_thoughts(answer@),
{
    proof {
        reveal_strlit("<thought>");
        reveal_strlit("</thought>");
        reveal_strlit("*thought*");
        reveal_strlit("```thought");
        reveal_strlit("```");
    }
    let tags = remove_blocks(answer.to_owned(), "<thought>", 0, "</thought>");
    let stars = remove_blocks(tags, "*thought*", 9, "*thought*");
    let fences = remove_blocks(stars, "```thought", 10, "```");
    text::trim_text(fences.as_str())
}

proof fn lemma_no_block_is_left(s: Seq<char>, open: Seq<char>, skip: int, close: Seq<char>)
    requires
        close.len() > 0,
        open.len() > 0,
        0 <= skip,
    ensures
        !text::contains_text(without_blocks(s, open, skip, close), open),
    decreases s.len(),
{
    text::lemma_find_from(s, open, 0);
    match text::find_from(s, open, 0) {
        None => {
            assert forall|at: int| !text::occurs_at(s, open, at) by {}
        },
        Some(start) => {
            text::lemma_find_from(s, close, start + skip);
            match text::find_from(s, close, start + skip) {
                Some(end) => {
                    lemma_no_block_is_left(
                        s.take(start) + s.skip(end + close.len()),
                        open,
                        skip,
                        close,
                    );
                },
                None => {
                    assert forall|at: int| !text::occurs_at(s.take(start), open, at) by {
                        if text::occurs_at(s.take(start), open, at) {
                            assert(s.subrange(at, at + open.len()) == s.take(start).subrange(
                                at,
                                at + open.len(),
                            ));
                            assert(text::occurs_at(s, open, at));
                        }
                    }
                },
            }
        },
    }
}

/// No block of thoughts in a code fence begins in a cleaned answer.
pub proof fn law_no_thought_fence_is_left(answer: Seq<char>)
    ensures
        !text::contains_text(without_thoughts(answer), "```thought"@),
{
    reveal_strlit("```thought");
    reveal_strlit("```");
    let stars = without_blocks(
        without_blocks(answer, "<thought>"@, 0, "</thought>"@),
        "*thought*"@,
        9,
        "*thought*"@,
    );
    let fences = without_blocks(stars, "```thought"@, 10, "```"@);
    lemma_no_block_is_left(stars, "```thought"@, 10, "```"@);
    text::lemma_trimmed_is_part(fences);
    let clean = text::trimmed(fences);
    let open = "```thought"@;
    assert forall|k: int| !text::occurs_at(clean, open, k) by {
        if text::occurs_at(clean, open, k) {
            let at = choose|at: int|
                0 <= at && at + clean.len() <= fences.len() && #[trigger] fences.subrange(
                    at,
                    at + clean.len(),
                ) == clean;
            assert(fences.subrange(at + k, at + k + open.len()) == clean.subrange(
                k,
                k + open.len(),
            ));
            assert(text::occurs_at(fences, open, at + k));
        }
    }
}

/// An answer without marks of thoughts is only trimmed.
pub proof fn law_plain_answers_are_kept(answer: Seq<char>)
    requires
        !text::contains_text(answer, "<thought>"@),
        !text::contains_text(answer, "*thought*"@),
        !text::contains_text(answer, "```thought"@),
    ensures
        without_thoughts(answer) == text::trimmed(answer),
{
    text::lemma_find_from(answer, "<thought>"@, 0);
    text::lemma_find_from(answer, "*thought*"@, 0);
    text::lemma_find_from(answer, "```thought"@, 0);
    if let Some(at) = text::find_from(answer, "<thought>"@, 0) {
        assert(text::occurs_at(answer, "<thought>"@, at));
    }
    if let Some(at) = text::find_from(answer, "*thought*"@, 0) {
        assert(text::occurs_at(answer, "*thought*"@, at));
    }
    if let Some(at) = text::find_from(answer, "```thought"@, 0) {
        assert(text::occurs_at(answer, "```thought"@, at));
    }
}

proof fn lemma_the_comma_is_found(a: Seq<char>, b: Seq<char>)
    requires
        !a.contains(','),
        !b.contains(','),
    ensures
        text::find_from(a + seq![','] + b, seq![','], 0) == Some(a.len() as int),
        text::find_from(a + seq![','] + b, seq![','], a.len() as int + 1) is None,
{
    let s = a + seq![','] + b;
    let mark = seq![','];
    let at = a.len() as int;
    assert forall|k: int| 0 <= k < s.len() && k != at implies s[k] != ',' by {
        if k < at {
            assert(a.contains(a[k]));
        } else {
            assert(b.contains(b[k - at - 1]));
        }
    }
    assert forall|k: int| k != at implies !text::occurs_at(s, mark, k) by {
        if text::occurs_at(s, mark, k) {
            assert(s.subrange(k, k + 1)[0] == s[k]);
        }
    }
    assert(s.subrange(at, at + 1) == mark);
    assert(text::occurs_at(s, mark, at));
    text::lemma_find_from(s, mark, 0);
    text::lemma_find_from(s, mark, at + 1);
}

proof fn lemma_two_parts(a: Seq<char>, b: Seq<char>)
    requires
        !a.contains(','),
        !b.contains(','),
    ensures
        text::parts(a + seq![','] + b, ',') == seq![a, b],
{
    let s = a + seq![','] + b;
    let at = a.len() as int;
    lemma_the_comma_is_found(a, b);
    assert(s.subrange(0, at) == a);
    assert(s.skip(at + 1) == b);
    assert(text::parts_from(s, ',', at + 1) == seq![b]);
    assert(text::parts_from(s, ',', 0) == seq![a] + seq![b]);
}

proof fn lemma_solid_texts_are_not_trimmed(s: Seq<char>)
    requires
        s.len() > 0,
        !text::is_white(s[0]),
        !text::is_white(s.last()),
    ensures
        text::trimmed(s) == s,
{
}

/// A key without white space, control characters, quotation marks and commas
/// is accepted as it is, between quotation marks or without, and so are two of
/// them with a comma between them, in their order; the words that stand for a
/// missing value are not.
pub proof fn law_plain_keys_are_accepted(a: Seq<char>, b: Seq<char>)
    requires
        a.len() > 0,
        b.len() > 0,
        forall|i: int|
            0 <= i < a.len() ==> !text::is_white(#[trigger] a[i]) && !text::is_control(a[i]) && a[i]
                != '\'' && a[i] != '"' && a[i] != ',',
        forall|i: int|
            0 <= i < b.len() ==> !text::is_white(#[trigger] b[i]) && !text::is_control(b[i]) && b[i]
                != '\'' && b[i] != '"' && b[i] != ',',
    ensures
        ({
            let known = text::ascii_lowered(a) != "null"@ && text::ascii_lowered(a)
                != "undefined"@;
            let both = known && text::ascii_lowered(b) != "null"@ && text::ascii_lowered(b)
                != "undefined"@;
            &&& known ==> configured_keys(a) == Ok::<Seq<Seq<char>>, GeminiKeyError>(seq![a])
            &&& known ==> configured_keys(seq!['"'] + a + seq!['"']) == Ok::<
                Seq<Seq<char>>,
                GeminiKeyError,
            >(seq![a])
            &&& both ==> configured_keys(a + seq![','] + b) == Ok::<
                Seq<Seq<char>>,
                GeminiKeyError,
            >(seq![a, b])
            &&& !known ==> configured_keys(a) == Err::<Seq<Seq<char>>, GeminiKeyError>(
                GeminiKeyError::Invalid,
            )
        }),
{
    let known = text::ascii_lowered(a) != "null"@ && text::ascii_lowered(a) != "undefined"@;
    let both = known && text::ascii_lowered(b) != "null"@ && text::ascii_lowered(b)
        != "undefined"@;
    lemma_solid_texts_are_not_trimmed(a);
    lemma_solid_texts_are_not_trimmed(b);
    assert(!a.contains(',') && !b.contains(','));
    text::law_splitting_loses_nothing(a, ',');
    assert(key_pieces(a) == seq![a]);
    assert(key_pieces(a)[0].len() > 0);
    assert(known ==> is_plain_key(a));
    assert(key_in_piece(a) == if known {
        Some(a)
    } else {
        None
    });
    if known {
        assert(configured_keys(a)->Ok_0 == seq![a]);
    } else {
        assert(key_in_piece(key_pieces(a)[0]) is None);
    }
    let quoted = seq!['"'] + a + seq!['"'];
    assert(!quoted.contains(','));
    assert(quoted[0] == '"' && quoted.last() == '"');
    lemma_solid_texts_are_not_trimmed(quoted);
    text::law_splitting_loses_nothing(quoted, ',');
    assert(key_pieces(quoted) == seq![quoted]);
    assert(quoted.subrange(1, quoted.len() - 1) == a);
    assert(key_pieces(quoted)[0].len() > 0);
    if known {
        assert(key_in_piece(quoted) == Some(a));
        assert(configured_keys(quoted)->Ok_0 == seq![a]);
    }
    let pair = a + seq![','] + b;
    lemma_two_parts(a, b);
    assert(key_pieces(pair) == seq![a, b]);
    assert(key_pieces(pair)[0].len() > 0);
    if both {
        assert(is_plain_key(b));
        assert(key_in_piece(b) == Some(b));
        assert(configured_keys(pair)->Ok_0 == seq![a, b]);
    }
}

/// One piece that is no key makes the whole configuration invalid: with white
/// space or a quotation mark inside, or with a quotation mark at one end only.
pub proof fn law_one_bad_key_spoils_all(configured: Seq<char>, i: int, k: int)
    requires
        0 <= i < text::parts(configured, ',').len(),
        ({
            let piece = text::trimmed(text::parts(configured, ',')[i]);
            ||| piece.len() >= 3 && 0 < k < piece.len() - 1 && (text::is_white(piece[k])
                || text::is_control(piece[k]) || piece[k] == '"' || piece[k] == '\'')
            ||| piece.len() >= 1 && piece[0] == '"' && piece.last() != '"'
            ||| piece.len() >= 1 && piece[0] == '\'' && piece.last() != '\''
        }),
    ensures
        configured_keys(configured) == Err::<Seq<Seq<char>>, GeminiKeyError>(
            GeminiKeyError::Invalid,
        ),
{
    let pieces = key_pieces(configured);
    let piece = text::trimmed(text::parts(configured, ',')[i]);
    assert(pieces[i] == piece);
    if piece.len() >= 3 && 0 < k < piece.len() - 1 && (text::is_white(piece[k])
        || text::is_control(piece[k]) || piece[k] == '"' || piece[k] == '\'') {
        let inner = piece.subrange(1, piece.len() - 1);
        assert(inner[k - 1] == piece[k]);
        assert(!is_plain_key(inner));
        assert(!is_plain_key(piece));
    }
    assert(key_in_piece(pieces[i]) is None);
}

/// A thought between its tags is removed with them, and what stands before and
/// after it is kept; a thought that does not end takes the rest with it.
pub proof fn law_tagged_thoughts_are_removed(answer: Seq<char>, start: int, end: int)
    requires
        text::occurs_at(answer, "<thought>"@, start),
        forall|k: int| k < start ==> !text::occurs_at(answer, "<thought>"@, k),
        ({
            let rest = if end >= 0 {
                answer.take(start) + answer.skip(end + 10)
            } else {
                answer.take(start)
            };
            &&& !text::contains_text(rest, "<thought>"@)
            &&& !text::contains_text(rest, "*thought*"@)
            &&& !text::contains_text(rest, "```thought"@)
        }),
        end >= 0 ==> start <= end && text::occurs_at(answer, "</thought>"@, end) && forall|k: int|
            start <= k < end ==> !text::occurs_at(answer, "</thought>"@, k),
        end < 0 ==> forall|k: int| start <= k ==> !text::occurs_at(answer, "</thought>"@, k),
    ensures
        end >= 0 ==> without_thoughts(answer) == text::trimmed(
            answer.take(start) + answer.skip(end + 10),
        ),
        end < 0 ==> without_thoughts(answer) == text::trimmed(answer.take(start)),
{
    reveal_strlit("</thought>");
    let open = "<thought>"@;
    let close = "</thought>"@;
    text::lemma_find_from(answer, open, 0);
    text::lemma_find_from(answer, close, start);
    assert(text::find_from(answer, open, 0) == Some(start));
    let rest = if end >= 0 {
        answer.take(start) + answer.skip(end + 10)
    } else {
        answer.take(start)
    };
    if end >= 0 {
        assert(text::find_from(answer, close, start) == Some(end));
    } else {
        assert(text::find_from(answer, close, start) is None);
    }
    text::lemma_find_from(rest, open, 0);
    if let Some(at) = text::find_from(rest, open, 0) {
        assert(text::occurs_at(rest, open, at));
    }
    assert(without_blocks(rest, open, 0, close) == rest);
    assert(without_blocks(answer, open, 0, close) == rest);
    law_plain_answers_are_kept(rest);
}

/// Only failures that pass are worth another attempt: a request that took too
/// long, came too early or came too often, and the failures of a server that
/// is there but cannot answer now. No success is, and no other refusal.
pub proof fn law_only_passing_failures_are_retried(status: u16)
    ensures
        status < 400 ==> !is_retryable(status),
        400 <= status < 500 ==> is_retryable(status) == (status == 408 || status == 425 || status
            == 429),
        500 <= status ==> is_retryable(status) == (status <= 504 && status != 501),
{
}

/// A message around the value of a key parameter.
spec fn with_value(before: Seq<char>, mark: char, value: Seq<char>, rest: Seq<char>) -> Seq<char> {
    before + seq![mark, 'k', 'e', 'y', '='] + value + rest
}

proof fn lemma_places_around_a_value(
    before: Seq<char>,
    mark: char,
    value: Seq<char>,
    rest: Seq<char>,
    k: int,
)
    ensures
        ({
            let s = with_value(before, mark, value, rest);
            let at = before.len() as int;
            let end = at + 5 + value.len();
            &&& s.len() == end + rest.len()
            &&& 0 <= k < at ==> s[k] == before[k]
            &&& s[at] == mark && s[at + 1] == 'k' && s[at + 2] == 'e' && s[at + 3] == 'y' && s[at
                + 4] == '='
            &&& at + 5 <= k < end ==> s[k] == value[k - at - 5]
            &&& end <= k < s.len() ==> s[k] == rest[k - end]
            &&& s.skip(end) == rest
        }),
{
    let s = with_value(before, mark, value, rest);
    let end = before.len() + 5 + value.len();
    assert(s.skip(end as int) == rest);
}

proof fn lemma_markers_around_a_value(
    before: Seq<char>,
    mark: char,
    value: Seq<char>,
    rest: Seq<char>,
    other: char,
    k: int,
)
    requires
        mark == '?' || mark == '&',
        other == '?' || other == '&',
        !text::contains_text(before, seq![other, 'k', 'e', 'y', '=']),
        !text::contains_text(rest, seq![other, 'k', 'e', 'y', '=']),
        !value.contains(other),
        text::occurs_at(
            with_value(before, mark, value, rest),
            seq![other, 'k', 'e', 'y', '='],
            k,
        ),
    ensures
        k == before.len(),
        other == mark,
{
    let marker = seq![other, 'k', 'e', 'y', '='];
    let s = with_value(before, mark, value, rest);
    let at = before.len() as int;
    let end = at + 5 + value.len();
    let found = s.subrange(k, k + 5);
    assert(found[0] == s[k] && found[1] == s[k + 1] && found[2] == s[k + 2] && found[3] == s[k + 3]
        && found[4] == s[k + 4]);
    lemma_places_around_a_value(before, mark, value, rest, k);
    if k + 5 <= at {
        assert(before.subrange(k, k + 5) == found);
        assert(text::occurs_at(before, marker, k));
    } else if k >= end {
        assert(rest.subrange(k - end, k - end + 5) == found);
        assert(text::occurs_at(rest, marker, k - end));
    } else if k >= at + 5 {
        assert(value.contains(value[k - at - 5]));
    }
}

proof fn lemma_one_value_is_redacted(
    before: Seq<char>,
    mark: char,
    value: Seq<char>,
    rest: Seq<char>,
)
    requires
        mark == '?' || mark == '&',
        !text::contains_text(before, seq![mark, 'k', 'e', 'y', '=']),
        !text::contains_text(rest, seq![mark, 'k', 'e', 'y', '=']),
        !value.contains(mark),
        forall|k: int| 0 <= k < value.len() ==> !ends_value(#[trigger] value[k]),
        rest.len() > 0 ==> ends_value(rest[0]),
    ensures
        redacted_from(
            with_value(before, mark, value, rest),
            seq![mark, 'k', 'e', 'y', '='],
            0,
        ) == with_value(before, mark, "[REDACTED]"@, rest),
{
    let marker = seq![mark, 'k', 'e', 'y', '='];
    let s = with_value(before, mark, value, rest);
    let at = before.len() as int;
    let end = at + 5 + value.len();
    lemma_places_around_a_value(before, mark, value, rest, end);
    assert(s.subrange(at, at + 5) == marker);
    assert(text::occurs_at(s, marker, at));
    assert forall|k: int| k != at implies !text::occurs_at(s, marker, k) by {
        if text::occurs_at(s, marker, k) {
            lemma_markers_around_a_value(before, mark, value, rest, mark, k);
        }
    }
    text::lemma_find_from(s, marker, 0);
    text::lemma_find_from(s, marker, end);
    assert(text::find_from(s, marker, 0) == Some(at));
    assert(text::find_from(s, marker, end) is None);
    assert forall|k: int| at + 5 <= k < end implies !ends_value(#[trigger] s[k]) by {
        lemma_places_around_a_value(before, mark, value, rest, k);
        assert(!ends_value(value[k - at - 5]));
    }
    lemma_stops_at(s, at + 5, |c: char| ends_value(c), end);
    assert(redacted_from(s, marker, end) == rest);
    assert(s.subrange(0, at + 5) == before + marker);
    assert(redacted_from(s, marker, 0) == before + marker + "[REDACTED]"@ + rest);
}

/// Of a message with the value of a key in it, the value alone is replaced;
/// what stands before it and from the end of the value on is kept. Either mark
/// may stand before the name of the parameter.
pub proof fn law_only_the_value_is_redacted(
    before: Seq<char>,
    mark: char,
    value: Seq<char>,
    rest: Seq<char>,
)
    requires
        mark == '?' || mark == '&',
        !text::contains_text(before, "?key="@),
        !text::contains_text(before, "&key="@),
        !text::contains_text(rest, "?key="@),
        !text::contains_text(rest, "&key="@),
        forall|k: int|
            0 <= k < value.len() ==> (#[trigger] value[k]) != '?' && value[k] != '&' && value[k]
                != ')' && value[k] != ' ' && value[k] != '"' && value[k] != '\'' && value[k] != '\n'
                && value[k] != '\r',
        rest.len() > 0 ==> rest[0] == '&' || rest[0] == ')' || rest[0] == ' ' || rest[0] == '"'
            || rest[0] == '\'' || rest[0] == '\n' || rest[0] == '\r',
    ensures
        sanitized(before + seq![mark, 'k', 'e', 'y', '='] + value + rest) == before + seq![
            mark,
            'k',
            'e',
            'y',
            '=',
        ] + "[REDACTED]"@ + rest,
{
    reveal_strlit("?key=");
    reveal_strlit("&key=");
    reveal_strlit("[REDACTED]");
    let question = seq!['?', 'k', 'e', 'y', '='];
    let ampersand = seq!['&', 'k', 'e', 'y', '='];
    assert("?key="@ == question);
    assert("&key="@ == ampersand);
    let s = with_value(before, mark, value, rest);
    let clean = with_value(before, mark, "[REDACTED]"@, rest);
    assert(!value.contains('?') && !value.contains('&'));
    assert(!"[REDACTED]"@.contains('?') && !"[REDACTED]"@.contains('&'));
    lemma_one_value_is_redacted(before, mark, value, rest);
    if mark == '?' {
        assert forall|k: int| !text::occurs_at(clean, ampersand, k) by {
            if text::occurs_at(clean, ampersand, k) {
                lemma_markers_around_a_value(before, mark, "[REDACTED]"@, rest, '&', k);
            }
        }
        lemma_nothing_to_redact(clean, ampersand);
    } else {
        assert forall|k: int| !text::occurs_at(s, question, k) by {
            if text::occurs_at(s, question, k) {
                lemma_markers_around_a_value(before, mark, value, rest, '?', k);
            }
        }
        lemma_nothing_to_redact(s, question);
    }
}

proof fn lemma_one_block_is_removed(
    s: Seq<char>,
    open: Seq<char>,
    skip: int,
    close: Seq<char>,
    start: int,
    end: int,
)
    requires
        0 <= skip,
        close.len() > 0,
        text::occurs_at(s, open, start),
        forall|k: int| k < start ==> !text::occurs_at(s, open, k),
        start + skip <= end,
        text::occurs_at(s, close, end),
        forall|k: int| start + skip <= k < end ==> !text::occurs_at(s, close, k),
        !text::contains_text(s.take(start) + s.skip(end + close.len()), open),
    ensures
        without_blocks(s, open, skip, close) == s.take(start) + s.skip(end + close.len()),
{
    let rest = s.take(start) + s.skip(end + close.len());
    text::lemma_find_from(s, open, 0);
    text::lemma_find_from(s, close, start + skip);
    assert(text::find_from(s, open, 0) == Some(start));
    assert(text::find_from(s, close, start + skip) == Some(end));
    text::lemma_find_from(rest, open, 0);
    if let Some(at) = text::find_from(rest, open, 0) {
        assert(text::occurs_at(rest, open, at));
    }
    assert(without_blocks(rest, open, skip, close) == rest);
}

proof fn lemma_no_block_is_removed(s: Seq<char>, open: Seq<char>, skip: int, close: Seq<char>)
    requires
        !text::contains_text(s, open),
    ensures
        without_blocks(s, open, skip, close) == s,
{
    text::lemma_find_from(s, open, 0);
    if let Some(at) = text::find_from(s, open, 0) {
        assert(text::occurs_at(s, open, at));
    }
}

/// A thought in a code fence is removed with both ends of the fence, and what
/// stands before and after it is kept.
pub proof fn law_fenced_thoughts_are_removed(answer: Seq<char>, start: int, end: int)
    requires
        text::occurs_at(answer, "```thought"@, start),
        forall|k: int| k < start ==> !text::occurs_at(answer, "```thought"@, k),
        start + 10 <= end,
        text::occurs_at(answer, "```"@, end),
        forall|k: int| start + 10 <= k < end ==> !text::occurs_at(answer, "```"@, k),
        !text::contains_text(answer, "<thought>"@),
        !text::contains_text(answer, "*thought*"@),
        !text::contains_text(answer.take(start) + answer.skip(end + 3), "```thought"@),
    ensures
        without_thoughts(answer) == text::trimmed(answer.take(start) + answer.skip(end + 3)),
{
    reveal_strlit("```");
    lemma_no_block_is_removed(answer, "<thought>"@, 0, "</thought>"@);
    lemma_no_block_is_removed(answer, "*thought*"@, 9, "*thought*"@);
    lemma_one_block_is_removed(answer, "```thought"@, 10, "```"@, start, end);
}

/// A thought between two starred marks is removed with both of them, and what
/// stands before and after it is kept.
pub proof fn law_starred_thoughts_are_removed(answer: Seq<char>, start: int, end: int)
    requires
        text::occurs_at(answer, "*thought*"@, start),
        forall|k: int| k < start ==> !text::occurs_at(answer, "*thought*"@, k),
        start + 9 <= end,
        text::occurs_at(answer, "*thought*"@, end),
        forall|k: int| start + 9 <= k < end ==> !text::occurs_at(answer, "*thought*"@, k),
        !text::contains_text(answer, "<thought>"@),
        !text::contains_text(answer.take(start) + answer.skip(end + 9), "*thought*"@),
        !text::contains_text(answer.take(start) + answer.skip(end + 9), "```thought"@),
    ensures
        without_thoughts(answer) == text::trimmed(answer.take(start) + answer.skip(end + 9)),
{
    reveal_strlit("*thought*");
    lemma_no_block_is_removed(answer, "<thought>"@, 0, "</thought>"@);
    lemma_one_block_is_removed(answer, "*thought*"@, 9, "*thought*"@, start, end);
    lemma_no_block_is_removed(
        answer.take(start) + answer.skip(end + 9),
        "```thought"@,
        10,
        "```"@,
    );
}

} // verus!
