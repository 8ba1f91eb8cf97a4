//! The parts of speech transcription that surround the neural network: how
//! much audio it is given, when its output ends, and what is noise in it.
use vstd::prelude::*;

use crate::text;

verus! {

/// Audio shorter than this is not transcribed.
pub const MIN_TRANSCRIBED_SAMPLES: usize = 3200;

/// Audio is cut off at thirty seconds.
pub const MAX_TRANSCRIBED_SAMPLES: usize = 480000;

/// The samples in one frame.
pub const SAMPLES_PER_FRAME: usize = 160;

/// The number of tokens after which decoding ends.
pub const MAX_DECODED_TOKENS: usize = 448;

/// The number of equal tokens in a row at which decoding ends.
pub const MAX_REPEATED_TOKENS: usize = 5;

/// Tells whether there is enough audio to transcribe.
pub fn is_long_enough(samples: usize) -> (res: bool)
    ensures
        res == (samples >= MIN_TRANSCRIBED_SAMPLES),
{
    samples >= MIN_TRANSCRIBED_SAMPLES
}

/// How many of the samples are used.
pub open spec fn used_samples(samples: int) -> int {
    if samples > MAX_TRANSCRIBED_SAMPLES {
        MAX_TRANSCRIBED_SAMPLES as int
    } else {
        samples
    }
}

/// The number of samples handed to the network: those that are used, filled up
/// with silence to an even number of whole frames, and not further.
pub fn padded_sample_count(samples: usize) -> (res: usize)
    ensures
        res as int % 320 == 0,
        used_samples(samples as int) <= res < used_samples(samples as int) + 320,
{
    assert(2 * SAMPLES_PER_FRAME == 320);
    let mut len: usize = samples;
    if len > MAX_TRANSCRIBED_SAMPLES {
        len = MAX_TRANSCRIBED_SAMPLES;
    }
    let remainder: usize = len % SAMPLES_PER_FRAME;
    if remainder != 0 {
        len = len + (SAMPLES_PER_FRAME - remainder);
    }
    let frames: usize = len / SAMPLES_PER_FRAME;
    assert(len == frames * 160);
    if frames % 2 != 0 {
        len = len + SAMPLES_PER_FRAME;
    }
    len
}

/// Where decoding stands.
pub struct DecodingState {
    pub tokens: Seq<u32>,
    pub last: u32,
    pub repeated: int,
    pub ended: bool,
}

impl DecodingState {
    /// The state after one more token: the end token ends decoding, and so does
    /// a token that comes for the fifth time in a row; any other is kept.
    pub open spec fn after(self, token: u32, end_token: u32) -> DecodingState {
        if self.ended || self.tokens.len() >= MAX_DECODED_TOKENS {
            DecodingState { ended: true, ..self }
        } else if token == end_token {
            DecodingState { ended: true, ..self }
        } else if token == self.last && self.repeated + 1 >= MAX_REPEATED_TOKENS {
            DecodingState { ended: true, ..self }
        } else {
            DecodingState {
                tokens: self.tokens.push(token),
                last: token,
                repeated: if token == self.last {
                    self.repeated + 1
                } else {
                    1
                },
                ended: false,
            }
        }
    }

    /// What every state keeps: `repeated` counts the equal tokens at the end,
    /// no token stands five times in a row, and the number of tokens is
    /// bounded.
    pub open spec fn valid(self) -> bool {
        &&& self.tokens.len() <= MAX_DECODED_TOKENS
        &&& 0 <= self.repeated < MAX_REPEATED_TOKENS
        &&& self.repeated <= self.tokens.len()
        &&& forall|k: int|
            self.tokens.len() - self.repeated <= k < self.tokens.len() ==> #[trigger] self.tokens[k]
                == self.last
        &&& self.tokens.len() > self.repeated ==> self.tokens[self.tokens.len() - self.repeated - 1]
            != self.last
        &&& self.tokens.len() > 0 ==> self.repeated > 0
        &&& no_long_run(self.tokens)
    }
}

/// Whether the five tokens from `i` on are not all equal.
pub open spec fn run_breaks(tokens: Seq<u32>, i: int) -> bool {
    exists|k: int| i < k < i + MAX_REPEATED_TOKENS && #[trigger] tokens[k] != tokens[i]
}

/// Whether no token stands five times in a row.
pub open spec fn no_long_run(tokens: Seq<u32>) -> bool {
    forall|i: int|
        0 <= i && i + MAX_REPEATED_TOKENS <= tokens.len() ==> #[trigger] run_breaks(tokens, i)
}

/// Collects the tokens of one decoding.
pub struct TokenCollector {
    tokens: Vec<u32>,
    last: u32,
    repeated: usize,
    ended: bool,
    end_token: u32,
}

impl View for TokenCollector {
    type V = DecodingState;

    closed spec fn view(&self) -> DecodingState {
        DecodingState {
            tokens: self.tokens@,
            last: self.last,
            repeated: self.repeated as int,
            ended: self.ended,
        }
    }
}

impl TokenCollector {
    /// The token that ends decoding.
    pub closed spec fn end(&self) -> u32 {
        self.end_token
    }

    /// Nothing collected yet.
    pub fn new(end_token: u32) -> (res: Self)
        ensures
            res@ == (DecodingState { tokens: Seq::empty(), last: 0, repeated: 0, ended: false }),
            res.end() == end_token,
            res@.valid(),
    {
        TokenCollector { tokens: Vec::new(), last: 0, repeated: 0, ended: false, end_token }
    }

    /// Takes the next token, and tells whether decoding goes on.
    pub fn offer(&mut self, token: u32) -> (res: bool)
        requires
            old(self)@.valid(),
        ensures
            final(self)@ == old(self)@.after(token, old(self).end()),
            final(self).end() == old(self).end(),
            final(self)@.valid(),
            res == (!final(self)@.ended && final(self)@.tokens.len() < MAX_DECODED_TOKENS),
    {
        let ghost state = self@;
        proof {
            law_tokens_stay_valid(state, token, self.end_token);
        }
        if self.ended || self.tokens.len() >= MAX_DECODED_TOKENS || token == self.end_token {
            self.ended = true;
            return false;
        }
        if token == self.last {
            if self.repeated + 1 >= MAX_REPEATED_TOKENS {
                self.ended = true;
                return false;
            }
            self.repeated = self.repeated + 1;
        } else {
            self.repeated = 1;
            self.last = token;
        }
        self.tokens.push(token);
        self.tokens.len() < MAX_DECODED_TOKENS
    }

    /// The tokens collected.
    pub fn tokens(&self) -> (res: &Vec<u32>)
        ensures
            res@ == self@.tokens,
    {
        &self.tokens
    }
}

/// Every token keeps the state valid: what is collected never holds a token
/// five times in a row, and never more than the allowed number of tokens.
pub proof fn law_tokens_stay_valid(state: DecodingState, token: u32, end_token: u32)
    requires
        state.valid(),
    ensures
        state.after(token, end_token).valid(),
        state.after(token, end_token).tokens.len() <= MAX_DECODED_TOKENS,
        no_long_run(state.after(token, end_token).tokens),
{
    let next = state.after(token, end_token);
    if !next.ended {
        let n = state.tokens.len() as int;
        let edge = n - next.repeated;
        assert(next.tokens == state.tokens.push(token));
        assert(next.tokens[n] == token);
        assert(forall|k: int| 0 <= k < n ==> #[trigger] next.tokens[k] == state.tokens[k]);
        assert(edge >= 0 ==> next.tokens[edge] != token) by {
            if token != state.last && n > 0 {
                assert(state.tokens[n - 1] == state.last);
            }
        }
        assert forall|i: int|
            0 <= i && i + MAX_REPEATED_TOKENS <= next.tokens.len() implies #[trigger] run_breaks(
            next.tokens,
            i,
        ) by {
            if i + MAX_REPEATED_TOKENS <= n {
                assert(state.tokens[i] == next.tokens[i]);
                assert(run_breaks(state.tokens, i));
                let k = choose|k: int|
                    i < k < i + MAX_REPEATED_TOKENS && #[trigger] state.tokens[k]
                        != state.tokens[i];
                assert(next.tokens[k] != next.tokens[i]);
            } else if next.tokens[i] == token {
                // The run at the end is shorter than the window, so the token
                // before it stands in the window.
                assert(i < edge < i + MAX_REPEATED_TOKENS);
                assert(next.tokens[edge] != next.tokens[i]);
            } else {
                assert(next.tokens[n] != next.tokens[i]);
            }
        }
        assert(no_long_run(next.tokens));
        assert forall|k: int| next.tokens.len() - next.repeated <= k < next.tokens.len() implies (
        #[trigger] next.tokens[k]) == next.last by {
            if k < n {
                assert(state.tokens[k] == state.last);
            }
        }
    }
}

/// The text without rows of commas, trimmed.
pub open spec fn without_comma_rows(decoded: Seq<char>) -> Seq<char> {
    let nothing = Seq::<char>::empty();
    text::trimmed(
        text::replaced(
            text::replaced(
                text::replaced(text::replaced(decoded, ",,,,,"@, nothing), ",,,,"@, nothing),
                ",,,"@,
                nothing,
            ),
            ",,"@,
            nothing,
        ),
    )
}

/// Whether a text is one of the single characters that stand for noise.
pub open spec fn is_noise(s: Seq<char>) -> bool {
    s == "ご"@ || s == "."@ || s == "、"@ || s == "。"@
}

/// What counts as spoken in the output of the network.
pub open spec fn spoken_text(decoded: Seq<char>) -> Seq<char> {
    if is_noise(without_comma_rows(decoded)) {
        Seq::empty()
    } else {
        without_comma_rows(decoded)
    }
}

/// Removes the noise from the output of the network: rows of commas, and a
/// text that is nothing but one of the characters that silence is heard as.
pub fn clean_transcript(decoded: &str) -> (res: String)
    ensures
        res@ == spoken_text(decoded@),
{
    proof {
        reveal_strlit(",,,,,");
        reveal_strlit(",,,,");
        reveal_strlit(",,,");
        reveal_strlit(",,");
        reveal_strlit("");
    }
    assert(""@ == Seq::<char>::empty());
    let five = text::replace_text(decoded, ",,,,,", "");
    let four = text::replace_text(five.as_str(), ",,,,", "");
    let three = text::replace_text(four.as_str(), ",,,", "");
    let two = text::replace_text(three.as_str(), ",,", "");
    let clean = text::trim_text(two.as_str());
    if text::same_text(clean.as_str(), "ご") || text::same_text(clean.as_str(), ".")
        || text::same_text(clean.as_str(), "、") || text::same_text(clean.as_str(), "。") {
        String::new()
    } else {
        clean
    }
}

proof fn lemma_removed_pairs(s: Seq<char>, from: int)
    requires
        0 <= from <= s.len(),
    ensures
        !text::contains_text(
            text::replaced_from(s, seq![',', ','], Seq::empty(), from),
            seq![',', ','],
        ),
    decreases s.len() - from,
{
    let pair = seq![',', ','];
    let nothing = Seq::<char>::empty();
    let whole = text::replaced_from(s, pair, nothing, from);
    text::lemma_find_from(s, pair, from);
    match text::find_from(s, pair, from) {
        Some(at) => {
            lemma_removed_pairs(s, at + 2);
            let rest = text::replaced_from(s, pair, nothing, at + 2);
            let kept = s.subrange(from, at);
            assert(whole == kept + rest);
            assert forall|k: int| !text::occurs_at(whole, pair, k) by {
                if text::occurs_at(whole, pair, k) {
                    assert(whole.subrange(k, k + 2)[0] == ',' && whole.subrange(k, k + 2)[1]
                        == ',');
                    assert(whole[k] == ',' && whole[k + 1] == ',');
                    if k + 2 <= kept.len() {
                        assert(s.subrange(from + k, from + k + 2) == pair);
                        assert(text::occurs_at(s, pair, from + k));
                    } else if k >= kept.len() {
                        assert(rest.subrange(k - kept.len(), k - kept.len() + 2) == pair);
                        assert(text::occurs_at(rest, pair, k - kept.len()));
                    } else {
                        assert(s.subrange(at, at + 2)[0] == ',');
                        assert(s.subrange(at - 1, at + 1) == pair);
                        assert(text::occurs_at(s, pair, at - 1));
                    }
                }
            }
        },
        None => {
            assert(whole == s.skip(from));
            assert forall|k: int| !text::occurs_at(whole, pair, k) by {
                if text::occurs_at(whole, pair, k) {
                    assert(s.subrange(from + k, from + k + 2) == whole.subrange(k, k + 2));
                    assert(text::occurs_at(s, pair, from + k));
                }
            }
        },
    }
}

/// No two commas in a row are left.
pub proof fn law_no_comma_rows_are_left(decoded: Seq<char>)
    ensures
        !text::contains_text(spoken_text(decoded), ",,"@),
{
    reveal_strlit(",,");
    let pair = seq![',', ','];
    let nothing = Seq::<char>::empty();
    assert(",,"@ == pair);
    let three = text::replaced(
        text::replaced(text::replaced(decoded, ",,,,,"@, nothing), ",,,,"@, nothing),
        ",,,"@,
        nothing,
    );
    let two = text::replaced(three, pair, nothing);
    lemma_removed_pairs(three, 0);
    text::lemma_trimmed_is_part(two);
    let clean = text::trimmed(two);
    assert forall|k: int| !text::occurs_at(clean, pair, k) by {
        if text::occurs_at(clean, pair, k) {
            let at = choose|at: int|
                0 <= at && at + clean.len() <= two.len() && #[trigger] two.subrange(
                    at,
                    at + clean.len(),
                ) == clean;
            assert(two.subrange(at + k, at + k + 2) == clean.subrange(k, k + 2));
            assert(text::occurs_at(two, pair, at + k));
        }
    }
}

proof fn lemma_dropped_commas_keep_the_rest(s: Seq<char>, pattern: Seq<char>, from: int)
    requires
        0 <= from <= s.len(),
        pattern.len() > 0,
        forall|k: int| 0 <= k < pattern.len() ==> #[trigger] pattern[k] == ',',
    ensures
        text::replaced_from(s, pattern, Seq::empty(), from).filter(
            |c: char| c != ',' && !text::is_white(c),
        ) == s.skip(from).filter(|c: char| c != ',' && !text::is_white(c)),
    decreases s.len() - from,
{
    let heard = |c: char| c != ',' && !text::is_white(c);
    let nothing = Seq::<char>::empty();
    text::lemma_find_from(s, pattern, from);
    if let Some(at) = text::find_from(s, pattern, from) {
        let next = at + pattern.len();
        lemma_dropped_commas_keep_the_rest(s, pattern, next);
        let kept = s.subrange(from, at);
        let rest = text::replaced_from(s, pattern, nothing, next);
        assert(kept + nothing + rest == kept + rest);
        assert(s.skip(from) == kept + s.subrange(at, next) + s.skip(next));
        lemma_commas_are_not_heard(pattern);
        Seq::filter_distributes_over_add(kept, rest, heard);
        Seq::filter_distributes_over_add(kept, pattern, heard);
        Seq::filter_distributes_over_add(kept + pattern, s.skip(next), heard);
        assert(kept.filter(heard) + nothing == kept.filter(heard));
    }
}

proof fn lemma_commas_are_not_heard(commas: Seq<char>)
    requires
        forall|k: int| 0 <= k < commas.len() ==> #[trigger] commas[k] == ',',
    ensures
        commas.filter(|c: char| c != ',' && !text::is_white(c)) == Seq::<char>::empty(),
    decreases commas.len(),
{
    let heard = |c: char| c != ',' && !text::is_white(c);
    reveal(Seq::filter);
    if commas.len() > 0 {
        lemma_commas_are_not_heard(commas.drop_last());
        assert(commas.last() == ',');
        assert(!heard(commas.last()));
    }
}

proof fn lemma_blank_is_not_heard(blank: Seq<char>)
    requires
        text::is_blank(blank),
    ensures
        blank.filter(|c: char| c != ',' && !text::is_white(c)) == Seq::<char>::empty(),
    decreases blank.len(),
{
    let heard = |c: char| c != ',' && !text::is_white(c);
    reveal(Seq::filter);
    if blank.len() > 0 {
        lemma_blank_is_not_heard(blank.drop_last());
        assert(text::is_white(blank.last()));
        assert(!heard(blank.last()));
    }
}

/// The output of the network comes back unless it is noise. It is dropped only
/// where one of the characters ご, ., 、 and 。 is all that is left of it
/// without rows of commas and outer white space, or nothing is left; two or
/// more characters come back exactly as they are.
pub proof fn law_only_single_characters_are_noise(decoded: Seq<char>)
    ensures
        without_comma_rows(decoded).len() >= 2 ==> spoken_text(decoded) == without_comma_rows(
            decoded,
        ),
        spoken_text(decoded).len() == 0 ==> {
            ||| without_comma_rows(decoded).len() == 0
            ||| without_comma_rows(decoded) == seq!['ご']
            ||| without_comma_rows(decoded) == seq!['.']
            ||| without_comma_rows(decoded) == seq!['、']
            ||| without_comma_rows(decoded) == seq!['。']
        },
        without_comma_rows(decoded).len() == 1 ==> (spoken_text(decoded).len() == 0) == {
            ||| without_comma_rows(decoded)[0] == 'ご'
            ||| without_comma_rows(decoded)[0] == '.'
            ||| without_comma_rows(decoded)[0] == '、'
            ||| without_comma_rows(decoded)[0] == '。'
        },
        spoken_text(decoded).len() > 0 ==> spoken_text(decoded) == without_comma_rows(decoded),
{
    reveal_strlit("ご");
    reveal_strlit(".");
    reveal_strlit("、");
    reveal_strlit("。");
    assert("ご"@ == seq!['ご']);
    assert("."@ == seq!['.']);
    assert("、"@ == seq!['、']);
    assert("。"@ == seq!['。']);
    let clean = without_comma_rows(decoded);
    if clean.len() == 1 {
        assert(clean == seq![clean[0]]);
        assert(seq!['ご'][0] == 'ご' && seq!['.'][0] == '.' && seq!['、'][0] == '、'
            && seq!['。'][0] == '。');
    }
}

/// Words are never lost: but for commas and white space, the text that comes
/// back has the characters of the output of the network, in their order,
/// wherever these are two or more.
pub proof fn law_spoken_characters_are_kept(decoded: Seq<char>)
    ensures
        ({
            let heard = |c: char| c != ',' && !text::is_white(c);
            decoded.filter(heard).len() >= 2 ==> spoken_text(decoded).filter(heard)
                == decoded.filter(heard)
        }),
{
    reveal_strlit(",,,,,");
    reveal_strlit(",,,,");
    reveal_strlit(",,,");
    reveal_strlit(",,");
    let heard = |c: char| c != ',' && !text::is_white(c);
    let nothing = Seq::<char>::empty();
    let five = text::replaced(decoded, ",,,,,"@, nothing);
    let four = text::replaced(five, ",,,,"@, nothing);
    let three = text::replaced(four, ",,,"@, nothing);
    let two = text::replaced(three, ",,"@, nothing);
    lemma_dropped_commas_keep_the_rest(decoded, ",,,,,"@, 0);
    lemma_dropped_commas_keep_the_rest(five, ",,,,"@, 0);
    lemma_dropped_commas_keep_the_rest(four, ",,,"@, 0);
    lemma_dropped_commas_keep_the_rest(three, ",,"@, 0);
    assert(decoded.skip(0) == decoded && five.skip(0) == five && four.skip(0) == four
        && three.skip(0) == three);
    let clean = text::trimmed(two);
    let (before, after) = text::law_trimming_removes_outer_white_space(two);
    lemma_blank_is_not_heard(before);
    lemma_blank_is_not_heard(after);
    Seq::filter_distributes_over_add(before, clean, heard);
    Seq::filter_distributes_over_add(before + clean, after, heard);
    assert(nothing + clean.filter(heard) + nothing == clean.filter(heard));
    assert(clean.filter(heard) == decoded.filter(heard));
    clean.lemma_filter_len(heard);
    law_only_single_characters_are_noise(decoded);
}

/// A text without two commas in a row is only trimmed, where two or more
/// characters are left of it.
pub proof fn law_ordinary_sentences_come_back(decoded: Seq<char>)
    requires
        forall|k: int|
            #![trigger decoded[k]]
            0 <= k < decoded.len() - 1 ==> !(decoded[k] == ',' && decoded[k + 1] == ','),
        text::trimmed(decoded).len() >= 2,
    ensures
        spoken_text(decoded) == text::trimmed(decoded),
{
    reveal_strlit(",,,,,");
    reveal_strlit(",,,,");
    reveal_strlit(",,,");
    reveal_strlit(",,");
    let nothing = Seq::<char>::empty();
    lemma_no_rows_to_drop(decoded, ",,,,,"@);
    lemma_no_rows_to_drop(decoded, ",,,,"@);
    lemma_no_rows_to_drop(decoded, ",,,"@);
    lemma_no_rows_to_drop(decoded, ",,"@);
    law_only_single_characters_are_noise(decoded);
}

proof fn lemma_no_rows_to_drop(decoded: Seq<char>, row: Seq<char>)
    requires
        forall|k: int|
            #![trigger decoded[k]]
            0 <= k < decoded.len() - 1 ==> !(decoded[k] == ',' && decoded[k + 1] == ','),
        row.len() >= 2,
        row[0] == ',',
        row[1] == ',',
    ensures
        text::replaced(decoded, row, Seq::empty()) == decoded,
{
    text::lemma_find_from(decoded, row, 0);
    if let Some(at) = text::find_from(decoded, row, 0) {
        assert(decoded.subrange(at, at + row.len())[0] == decoded[at]);
        assert(decoded.subrange(at, at + row.len())[1] == decoded[at + 1]);
    }
    assert(decoded.skip(0) == decoded);
}

/// A token is kept as long as there is room for it, unless it is the end token
/// or would stand five times in a row; either of these ends decoding, and what
/// was collected stays.
pub proof fn law_tokens_are_collected_until_the_end(
    state: DecodingState,
    token: u32,
    end_token: u32,
)
    requires
        state.valid(),
    ensures
        ({
            let n = state.tokens.len();
            let next = state.after(token, end_token);
            let fifth = n >= 4 && state.tokens[n - 1] == token && state.tokens[n - 2] == token
                && state.tokens[n - 3] == token && state.tokens[n - 4] == token;
            &&& !state.ended && n < 448 && token != end_token && !fifth ==> next.tokens
                == state.tokens.push(token) && !next.ended
            &&& state.ended || n >= 448 || token == end_token || fifth ==> next.tokens
                == state.tokens && next.ended
        }),
{
    let n = state.tokens.len() as int;
    if state.repeated >= 4 {
        assert(state.tokens[n - 1] == state.last && state.tokens[n - 2] == state.last
            && state.tokens[n - 3] == state.last && state.tokens[n - 4] == state.last);
    } else if n > state.repeated && state.repeated > 0 {
        assert(state.tokens[n - 1] == state.last);
        assert(state.tokens[n - state.repeated - 1] != state.last);
    }
}

/// Of longer audio the first thirty seconds are used, and of shorter audio
/// everything; a fifth of a second is enough to be transcribed.
pub proof fn law_thirty_seconds_are_used(samples: int)
    ensures
        samples <= 480000 ==> used_samples(samples) == samples,
        samples > 480000 ==> used_samples(samples) == 480000,
        MIN_TRANSCRIBED_SAMPLES == 3200,
        samples >= 0 ==> used_samples(samples) <= samples,
{
}

} // verus!
