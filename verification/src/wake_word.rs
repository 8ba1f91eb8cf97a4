//! Matching of wake words in transcribed speech.
//!
//! A transcription spells one phrase in many ways: katakana or hiragana, full
//! or half width, with spaces between kana, with long vowel marks. Matching
//! works on a key in which these spellings agree, while every character of the
//! key remembers the range of the source that it came from, so that the phrase
//! can be removed from the source exactly as it was written.
use vstd::prelude::*;

use crate::digest;
use crate::kana;
use crate::text;

verus! {

/// One character of a key with its source range.
pub struct WakeUnit {
    pub value: char,
    pub start: int,
    pub end: int,
}

/// One character of a key with the range of source characters behind it.
#[derive(Clone, Copy)]
pub struct WakeChar {
    pub value: char,
    pub start: usize,
    pub end: usize,
}

impl View for WakeChar {
    type V = WakeUnit;

    open spec fn view(&self) -> WakeUnit {
        WakeUnit { value: self.value, start: self.start as int, end: self.end as int }
    }
}

/// The units that a list of key characters stands for.
pub open spec fn units_of(chars: Seq<WakeChar>) -> Seq<WakeUnit> {
    chars.map_values(|c: WakeChar| c@)
}

/// The characters of a list of units.
pub open spec fn values_of(units: Seq<WakeUnit>) -> Seq<char> {
    units.map_values(|u: WakeUnit| u.value)
}

/// The spelling of a character that is no half-width kana.
pub open spec fn wake_fold(c: char) -> char {
    kana::fold_kana(kana::fold_kana(kana::narrow_ascii(c)))
}

/// How many source characters the character at `i` is read with: a half-width
/// kana takes a voicing mark that follows it.
pub open spec fn source_width(source: Seq<char>, i: int) -> int {
    if kana::halfwidth_hiragana(source[i]) is Some && i + 1 < source.len() && kana::is_voicing_mark(
        source[i + 1],
    ) {
        2
    } else {
        1
    }
}

/// What the character at `i` is read as.
pub open spec fn source_value(source: Seq<char>, i: int) -> char {
    match kana::halfwidth_hiragana(source[i]) {
        Some(base) => if source_width(source, i) == 2 {
            kana::voiced_kana(base, Some(source[i + 1]))
        } else {
            base
        },
        None => wake_fold(source[i]),
    }
}

/// The units read from position `i` on, where `previous` is the last character
/// read before: white space is passed over, and a long vowel mark is read as
/// the vowel before it.
pub open spec fn units_from(source: Seq<char>, i: int, previous: Option<char>) -> Seq<WakeUnit>
    decreases source.len() - i,
{
    if i < 0 || i >= source.len() {
        Seq::empty()
    } else {
        let value = source_value(source, i);
        let end = i + source_width(source, i);
        if text::is_white(value) {
            units_from(source, end, previous)
        } else {
            let read = if kana::is_long_mark(value) {
                kana::long_vowel(previous)
            } else {
                value
            };
            seq![WakeUnit { value: read, start: i, end }] + units_from(source, end, Some(read))
        }
    }
}

/// The length of the known alias of the wake word that starts at `i`, if any:
/// ねえぐり and neguri.
pub open spec fn alias_len(values: Seq<char>, i: int) -> int {
    if text::occurs_at(values, seq!['ね', 'え', 'ぐ', 'り'], i) {
        4
    } else if text::occurs_at(values, seq!['n', 'e', 'g', 'u', 'r', 'i'], i) {
        6
    } else {
        0
    }
}

/// The units from `i` on, with every alias replaced by ねぐり over the range of
/// the whole alias.
pub open spec fn canonical_from(units: Seq<WakeUnit>, i: int) -> Seq<WakeUnit>
    decreases units.len() - i,
{
    if i < 0 || i >= units.len() {
        Seq::empty()
    } else {
        let n = alias_len(values_of(units), i);
        if n > 0 {
            let start = units[i].start;
            let end = units[i + n - 1].end;
            seq![
                WakeUnit { value: 'ね', start, end },
                WakeUnit { value: 'ぐ', start, end },
                WakeUnit { value: 'り', start, end },
            ] + canonical_from(units, i + n)
        } else {
            seq![units[i]] + canonical_from(units, i + 1)
        }
    }
}

/// The units of a text.
pub open spec fn wake_units(source: Seq<char>) -> Seq<WakeUnit> {
    canonical_from(units_from(source, 0, None), 0)
}

/// The key of a text.
pub open spec fn wake_key(source: Seq<char>) -> Seq<char> {
    values_of(wake_units(source))
}

/// The source range of the first place at which the key of `word` stands in
/// the key of `source`. A word with an empty key stands nowhere.
pub open spec fn wake_range(source: Seq<char>, word: Seq<char>) -> Option<(int, int)> {
    let units = wake_units(source);
    let key = wake_key(word);
    if key.len() == 0 {
        None
    } else {
        match text::find_from(values_of(units), key, 0) {
            Some(at) => Some((units[at].start, units[at + key.len() - 1].end)),
            None => None,
        }
    }
}

/// The source without the given range, trimmed.
pub open spec fn without_range(source: Seq<char>, range: (int, int)) -> Seq<char> {
    text::trimmed(source.take(range.0) + source.skip(range.1))
}

/// What is left of `source` once the first of `words` that stands in it is
/// removed.
pub open spec fn first_wake_match(source: Seq<char>, words: Seq<Seq<char>>) -> Option<Seq<char>>
    decreases words.len(),
{
    if words.len() == 0 {
        None
    } else {
        match wake_range(source, words[0]) {
            Some(range) => Some(without_range(source, range)),
            None => first_wake_match(source, words.drop_first()),
        }
    }
}

/// The wake words that are always recognised.
pub open spec fn default_wake_words() -> Seq<Seq<char>> {
    seq![
        "ねえぐり"@,
        "ねぐり"@,
        "ネグリ"@,
        "ねーぐり"@,
        "ねぇぐり"@,
        "ね〜ぐり"@,
        "ね～ぐり"@,
        "ね~ぐり"@,
        "neguri"@,
        "アシスタント"@,
        "ヘイぐり"@,
    ]
}

/// The views of a list of texts.
pub open spec fn texts_of(words: Seq<String>) -> Seq<Seq<char>> {
    words.map_values(|w: String| w@)
}

/// What is left of `source` once a wake word is removed: the custom words
/// come first, then the default ones. `None` where no word stands in it.
pub open spec fn wake_match(source: Seq<char>, custom: Seq<Seq<char>>) -> Option<Seq<char>> {
    match first_wake_match(source, custom) {
        Some(rest) => Some(rest),
        None => first_wake_match(source, default_wake_words()),
    }
}

/// Whether every unit has a source range within `lo..hi` that is not empty,
/// and the ranges go forward.
pub open spec fn units_in_order(units: Seq<WakeUnit>, lo: int, hi: int) -> bool {
    &&& forall|k: int|
        0 <= k < units.len() ==> lo <= (#[trigger] units[k]).start < units[k].end <= hi
    &&& forall|j: int, k: int|
        0 <= j <= k < units.len() ==> (#[trigger] units[j]).start <= (#[trigger] units[k]).start
            && units[j].end <= units[k].end
}

proof fn lemma_units_from_in_order(source: Seq<char>, i: int, previous: Option<char>)
    requires
        0 <= i <= source.len(),
    ensures
        units_in_order(units_from(source, i, previous), i, source.len() as int),
        units_from(source, i, previous).len() <= source.len() - i,
        forall|j: int, k: int|
            #![trigger units_from(source, i, previous)[j], units_from(source, i, previous)[k]]
            0 <= j < k < units_from(source, i, previous).len() ==> units_from(
                source,
                i,
                previous,
            )[j].end <= units_from(source, i, previous)[k].start,
    decreases source.len() - i,
{
    if i < source.len() {
        let value = source_value(source, i);
        let end = i + source_width(source, i);
        if text::is_white(value) {
            lemma_units_from_in_order(source, end, previous);
        } else {
            let read = if kana::is_long_mark(value) {
                kana::long_vowel(previous)
            } else {
                value
            };
            lemma_units_from_in_order(source, end, Some(read));
            let rest = units_from(source, end, Some(read));
            let whole = units_from(source, i, previous);
            let head = WakeUnit { value: read, start: i, end };
            assert(whole == seq![head] + rest);
            assert(whole[0] == head);
            assert forall|k: int| 0 < k < whole.len() implies #[trigger] whole[k] == rest[k - 1] by {}
        }
    }
}

proof fn lemma_canonical_in_order(units: Seq<WakeUnit>, i: int, lo: int, hi: int)
    requires
        0 <= i <= units.len(),
        units_in_order(units, lo, hi),
    ensures
        units_in_order(canonical_from(units, i), lo, hi),
        i < units.len() ==> forall|k: int|
            0 <= k < canonical_from(units, i).len() ==> units[i].start <= (
            #[trigger] canonical_from(units, i)[k]).start,
        canonical_from(units, i).len() <= units.len() - i,
        forall|j: int, k: int|
            #![trigger canonical_from(units, i)[k], units[j]]
            0 <= j < i && 0 <= k < canonical_from(units, i).len() ==> units[j].start
                <= canonical_from(units, i)[k].start && units[j].end <= canonical_from(
                units,
                i,
            )[k].end,
    decreases units.len() - i,
{
    if i < units.len() {
        let n = alias_len(values_of(units), i);
        let whole = canonical_from(units, i);
        if n > 0 {
            lemma_canonical_in_order(units, i + n, lo, hi);
            let rest = canonical_from(units, i + n);
            let start = units[i].start;
            let end = units[i + n - 1].end;
            assert(whole.len() == 3 + rest.len());
            assert forall|k: int| 0 <= k < 3 implies (#[trigger] whole[k]).start == start
                && whole[k].end == end by {}
            assert forall|k: int| 3 <= k < whole.len() implies #[trigger] whole[k] == rest[k - 3] by {}
            assert(units[i].end <= units[i + n - 1].end);
            assert(units[i].start < units[i].end);
            assert forall|k: int| 3 <= k < whole.len() implies start <= (#[trigger] whole[k]).start
                && end <= whole[k].end by {
                assert(units[i].start <= rest[k - 3].start);
                assert(units[i + n - 1].end <= rest[k - 3].end);
            }
            assert forall|j: int, k: int|
                #![trigger whole[k], units[j]]
                0 <= j < i && 0 <= k < whole.len() implies units[j].start <= whole[k].start
                && units[j].end <= whole[k].end by {
                assert(units[j].start <= units[i].start && units[j].end <= units[i + n - 1].end);
                if k >= 3 {
                    assert(units[j].start <= rest[k - 3].start);
                }
            }
        } else {
            lemma_canonical_in_order(units, i + 1, lo, hi);
            let rest = canonical_from(units, i + 1);
            assert(whole[0] == units[i]);
            assert forall|k: int| 1 <= k < whole.len() implies #[trigger] whole[k] == rest[k - 1] by {}
            assert forall|k: int| 1 <= k < whole.len() implies units[i].start <= (
            #[trigger] whole[k]).start && units[i].end <= whole[k].end by {
                assert(units[i].start <= rest[k - 1].start);
            }
            assert forall|j: int, k: int|
                #![trigger whole[k], units[j]]
                0 <= j < i && 0 <= k < whole.len() implies units[j].start <= whole[k].start
                && units[j].end <= whole[k].end by {
                if k >= 1 {
                    assert(units[j].start <= rest[k - 1].start);
                }
            }
        }
    }
}

/// The source ranges behind a key are not empty, lie within the source and go
/// forward.
pub proof fn lemma_wake_units_in_order(source: Seq<char>)
    ensures
        units_in_order(wake_units(source), 0, source.len() as int),
        wake_units(source).len() <= source.len(),
{
    lemma_units_from_in_order(source, 0, None);
    lemma_canonical_in_order(units_from(source, 0, None), 0, 0, source.len() as int);
}

/// The range of a matched wake word is not empty and lies within the source.
pub proof fn lemma_wake_range_in_source(source: Seq<char>, word: Seq<char>)
    ensures
        wake_range(source, word) matches Some(range) ==> 0 <= range.0 < range.1 <= source.len(),
{
    lemma_wake_units_in_order(source);
    let units = wake_units(source);
    let key = wake_key(word);
    text::lemma_find_from(values_of(units), key, 0);
    if key.len() > 0 {
        if let Some(at) = text::find_from(values_of(units), key, 0) {
            assert(units[at].start <= units[at + key.len() - 1].start);
        }
    }
}

/// Reads a text into units, before aliases are looked at.
fn read_units(source: &Vec<char>) -> (res: Vec<WakeChar>)
    ensures
        units_of(res@) == units_from(source@, 0, None),
{
    let mut read: Vec<WakeChar> = Vec::new();
    let mut previous: Option<char> = None;
    let mut i: usize = 0;
    while i < source.len()
        invariant
            i <= source@.len(),
            units_of(read@) + units_from(source@, i as int, previous) == units_from(
                source@,
                0,
                None,
            ),
        decreases source@.len() - i,
    {
        let ghost before = read@;
        let mut end: usize = i + 1;
        let value: char = match kana::normalize_halfwidth_kana(source[i]) {
            Some(base) => {
                if i + 1 < source.len() && (source[i + 1] == 'ﾞ' || source[i + 1] == 'ﾟ') {
                    end = i + 2;
                    kana::apply_halfwidth_diacritic(base, Some(source[i + 1]))
                } else {
                    base
                }
            },
            None => kana::fold_kana_char(
                kana::fold_kana_char(kana::normalize_fullwidth_ascii(source[i])),
            ),
        };
        assert(value == source_value(source@, i as int));
        assert(end == i + source_width(source@, i as int));
        if !text::is_white_char(value) {
            let unit: char = if kana::is_wake_long_mark(value) {
                kana::long_vowel_for(previous)
            } else {
                value
            };
            let item = WakeChar { value: unit, start: i, end };
            read.push(item);
            previous = Some(unit);
            assert(units_of(read@) == units_of(before) + seq![item@]);
            assert(units_of(before) + (seq![item@] + units_from(source@, end as int, previous))
                == units_of(read@) + units_from(source@, end as int, previous));
        }
        i = end;
    }
    assert(units_from(source@, i as int, previous) == Seq::<WakeUnit>::empty());
    assert(units_of(read@) + Seq::<WakeUnit>::empty() == units_of(read@));
    read
}

fn values_occur_at(units: &Vec<WakeChar>, expected: &Vec<char>, at: usize) -> (res: bool)
    requires
        at <= units@.len(),
    ensures
        res == text::occurs_at(values_of(units_of(units@)), expected@, at as int),
{
    let ghost values = values_of(units_of(units@));
    let len: usize = units.len();
    if len - at < expected.len() {
        return false;
    }
    let mut i: usize = 0;
    while i < expected.len()
        invariant
            i <= expected@.len(),
            len == units@.len(),
            at + expected@.len() <= units@.len(),
            values == values_of(units_of(units@)),
            values.subrange(at as int, at + i) == expected@.take(i as int),
        decreases expected@.len() - i,
    {
        if units[at + i].value != expected[i] {
            assert(values.subrange(at as int, at + expected@.len())[i as int] == values[at + i]);
            return false;
        }
        assert(values.subrange(at as int, at + i + 1) == values.subrange(at as int, at + i).push(
            values[at + i],
        ));
        assert(expected@.take(i + 1) == expected@.take(i as int).push(expected@[i as int]));
        i += 1;
    }
    assert(expected@.take(expected@.len() as int) == expected@);
    true
}

/// Collapses the known Japanese and Latin aliases of the wake word to one
/// spelling. The source range is carried over the whole alias.
pub fn canonicalize_wake_aliases(units: &Vec<WakeChar>) -> (res: Vec<WakeChar>)
    ensures
        units_of(res@) == canonical_from(units_of(units@), 0),
{
    let kana_alias: Vec<char> = vec!['ね', 'え', 'ぐ', 'り'];
    let latin_alias: Vec<char> = vec!['n', 'e', 'g', 'u', 'r', 'i'];
    assert(kana_alias@ == seq!['ね', 'え', 'ぐ', 'り']);
    assert(latin_alias@ == seq!['n', 'e', 'g', 'u', 'r', 'i']);
    let ghost source = units_of(units@);
    let mut canonical: Vec<WakeChar> = Vec::new();
    let mut index: usize = 0;
    while index < units.len()
        invariant
            index <= units@.len(),
            source == units_of(units@),
            kana_alias@ == seq!['ね', 'え', 'ぐ', 'り'],
            latin_alias@ == seq!['n', 'e', 'g', 'u', 'r', 'i'],
            units_of(canonical@) + canonical_from(source, index as int) == canonical_from(
                source,
                0,
            ),
        decreases units@.len() - index,
    {
        let ghost before = canonical@;
        let matched: usize = if values_occur_at(units, &kana_alias, index) {
            4
        } else if values_occur_at(units, &latin_alias, index) {
            6
        } else {
            0
        };
        assert(matched == alias_len(values_of(source), index as int));
        if matched > 0 {
            let start: usize = units[index].start;
            let end: usize = units[index + (matched - 1)].end;
            canonical.push(WakeChar { value: 'ね', start, end });
            canonical.push(WakeChar { value: 'ぐ', start, end });
            canonical.push(WakeChar { value: 'り', start, end });
            let ghost added = seq![
                WakeUnit { value: 'ね', start: start as int, end: end as int },
                WakeUnit { value: 'ぐ', start: start as int, end: end as int },
                WakeUnit { value: 'り', start: start as int, end: end as int },
            ];
            assert(units_of(canonical@) == units_of(before) + added);
            assert(units_of(before) + (added + canonical_from(source, index + matched))
                == units_of(canonical@) + canonical_from(source, index + matched));
            index += matched;
        } else {
            canonical.push(units[index]);
            assert(units_of(canonical@) == units_of(before) + seq![source[index as int]]);
            assert(units_of(before) + (seq![source[index as int]] + canonical_from(
                source,
                index + 1,
            )) == units_of(canonical@) + canonical_from(source, index + 1));
            index += 1;
        }
    }
    assert(units_of(canonical@) + Seq::<WakeUnit>::empty() == units_of(canonical@));
    canonical
}

/// The characters that wake words are matched on, each with the range of
/// source characters behind it.
pub fn normalized_wake_word_chars(source: &str) -> (res: Vec<WakeChar>)
    ensures
        units_of(res@) == wake_units(source@),
{
    let chars = text::chars_of(source);
    let read = read_units(&chars);
    canonicalize_wake_aliases(&read)
}

fn values_vec(units: &Vec<WakeChar>) -> (res: Vec<char>)
    ensures
        res@ == values_of(units_of(units@)),
{
    let mut values: Vec<char> = Vec::new();
    let mut i: usize = 0;
    while i < units.len()
        invariant
            i <= units@.len(),
            values@ == values_of(units_of(units@)).take(i as int),
        decreases units@.len() - i,
    {
        values.push(units[i].value);
        i += 1;
        assert(values_of(units_of(units@)).take(i as int) == values_of(units_of(units@)).take(
            i - 1,
        ).push(values_of(units_of(units@))[i - 1]));
    }
    values
}

/// The key of a text.
pub fn normalize_wake_word_key(source: &str) -> (res: String)
    ensures
        res@ == wake_key(source@),
{
    let units = normalized_wake_word_chars(source);
    let values = values_vec(&units);
    text::string_of(&values)
}

/// The range of source characters at which a wake word stands.
fn wake_word_char_range(source: &str, wake_word: &str) -> (res: Option<(usize, usize)>)
    ensures
        match res {
            Some(range) => wake_range(source@, wake_word@) == Some(
                (range.0 as int, range.1 as int),
            ) && range.0 < range.1 <= source@.len(),
            None => wake_range(source@, wake_word@) is None,
        },
{
    proof {
        lemma_wake_range_in_source(source@, wake_word@);
    }
    let units = normalized_wake_word_chars(source);
    let values = values_vec(&units);
    let word_units = normalized_wake_word_chars(wake_word);
    let key = values_vec(&word_units);
    if key.len() == 0 {
        return None;
    }
    let total: usize = values.len();
    match text::find_text_from(&values, &key, 0) {
        Some(at) => {
            assert(at + key@.len() <= total);
            let last: usize = at + (key.len() - 1);
            assert(wake_units(source@)[at as int] == units@[at as int]@);
            assert(wake_units(source@)[last as int] == units@[last as int]@);
            Some((units[at].start, units[last].end))
        },
        None => None,
    }
}

/// How many bytes stand before a character of a text.
pub open spec fn byte_place(source: Seq<char>, at: int) -> int {
    digest::text_bytes(source.take(at)).len() as int
}

fn bytes_before(chars: &Vec<char>, at: usize) -> (res: usize)
    requires
        at <= chars@.len(),
    ensures
        res == byte_place(chars@, at as int),
{
    let before = text::string_of_range(chars, 0, at);
    assert(chars@.subrange(0, at as int) == chars@.take(at as int));
    let bytes = before.as_str().as_bytes();
    bytes.len()
}

/// The range of source bytes at which a wake word stands. Matching does not see
/// spelling variants or white space, while the range covers the phrase as it
/// was transcribed.
pub fn wake_word_source_range(source: &str, wake_word: &str) -> (res: Option<(usize, usize)>)
    ensures
        match wake_range(source@, wake_word@) {
            Some(range) => res is Some && (res->0).0 == byte_place(source@, range.0) && (
            res->0).1 == byte_place(source@, range.1),
            None => res is None,
        },
{
    match wake_word_char_range(source, wake_word) {
        Some(range) => {
            let chars = text::chars_of(source);
            Some((bytes_before(&chars, range.0), bytes_before(&chars, range.1)))
        },
        None => None,
    }
}

/// Removes the phrase that matched a wake word and trims what is left.
pub fn remove_wake_word_source(source: &str, wake_word: &str) -> (res: Option<String>)
    ensures
        match res {
            Some(rest) => wake_range(source@, wake_word@) matches Some(range) && rest@
                == without_range(source@, range),
            None => wake_range(source@, wake_word@) is None,
        },
{
    match wake_word_char_range(source, wake_word) {
        Some(range) => {
            let chars = text::chars_of(source);
            let mut rest = text::string_of_range(&chars, 0, range.0);
            let tail = text::string_of_range(&chars, range.1, chars.len());
            text::append_text(&mut rest, tail.as_str());
            assert(rest@ == source@.take(range.0 as int) + source@.skip(range.1 as int));
            Some(text::trim_text(rest.as_str()))
        },
        None => None,
    }
}

fn default_words() -> (res: Vec<&'static str>)
    ensures
        res@.map_values(|w: &'static str| w@) == default_wake_words(),
{
    let words: Vec<&'static str> = vec![
        "ねえぐり",
        "ねぐり",
        "ネグリ",
        "ねーぐり",
        "ねぇぐり",
        "ね〜ぐり",
        "ね～ぐり",
        "ね~ぐり",
        "neguri",
        "アシスタント",
        "ヘイぐり",
    ];
    assert(words@.map_values(|w: &'static str| w@) == default_wake_words());
    words
}

/// Tells whether a wake word stands in `source`, and gives what is left once
/// the phrase is removed; without a wake word the text comes back as it is.
/// Custom words are tried before the default ones.
pub fn match_wake_word(source: &str, custom_wake_words: &Vec<String>) -> (res: (bool, String))
    ensures
        match wake_match(source@, texts_of(custom_wake_words@)) {
            Some(rest) => res.0 && res.1@ == rest,
            None => !res.0 && res.1@ == source@,
        },
{
    let ghost custom = texts_of(custom_wake_words@);
    assert(custom.skip(0) == custom);
    let mut i: usize = 0;
    while i < custom_wake_words.len()
        invariant
            i <= custom_wake_words@.len(),
            custom == texts_of(custom_wake_words@),
            first_wake_match(source@, custom) == first_wake_match(source@, custom.skip(i as int)),
        decreases custom_wake_words@.len() - i,
    {
        assert(custom.skip(i as int)[0] == custom_wake_words@[i as int]@);
        assert(custom.skip(i as int).drop_first() == custom.skip(i + 1));
        if let Some(rest) = remove_wake_word_source(source, custom_wake_words[i].as_str()) {
            return (true, rest);
        }
        i += 1;
    }
    assert(custom.skip(i as int).len() == 0);
    let defaults = default_words();
    let ghost words = default_wake_words();
    assert(words.skip(0) == words);
    let mut j: usize = 0;
    while j < defaults.len()
        invariant
            j <= defaults@.len(),
            words == default_wake_words(),
            words == defaults@.map_values(|w: &'static str| w@),
            custom == texts_of(custom_wake_words@),
            first_wake_match(source@, custom) is None,
            first_wake_match(source@, words) == first_wake_match(source@, words.skip(j as int)),
        decreases defaults@.len() - j,
    {
        assert(words.skip(j as int)[0] == defaults@[j as int]@);
        assert(words.skip(j as int).drop_first() == words.skip(j + 1));
        if let Some(rest) = remove_wake_word_source(source, defaults[j]) {
            return (true, rest);
        }
        j += 1;
    }
    assert(words.skip(j as int).len() == 0);
    (false, source.to_owned())
}

/// A character other than white space is read as one.
proof fn lemma_spoken_is_read_as_spoken(source: Seq<char>, i: int)
    requires
        0 <= i < source.len(),
        !text::is_white(source[i]),
    ensures
        !text::is_white(source_value(source, i)),
{
    let c = source[i];
    if let Some(base) = kana::halfwidth_hiragana(c) {
        assert(0x3042 <= base as u32 <= 0x30FC);
        if source_width(source, i) == 2 {
            let voiced = kana::voiced_kana(base, Some(source[i + 1]));
            assert(0x3042 <= voiced as u32 <= 0x30FC);
        }
    } else {
        lemma_fold_keeps_spoken(c);
    }
}

proof fn lemma_fold_keeps_spoken(c: char)
    requires
        !text::is_white(c),
    ensures
        !text::is_white(wake_fold(c)),
{
    let narrow = kana::narrow_ascii(c);
    assert(!text::is_white(narrow));
    lemma_fold_kana_keeps_spoken(narrow);
    lemma_fold_kana_keeps_spoken(kana::fold_kana(narrow));
}

proof fn lemma_fold_kana_keeps_spoken(c: char)
    requires
        !text::is_white(c),
    ensures
        !text::is_white(kana::fold_kana(c)),
{
}

proof fn lemma_units_of_spoken_words(source: Seq<char>, i: int, previous: Option<char>, at: int)
    requires
        0 <= i <= at < source.len(),
        !text::is_white(source[at]),
    ensures
        units_from(source, i, previous).len() > 0,
    decreases at - i,
{
    if text::is_white(source_value(source, i)) {
        if !text::is_white(source[i]) {
            lemma_spoken_is_read_as_spoken(source, i);
        }
        lemma_white_is_read_as_white(source[i]);
        lemma_units_of_spoken_words(source, i + 1, previous, at);
    }
}

/// Words that are not blank have a key.
pub proof fn lemma_spoken_words_have_a_key(source: Seq<char>)
    ensures
        !text::is_blank(source) ==> wake_key(source).len() > 0,
{
    if !text::is_blank(source) {
        let at = choose|k: int| 0 <= k < source.len() && !text::is_white(#[trigger] source[k]);
        lemma_units_of_spoken_words(source, 0, None, at);
        let units = units_from(source, 0, None);
        assert(canonical_from(units, 0).len() > 0);
    }
}

/// Two words with one key are matched alike.
pub proof fn law_words_with_one_key_match_alike(source: Seq<char>, a: Seq<char>, b: Seq<char>)
    requires
        wake_key(a) == wake_key(b),
    ensures
        wake_range(source, a) == wake_range(source, b),
{
}

/// Matching a wake word removes a part of the text that is not empty.
pub proof fn law_match_shortens_the_text(source: Seq<char>, custom: Seq<Seq<char>>)
    ensures
        wake_match(source, custom) matches Some(rest) ==> rest.len() < source.len(),
{
    lemma_first_match_shortens(source, custom);
    lemma_first_match_shortens(source, default_wake_words());
}

proof fn lemma_first_match_shortens(source: Seq<char>, words: Seq<Seq<char>>)
    ensures
        first_wake_match(source, words) matches Some(rest) ==> rest.len() < source.len(),
    decreases words.len(),
{
    if words.len() > 0 {
        lemma_wake_range_in_source(source, words[0]);
        if let Some(range) = wake_range(source, words[0]) {
            text::lemma_trimmed_edges(source.take(range.0) + source.skip(range.1));
        } else {
            lemma_first_match_shortens(source, words.drop_first());
        }
    }
}

proof fn lemma_units_from_same_spelling(
    a: Seq<char>,
    b: Seq<char>,
    i: int,
    previous: Option<char>,
)
    requires
        a.len() == b.len(),
        0 <= i,
        forall|k: int|
            0 <= k < a.len() ==> source_value(a, k) == source_value(b, k) && source_width(a, k)
                == source_width(b, k),
    ensures
        units_from(a, i, previous) == units_from(b, i, previous),
    decreases a.len() - i,
{
    if i < a.len() {
        assert(source_value(a, i) == source_value(b, i) && source_width(a, i) == source_width(
            b,
            i,
        ));
        let value = source_value(a, i);
        let end = i + source_width(a, i);
        let read = if kana::is_long_mark(value) {
            kana::long_vowel(previous)
        } else {
            value
        };
        lemma_units_from_same_spelling(a, b, end, previous);
        lemma_units_from_same_spelling(a, b, end, Some(read));
    }
}

/// Katakana and hiragana, full-width and ASCII letters, capitals and small
/// letters are matched alike: two texts without half-width kana whose
/// characters fold to the same ones have the same units.
pub proof fn law_spelling_variants_share_units(a: Seq<char>, b: Seq<char>)
    requires
        a.len() == b.len(),
        forall|k: int|
            #![trigger a[k]]
            #![trigger b[k]]
            0 <= k < a.len() ==> kana::halfwidth_hiragana(a[k]) is None && kana::halfwidth_hiragana(
                b[k],
            ) is None && wake_fold(a[k]) == wake_fold(b[k]),
    ensures
        wake_units(a) == wake_units(b),
        wake_key(a) == wake_key(b),
{
    lemma_units_from_same_spelling(a, b, 0, None);
}

proof fn lemma_canonical_values(u: Seq<WakeUnit>, v: Seq<WakeUnit>, i: int)
    requires
        values_of(u) == values_of(v),
        0 <= i,
    ensures
        values_of(canonical_from(u, i)) == values_of(canonical_from(v, i)),
    decreases u.len() - i,
{
    assert(values_of(u).len() == u.len() && values_of(v).len() == v.len());
    if i >= u.len() {
        assert(canonical_from(u, i) == canonical_from(v, i));
    } else {
        assert(values_of(u)[i] == u[i].value && values_of(v)[i] == v[i].value);
        let n = alias_len(values_of(u), i);
        if n > 0 {
            lemma_canonical_values(u, v, i + n);
            assert(values_of(canonical_from(u, i)) == seq!['ね', 'ぐ', 'り'] + values_of(
                canonical_from(u, i + n),
            ));
            assert(values_of(canonical_from(v, i)) == seq!['ね', 'ぐ', 'り'] + values_of(
                canonical_from(v, i + n),
            ));
        } else {
            lemma_canonical_values(u, v, i + 1);
            assert(values_of(u)[i] == values_of(v)[i]);
            assert(values_of(canonical_from(u, i)) == seq![u[i].value] + values_of(
                canonical_from(u, i + 1),
            ));
            assert(values_of(canonical_from(v, i)) == seq![v[i].value] + values_of(
                canonical_from(v, i + 1),
            ));
        }
    }
}

/// White space is read as white space.
proof fn lemma_white_is_read_as_white(blank: char)
    requires
        text::is_white(blank),
    ensures
        !kana::is_voicing_mark(blank),
        kana::halfwidth_hiragana(blank) is None,
        text::is_white(wake_fold(blank)),
{
}

/// The reading of a character depends on the character, and for a half-width
/// kana on the voicing mark after it.
proof fn lemma_reading_is_local(a: Seq<char>, i: int, b: Seq<char>, j: int)
    requires
        0 <= i < a.len(),
        0 <= j < b.len(),
        a[i] == b[j],
        kana::halfwidth_hiragana(a[i]) is Some ==> {
            ||| i + 1 < a.len() && j + 1 < b.len() && a[i + 1] == b[j + 1]
            ||| (i + 1 < a.len() ==> !kana::is_voicing_mark(a[i + 1])) && (j + 1 < b.len()
                ==> !kana::is_voicing_mark(b[j + 1]))
        },
    ensures
        source_value(a, i) == source_value(b, j),
        source_width(a, i) == source_width(b, j),
{
}

/// One reading step, seen from the characters alone.
proof fn lemma_values_step(source: Seq<char>, i: int, previous: Option<char>)
    requires
        0 <= i < source.len(),
    ensures
        ({
            let value = source_value(source, i);
            let end = i + source_width(source, i);
            let read = if kana::is_long_mark(value) {
                kana::long_vowel(previous)
            } else {
                value
            };
            values_of(units_from(source, i, previous)) == if text::is_white(value) {
                values_of(units_from(source, end, previous))
            } else {
                seq![read] + values_of(units_from(source, end, Some(read)))
            }
        }),
{
    let value = source_value(source, i);
    let end = i + source_width(source, i);
    let read = if kana::is_long_mark(value) {
        kana::long_vowel(previous)
    } else {
        value
    };
    if !text::is_white(value) {
        let head = WakeUnit { value: read, start: i, end };
        assert(values_of(seq![head] + units_from(source, end, Some(read))) == seq![read]
            + values_of(units_from(source, end, Some(read))));
    }
}

proof fn lemma_values_skip_white(
    source: Seq<char>,
    at: int,
    blank: char,
    i: int,
    previous: Option<char>,
)
    requires
        0 <= at <= source.len(),
        text::is_white(blank),
        0 < at < source.len() && kana::halfwidth_hiragana(source[at - 1]) is Some
            ==> !kana::is_voicing_mark(source[at]),
        0 <= i <= source.len(),
    ensures
        i < at ==> values_of(units_from(source, i, previous)) == values_of(
            units_from(source.insert(at, blank), i, previous),
        ),
        i >= at ==> values_of(units_from(source, i, previous)) == values_of(
            units_from(source.insert(at, blank), i + 1, previous),
        ),
        i == at ==> values_of(units_from(source, i, previous)) == values_of(
            units_from(source.insert(at, blank), i, previous),
        ),
    decreases source.len() - i,
{
    let spaced = source.insert(at, blank);
    lemma_white_is_read_as_white(blank);
    if i < source.len() {
        let value = source_value(source, i);
        let width = source_width(source, i);
        let end = i + width;
        let read = if kana::is_long_mark(value) {
            kana::long_vowel(previous)
        } else {
            value
        };
        let shifted = if i < at {
            i
        } else {
            i + 1
        };
        lemma_reading_is_local(source, i, spaced, shifted);
        lemma_values_step(source, i, previous);
        lemma_values_step(spaced, shifted, previous);
        lemma_values_skip_white(source, at, blank, end, previous);
        lemma_values_skip_white(source, at, blank, end, Some(read));
    }
    if i == at {
        lemma_values_step(spaced, at, previous);
    }
}

/// White space between the characters of a text does not change its key,
/// unless it parts a half-width kana from its voicing mark.
pub proof fn law_white_space_keeps_the_key(source: Seq<char>, at: int, blank: char)
    requires
        0 <= at <= source.len(),
        text::is_white(blank),
        0 < at < source.len() && kana::halfwidth_hiragana(source[at - 1]) is Some
            ==> !kana::is_voicing_mark(source[at]),
    ensures
        wake_key(source.insert(at, blank)) == wake_key(source),
{
    lemma_values_skip_white(source, at, blank, 0, None);
    lemma_canonical_values(
        units_from(source.insert(at, blank), 0, None),
        units_from(source, 0, None),
        0,
    );
}

proof fn lemma_blank_words_have_no_units(source: Seq<char>, i: int, previous: Option<char>)
    requires
        0 <= i <= source.len(),
        text::is_blank(source),
    ensures
        units_from(source, i, previous).len() == 0,
    decreases source.len() - i,
{
    if i < source.len() {
        assert(text::is_white(source[i]));
        lemma_white_is_read_as_white(source[i]);
        lemma_blank_words_have_no_units(source, i + 1, previous);
    }
}

proof fn lemma_blank_words_hold_nothing(source: Seq<char>, words: Seq<Seq<char>>)
    requires
        text::is_blank(source),
    ensures
        first_wake_match(source, words) is None,
    decreases words.len(),
{
    if words.len() > 0 {
        lemma_blank_words_have_no_units(source, 0, None);
        assert(wake_units(source).len() == 0);
        text::lemma_find_from(values_of(wake_units(source)), wake_key(words[0]), 0);
        lemma_blank_words_hold_nothing(source, words.drop_first());
    }
}

/// Words that hold a wake word are not blank.
pub proof fn lemma_matched_words_are_spoken(source: Seq<char>, custom: Seq<Seq<char>>)
    ensures
        wake_match(source, custom) is Some ==> !text::is_blank(source),
{
    if text::is_blank(source) {
        lemma_blank_words_hold_nothing(source, custom);
        lemma_blank_words_hold_nothing(source, default_wake_words());
    }
}

/// The places at which a word can stand decide on the match: the match is what
/// the first word that stands in the text leaves, and there is none where no
/// word stands in it.
proof fn lemma_first_match(source: Seq<char>, words: Seq<Seq<char>>)
    ensures
        (first_wake_match(source, words) is Some) == exists|i: int|
            0 <= i < words.len() && wake_range(source, #[trigger] words[i]) is Some,
        forall|i: int|
            #![trigger words[i]]
            0 <= i < words.len() && wake_range(source, words[i]) is Some && (forall|j: int|
                0 <= j < i ==> wake_range(source, #[trigger] words[j]) is None)
                ==> first_wake_match(source, words) == Some(
                without_range(source, wake_range(source, words[i])->0),
            ),
    decreases words.len(),
{
    if words.len() > 0 {
        let rest = words.drop_first();
        lemma_first_match(source, rest);
        assert(forall|i: int| 0 <= i < rest.len() ==> #[trigger] rest[i] == words[i + 1]);
        assert(forall|i: int| 0 < i < words.len() ==> #[trigger] words[i] == rest[i - 1]);
        if wake_range(source, words[0]) is None {
            assert forall|i: int|
                #![trigger words[i]]
                0 <= i < words.len() && wake_range(source, words[i]) is Some && (forall|j: int|
                    0 <= j < i ==> wake_range(source, #[trigger] words[j]) is None) implies first_wake_match(
                source,
                words,
            ) == Some(without_range(source, wake_range(source, words[i])->0)) by {
                assert(words[i] == rest[i - 1]);
                assert forall|j: int| 0 <= j < i - 1 implies wake_range(
                    source,
                    #[trigger] rest[j],
                ) is None by {
                    assert(rest[j] == words[j + 1]);
                }
            }
        }
    }
}

/// A wake word is heard in a text exactly where the key of the word is not
/// empty and stands in the key of the text. The range is that of the first
/// place: it begins where the first character of the place was read, and ends
/// where the last one was.
pub proof fn law_wake_words_stand_where_their_keys_do(source: Seq<char>, word: Seq<char>)
    ensures
        (wake_range(source, word) is Some) == (wake_key(word).len() > 0 && exists|at: int|
            0 <= at && at + wake_key(word).len() <= wake_key(source).len()
                && #[trigger] wake_key(source).subrange(at, at + wake_key(word).len())
                == wake_key(word)),
        forall|at: int|
            #![trigger wake_key(source).subrange(at, at + wake_key(word).len())]
            wake_key(word).len() > 0 && 0 <= at && at + wake_key(word).len() <= wake_key(
                source,
            ).len() && wake_key(source).subrange(at, at + wake_key(word).len()) == wake_key(word)
                ==> (wake_range(source, word)->0).0 <= wake_units(source)[at].start && (wake_range(
                source,
                word,
            )->0).1 <= wake_units(source)[at + wake_key(word).len() - 1].end,
        wake_range(source, word) matches Some(range) ==> exists|at: int|
            0 <= at && at + wake_key(word).len() <= wake_key(source).len()
                && #[trigger] wake_key(source).subrange(at, at + wake_key(word).len())
                == wake_key(word) && range.0 == wake_units(source)[at].start && range.1
                == wake_units(source)[at + wake_key(word).len() - 1].end,
{
    lemma_wake_units_in_order(source);
    let units = wake_units(source);
    let key = wake_key(word);
    let hay = wake_key(source);
    text::lemma_find_from(hay, key, 0);
    assert(hay.len() == units.len());
    if key.len() > 0 {
        assert forall|at: int|
            #![trigger hay.subrange(at, at + key.len())]
            0 <= at && at + key.len() <= hay.len() && hay.subrange(at, at + key.len())
                == key implies wake_range(source, word) is Some && (wake_range(source, word)->0).0
            <= units[at].start && (wake_range(source, word)->0).1 <= units[at + key.len() - 1].end by {
            assert(text::occurs_at(hay, key, at));
            let first = text::find_from(hay, key, 0)->0;
            assert(first <= at);
            assert(units[first].start <= units[at].start);
            assert(units[first + key.len() - 1].end <= units[at + key.len() - 1].end);
        }
        if let Some(first) = text::find_from(hay, key, 0) {
            assert(hay.subrange(first, first + key.len()) == key);
        }
    }
}

/// Every wake word of the user's own is heard: where one stands in the text
/// there is a match, and what is left is the text without the range of the
/// first of them in their order, trimmed.
pub proof fn law_the_first_custom_wake_word_is_removed(
    source: Seq<char>,
    custom: Seq<Seq<char>>,
    i: int,
)
    requires
        0 <= i < custom.len(),
        wake_range(source, custom[i]) is Some,
    ensures
        wake_match(source, custom) is Some,
        (forall|j: int| 0 <= j < i ==> wake_range(source, #[trigger] custom[j]) is None)
            ==> wake_match(source, custom) == Some(
            text::trimmed(
                source.take((wake_range(source, custom[i])->0).0) + source.skip(
                    (wake_range(source, custom[i])->0).1,
                ),
            ),
        ),
{
    lemma_first_match(source, custom);
}

/// The built-in words.
proof fn lemma_built_in_words(word: Seq<char>)
    ensures
        default_wake_words().contains(word) == ({
            ||| word == "ねえぐり"@
            ||| word == "ねぐり"@
            ||| word == "ネグリ"@
            ||| word == "ねーぐり"@
            ||| word == "ねぇぐり"@
            ||| word == "ね〜ぐり"@
            ||| word == "ね～ぐり"@
            ||| word == "ね~ぐり"@
            ||| word == "neguri"@
            ||| word == "アシスタント"@
            ||| word == "ヘイぐり"@
        }),
{
    let words = default_wake_words();
    assert(words.len() == 11);
    assert(words[0] == "ねえぐり"@ && words[1] == "ねぐり"@ && words[2] == "ネグリ"@ && words[3]
        == "ねーぐり"@ && words[4] == "ねぇぐり"@ && words[5] == "ね〜ぐり"@ && words[6]
        == "ね～ぐり"@ && words[7] == "ね~ぐり"@ && words[8] == "neguri"@ && words[9]
        == "アシスタント"@ && words[10] == "ヘイぐり"@);
}

proof fn lemma_listed_words_are_heard(source: Seq<char>, words: Seq<Seq<char>>, word: Seq<char>)
    requires
        words.contains(word),
        wake_range(source, word) is Some,
    ensures
        first_wake_match(source, words) is Some,
{
    lemma_first_match(source, words);
    let i = choose|i: int| 0 <= i < words.len() && words[i] == word;
    assert(wake_range(source, words[i]) is Some);
}

proof fn lemma_heard_words_are_listed(source: Seq<char>, words: Seq<Seq<char>>) -> (word: Seq<
    char,
>)
    requires
        first_wake_match(source, words) is Some,
    ensures
        words.contains(word),
        wake_range(source, word) is Some,
{
    lemma_first_match(source, words);
    let i = choose|i: int| 0 <= i < words.len() && wake_range(source, #[trigger] words[i]) is Some;
    words[i]
}

/// Every built-in wake word is heard, whatever the user's own words are.
pub proof fn law_built_in_wake_words_are_heard(
    source: Seq<char>,
    custom: Seq<Seq<char>>,
    word: Seq<char>,
)
    requires
        ({
            ||| word == "ねえぐり"@
            ||| word == "ねぐり"@
            ||| word == "ネグリ"@
            ||| word == "ねーぐり"@
            ||| word == "ねぇぐり"@
            ||| word == "ね〜ぐり"@
            ||| word == "ね～ぐり"@
            ||| word == "ね~ぐり"@
            ||| word == "neguri"@
            ||| word == "アシスタント"@
            ||| word == "ヘイぐり"@
        }),
        wake_range(source, word) is Some,
    ensures
        wake_match(source, custom) is Some,
{
    lemma_built_in_words(word);
    lemma_listed_words_are_heard(source, default_wake_words(), word);
}

/// Where none of the user's own words stands in the text, the first built-in
/// word that does is removed, in their order.
pub proof fn law_the_first_built_in_wake_word_is_removed(
    source: Seq<char>,
    custom: Seq<Seq<char>>,
    i: int,
)
    requires
        forall|j: int| 0 <= j < custom.len() ==> wake_range(source, #[trigger] custom[j]) is None,
        0 <= i < default_wake_words().len(),
        wake_range(source, default_wake_words()[i]) is Some,
        forall|j: int|
            0 <= j < i ==> wake_range(source, #[trigger] default_wake_words()[j]) is None,
    ensures
        wake_match(source, custom) == Some(
            text::trimmed(
                source.take((wake_range(source, default_wake_words()[i])->0).0) + source.skip(
                    (wake_range(source, default_wake_words()[i])->0).1,
                ),
            ),
        ),
{
    lemma_first_match(source, custom);
    lemma_first_match(source, default_wake_words());
}

/// A match comes from a word: where neither a word of the user's own nor a
/// built-in one stands in the text, there is none.
pub proof fn law_nothing_else_wakes(source: Seq<char>, custom: Seq<Seq<char>>)
    requires
        wake_match(source, custom) is Some,
    ensures
        ({
            ||| exists|i: int|
                0 <= i < custom.len() && wake_range(source, #[trigger] custom[i]) is Some
            ||| wake_range(source, "ねえぐり"@) is Some
            ||| wake_range(source, "ねぐり"@) is Some
            ||| wake_range(source, "ネグリ"@) is Some
            ||| wake_range(source, "ねーぐり"@) is Some
            ||| wake_range(source, "ねぇぐり"@) is Some
            ||| wake_range(source, "ね〜ぐり"@) is Some
            ||| wake_range(source, "ね～ぐり"@) is Some
            ||| wake_range(source, "ね~ぐり"@) is Some
            ||| wake_range(source, "neguri"@) is Some
            ||| wake_range(source, "アシスタント"@) is Some
            ||| wake_range(source, "ヘイぐり"@) is Some
        }),
{
    if first_wake_match(source, custom) is Some {
        let word = lemma_heard_words_are_listed(source, custom);
        let i = choose|i: int| 0 <= i < custom.len() && custom[i] == word;
        assert(wake_range(source, custom[i]) is Some);
    } else {
        let word = lemma_heard_words_are_listed(source, default_wake_words());
        lemma_built_in_words(word);
    }
}

/// Whether a character is written in one way only: an ideograph, a plain
/// full-size hiragana, a small ASCII letter or a digit.
pub open spec fn is_plain_spelling(c: char) -> bool {
    ||| '\u{4e00}' <= c && c <= '\u{9fff}'
    ||| 'か' <= c && c <= 'ぢ'
    ||| 'つ' <= c && c <= 'も'
    ||| 'ら' <= c && c <= 'ろ'
    ||| c == 'あ' || c == 'い' || c == 'う' || c == 'え' || c == 'お'
    ||| c == 'や' || c == 'ゆ' || c == 'よ' || c == 'わ' || c == 'を' || c == 'ん'
    ||| 'a' <= c && c <= 'z'
    ||| '0' <= c && c <= '9'
}

proof fn lemma_plain_spelling_is_kept(c: char)
    requires
        is_plain_spelling(c),
    ensures
        wake_fold(c) == c,
        kana::halfwidth_hiragana(c) is None,
        !text::is_white(c),
        !kana::is_long_mark(c),
{
    assert(kana::narrow_ascii(c) == c);
    kana::law_folding_settles(c);
    kana::law_five_marks_lengthen(c);
    kana::law_half_width_kana_follow_the_syllables(c, c);
}

proof fn lemma_plain_texts_are_read_as_they_are(
    source: Seq<char>,
    i: int,
    previous: Option<char>,
)
    requires
        0 <= i <= source.len(),
        forall|k: int| 0 <= k < source.len() ==> is_plain_spelling(#[trigger] source[k]),
    ensures
        values_of(units_from(source, i, previous)) == source.skip(i),
    decreases source.len() - i,
{
    if i < source.len() {
        lemma_plain_spelling_is_kept(source[i]);
        lemma_values_step(source, i, previous);
        lemma_plain_texts_are_read_as_they_are(source, i + 1, Some(source[i]));
        assert(source.skip(i) == seq![source[i]] + source.skip(i + 1));
    } else {
        assert(source.skip(i) == Seq::<char>::empty());
    }
}

proof fn lemma_without_aliases_nothing_changes(units: Seq<WakeUnit>, i: int)
    requires
        0 <= i <= units.len(),
        forall|k: int| i <= k < units.len() ==> #[trigger] alias_len(values_of(units), k) == 0,
    ensures
        canonical_from(units, i) == units.skip(i),
    decreases units.len() - i,
{
    if i < units.len() {
        assert(alias_len(values_of(units), i) == 0);
        lemma_without_aliases_nothing_changes(units, i + 1);
        assert(units.skip(i) == seq![units[i]] + units.skip(i + 1));
    } else {
        assert(units.skip(i) == Seq::<WakeUnit>::empty());
    }
}

/// A text that is written in one way only, and holds no other name of the wake
/// word, is its own key: no character is lost, added or taken for another.
pub proof fn law_plain_texts_are_their_own_key(source: Seq<char>)
    requires
        forall|k: int| 0 <= k < source.len() ==> is_plain_spelling(#[trigger] source[k]),
        !text::contains_text(source, seq!['ね', 'え', 'ぐ', 'り']),
        !text::contains_text(source, seq!['n', 'e', 'g', 'u', 'r', 'i']),
    ensures
        wake_key(source) == source,
{
    let units = units_from(source, 0, None);
    lemma_plain_texts_are_read_as_they_are(source, 0, None);
    assert(source.skip(0) == source);
    assert forall|k: int| 0 <= k < units.len() implies #[trigger] alias_len(values_of(units), k)
        == 0 by {
        assert(!text::occurs_at(source, seq!['ね', 'え', 'ぐ', 'り'], k));
        assert(!text::occurs_at(source, seq!['n', 'e', 'g', 'u', 'r', 'i'], k));
    }
    lemma_without_aliases_nothing_changes(units, 0);
    assert(units.skip(0) == units);
}

/// The other names of the wake word are read as ねぐり over their whole range,
/// and what follows them is read on after them.
pub proof fn law_other_names_are_read_as_the_wake_word(units: Seq<WakeUnit>, i: int, n: int)
    requires
        0 <= i,
        i + n <= units.len(),
        n == 4 && values_of(units).subrange(i, i + 4) == seq!['ね', 'え', 'ぐ', 'り'] || n == 6
            && values_of(units).subrange(i, i + 6) == seq!['n', 'e', 'g', 'u', 'r', 'i'],
    ensures
        ({
            let read = canonical_from(units, i);
            let start = units[i].start;
            let end = units[i + n - 1].end;
            &&& read.len() == 3 + canonical_from(units, i + n).len()
            &&& read[0] == (WakeUnit { value: 'ね', start, end })
            &&& read[1] == (WakeUnit { value: 'ぐ', start, end })
            &&& read[2] == (WakeUnit { value: 'り', start, end })
            &&& read.skip(3) == canonical_from(units, i + n)
        }),
{
    let values = values_of(units);
    if n == 6 {
        assert(values.subrange(i, i + 6)[0] == values[i]);
        if text::occurs_at(values, seq!['ね', 'え', 'ぐ', 'り'], i) {
            assert(values.subrange(i, i + 4)[0] == values[i]);
        }
    }
    assert(canonical_from(units, i).skip(3) == canonical_from(units, i + n));
}

proof fn lemma_white_around_units(source: Seq<char>, i: int, previous: Option<char>)
    requires
        0 <= i <= source.len(),
    ensures
        ({
            let units = units_from(source, i, previous);
            &&& units.len() == 0 ==> forall|k: int|
                i <= k < source.len() ==> text::is_white(#[trigger] source[k])
            &&& units.len() > 0 ==> forall|k: int|
                i <= k < units[0].start ==> text::is_white(#[trigger] source[k])
            &&& units.len() > 0 ==> forall|k: int|
                units.last().end <= k < source.len() ==> text::is_white(#[trigger] source[k])
        }),
    decreases source.len() - i,
{
    if i < source.len() {
        let value = source_value(source, i);
        let end = i + source_width(source, i);
        if text::is_white(value) {
            if !text::is_white(source[i]) {
                lemma_spoken_is_read_as_spoken(source, i);
            }
            lemma_white_is_read_as_white(source[i]);
            lemma_white_around_units(source, i + 1, previous);
        } else {
            let read = if kana::is_long_mark(value) {
                kana::long_vowel(previous)
            } else {
                value
            };
            lemma_white_around_units(source, end, Some(read));
            let rest = units_from(source, end, Some(read));
            let units = units_from(source, i, previous);
            assert(units[0].start == i);
            if rest.len() > 0 {
                assert(units.last() == rest.last());
            }
        }
    }
}

proof fn lemma_canonical_edges(units: Seq<WakeUnit>, i: int)
    requires
        0 <= i < units.len(),
    ensures
        canonical_from(units, i).len() > 0,
        canonical_from(units, i)[0].start == units[i].start,
        canonical_from(units, i).last().end == units.last().end,
    decreases units.len() - i,
{
    let n = alias_len(values_of(units), i);
    let next = if n > 0 {
        i + n
    } else {
        i + 1
    };
    let rest = canonical_from(units, next);
    let all = canonical_from(units, i);
    if next < units.len() {
        lemma_canonical_edges(units, next);
        assert(all.last() == rest.last());
    } else {
        assert(rest == Seq::<WakeUnit>::empty());
    }
}

/// A text that is the wake word alone, in whatever spelling and with white
/// space around it or in it, leaves nothing.
pub proof fn law_the_wake_word_alone_leaves_nothing(source: Seq<char>, word: Seq<char>)
    requires
        !text::is_blank(source),
        wake_key(source) == wake_key(word),
    ensures
        wake_range(source, word) is Some,
        text::trimmed(
            source.take((wake_range(source, word)->0).0) + source.skip(
                (wake_range(source, word)->0).1,
            ),
        ).len() == 0,
        remaining_is_blank(source, wake_range(source, word)->0),
{
    let key = wake_key(word);
    let read = units_from(source, 0, None);
    let units = wake_units(source);
    lemma_spoken_words_have_a_key(source);
    lemma_wake_range_in_source(source, word);
    lemma_white_around_units(source, 0, None);
    lemma_canonical_edges(read, 0);
    assert(key.subrange(0, key.len() as int) == key);
    assert(text::occurs_at(wake_key(source), key, 0));
    assert(text::find_from(wake_key(source), key, 0) == Some(0int));
    assert(units.len() == key.len());
    let range = wake_range(source, word)->0;
    let rest = source.take(range.0) + source.skip(range.1);
    assert forall|k: int| 0 <= k < rest.len() implies text::is_white(#[trigger] rest[k]) by {
        if k < range.0 {
            assert(rest[k] == source[k]);
        } else {
            assert(rest[k] == source[k - range.0 + range.1]);
        }
    }
    text::lemma_blank_iff_trimmed_empty(rest);
}

/// Whether a text holds nothing but white space outside a range.
pub open spec fn remaining_is_blank(source: Seq<char>, range: (int, int)) -> bool {
    forall|k: int|
        0 <= k < source.len() && !(range.0 <= k < range.1) ==> text::is_white(#[trigger] source[k])
}

/// What is left of a text once a wake word is removed stands in it in the same
/// order: the characters outside of the range of the word, trimmed.
pub proof fn law_removing_keeps_the_rest(source: Seq<char>, custom: Seq<Seq<char>>, rest: Seq<char>)
    requires
        wake_match(source, custom) == Some(rest),
    ensures
        exists|from: int, to: int|
            0 <= from < to <= source.len() && rest == #[trigger] text::trimmed(
                source.take(from) + source.skip(to),
            ),
{
    let word = if first_wake_match(source, custom) is Some {
        lemma_first_match(source, custom);
        lemma_removed_word(source, custom)
    } else {
        lemma_removed_word(source, default_wake_words())
    };
    lemma_wake_range_in_source(source, word);
    let range = wake_range(source, word)->0;
    assert(rest == text::trimmed(source.take(range.0) + source.skip(range.1)));
}

proof fn lemma_removed_word(source: Seq<char>, words: Seq<Seq<char>>) -> (word: Seq<char>)
    requires
        first_wake_match(source, words) is Some,
    ensures
        wake_range(source, word) is Some,
        first_wake_match(source, words) == Some(
            without_range(source, wake_range(source, word)->0),
        ),
    decreases words.len(),
{
    if wake_range(source, words[0]) is Some {
        words[0]
    } else {
        lemma_removed_word(source, words.drop_first())
    }
}

} // verus!
