//! Folding of kana, width and case to one spelling.
use vstd::prelude::*;

use crate::text;

verus! {

/// The full-size form of a small hiragana; any other character is kept.
pub open spec fn full_size_kana(c: char) -> char {
    match c {
        'ぁ' => 'あ',
        'ぃ' => 'い',
        'ぅ' => 'う',
        'ぇ' => 'え',
        'ぉ' => 'お',
        'っ' => 'つ',
        'ゃ' => 'や',
        'ゅ' => 'ゆ',
        'ょ' => 'よ',
        _ => c,
    }
}

pub fn full_size_kana_char(c: char) -> (res: char)
    ensures
        res == full_size_kana(c),
{
    match c {
        'ぁ' => 'あ',
        'ぃ' => 'い',
        'ぅ' => 'う',
        'ぇ' => 'え',
        'ぉ' => 'お',
        'っ' => 'つ',
        'ゃ' => 'や',
        'ゅ' => 'ゆ',
        'ょ' => 'よ',
        _ => c,
    }
}

/// Whether a character is a katakana that has a hiragana counterpart.
pub open spec fn is_katakana(c: char) -> bool {
    'ァ' <= c && c <= 'ヶ'
}

/// One folding step: katakana becomes hiragana, a wave dash becomes the long
/// vowel mark, a small hiragana becomes full size, an ASCII capital becomes
/// lower case.
pub open spec fn fold_kana(c: char) -> char {
    if is_katakana(c) {
        ((c as u32) - 0x60) as char
    } else if c == '〜' || c == '～' {
        'ー'
    } else {
        text::ascii_lower(full_size_kana(c))
    }
}

pub fn fold_kana_char(c: char) -> (res: char)
    ensures
        res == fold_kana(c),
{
    if 'ァ' <= c && c <= 'ヶ' {
        match char::from_u32(c as u32 - 0x60) {
            Some(hiragana) => hiragana,
            None => c,
        }
    } else if c == '〜' || c == '～' {
        'ー'
    } else {
        text::ascii_lower_char(full_size_kana_char(c))
    }
}

/// Every character of a text folded once.
pub open spec fn folded_kana(s: Seq<char>) -> Seq<char> {
    s.map_values(|c: char| fold_kana(c))
}

/// Folds katakana to hiragana, wave dashes to long vowel marks, small
/// hiragana to full size and ASCII capitals to lower case.
pub fn normalize_kana(source: &str) -> (res: String)
    ensures
        res@ == folded_kana(source@),
{
    let chars = text::chars_of(source);
    let mut folded = String::new();
    let mut i: usize = 0;
    while i < chars.len()
        invariant
            i <= chars@.len(),
            chars@ == source@,
            folded@ == folded_kana(source@.take(i as int)),
        decreases chars@.len() - i,
    {
        folded.push(fold_kana_char(chars[i]));
        i += 1;
        assert(folded_kana(source@.take(i as int)) == folded_kana(source@.take(i - 1)).push(
            fold_kana(source@[i - 1]),
        ));
    }
    assert(source@.take(source@.len() as int) == source@);
    folded
}

/// The ASCII form of a full-width ASCII character or of the ideographic
/// space; any other character is kept.
pub open spec fn narrow_ascii(c: char) -> char {
    if '\u{ff01}' <= c && c <= '\u{ff5e}' {
        ((c as u32) - 0xfee0) as char
    } else if c == '\u{3000}' {
        ' '
    } else {
        c
    }
}

/// Converts a full-width ASCII character to its ASCII form.
pub fn normalize_fullwidth_ascii(source_char: char) -> (res: char)
    ensures
        res == narrow_ascii(source_char),
{
    if '\u{ff01}' <= source_char && source_char <= '\u{ff5e}' {
        match char::from_u32(source_char as u32 - 0xfee0) {
            Some(narrow) => narrow,
            None => source_char,
        }
    } else if source_char == '\u{3000}' {
        ' '
    } else {
        source_char
    }
}

/// The full-size hiragana that a half-width katakana stands for.
pub open spec fn halfwidth_hiragana(c: char) -> Option<char> {
    match c {
        'ｦ' => Some('を'),
        'ｧ' => Some('あ'),
        'ｨ' => Some('い'),
        'ｩ' => Some('う'),
        'ｪ' => Some('え'),
        'ｫ' => Some('お'),
        'ｬ' => Some('や'),
        'ｭ' => Some('ゆ'),
        'ｮ' => Some('よ'),
        'ｯ' => Some('つ'),
        'ｰ' => Some('ー'),
        'ｱ' => Some('あ'),
        'ｲ' => Some('い'),
        'ｳ' => Some('う'),
        'ｴ' => Some('え'),
        'ｵ' => Some('お'),
        'ｶ' => Some('か'),
        'ｷ' => Some('き'),
        'ｸ' => Some('く'),
        'ｹ' => Some('け'),
        'ｺ' => Some('こ'),
        'ｻ' => Some('さ'),
        'ｼ' => Some('し'),
        'ｽ' => Some('す'),
        'ｾ' => Some('せ'),
        'ｿ' => Some('そ'),
        'ﾀ' => Some('た'),
        'ﾁ' => Some('ち'),
        'ﾂ' => Some('つ'),
        'ﾃ' => Some('て'),
        'ﾄ' => Some('と'),
        'ﾅ' => Some('な'),
        'ﾆ' => Some('に'),
        'ﾇ' => Some('ぬ'),
        'ﾈ' => Some('ね'),
        'ﾉ' => Some('の'),
        'ﾊ' => Some('は'),
        'ﾋ' => Some('ひ'),
        'ﾌ' => Some('ふ'),
        'ﾍ' => Some('へ'),
        'ﾎ' => Some('ほ'),
        'ﾏ' => Some('ま'),
        'ﾐ' => Some('み'),
        'ﾑ' => Some('む'),
        'ﾒ' => Some('め'),
        'ﾓ' => Some('も'),
        'ﾔ' => Some('や'),
        'ﾕ' => Some('ゆ'),
        'ﾖ' => Some('よ'),
        'ﾗ' => Some('ら'),
        'ﾘ' => Some('り'),
        'ﾙ' => Some('る'),
        'ﾚ' => Some('れ'),
        'ﾛ' => Some('ろ'),
        'ﾜ' => Some('わ'),
        'ﾝ' => Some('ん'),
        _ => None,
    }
}

/// Converts half-width katakana to hiragana. A voicing mark that follows is
/// not looked at here, so that a pair such as ｸﾞ can map to one character.
pub fn normalize_halfwidth_kana(source_char: char) -> (res: Option<char>)
    ensures
        res == halfwidth_hiragana(source_char),
{
    match source_char {
        'ｦ' => Some('を'),
        'ｧ' => Some('あ'),
        'ｨ' => Some('い'),
        'ｩ' => Some('う'),
        'ｪ' => Some('え'),
        'ｫ' => Some('お'),
        'ｬ' => Some('や'),
        'ｭ' => Some('ゆ'),
        'ｮ' => Some('よ'),
        'ｯ' => Some('つ'),
        'ｰ' => Some('ー'),
        'ｱ' => Some('あ'),
        'ｲ' => Some('い'),
        'ｳ' => Some('う'),
        'ｴ' => Some('え'),
        'ｵ' => Some('お'),
        'ｶ' => Some('か'),
        'ｷ' => Some('き'),
        'ｸ' => Some('く'),
        'ｹ' => Some('け'),
        'ｺ' => Some('こ'),
        'ｻ' => Some('さ'),
        'ｼ' => Some('し'),
        'ｽ' => Some('す'),
        'ｾ' => Some('せ'),
        'ｿ' => Some('そ'),
        'ﾀ' => Some('た'),
        'ﾁ' => Some('ち'),
        'ﾂ' => Some('つ'),
        'ﾃ' => Some('て'),
        'ﾄ' => Some('と'),
        'ﾅ' => Some('な'),
        'ﾆ' => Some('に'),
        'ﾇ' => Some('ぬ'),
        'ﾈ' => Some('ね'),
        'ﾉ' => Some('の'),
        'ﾊ' => Some('は'),
        'ﾋ' => Some('ひ'),
        'ﾌ' => Some('ふ'),
        'ﾍ' => Some('へ'),
        'ﾎ' => Some('ほ'),
        'ﾏ' => Some('ま'),
        'ﾐ' => Some('み'),
        'ﾑ' => Some('む'),
        'ﾒ' => Some('め'),
        'ﾓ' => Some('も'),
        'ﾔ' => Some('や'),
        'ﾕ' => Some('ゆ'),
        'ﾖ' => Some('よ'),
        'ﾗ' => Some('ら'),
        'ﾘ' => Some('り'),
        'ﾙ' => Some('る'),
        'ﾚ' => Some('れ'),
        'ﾛ' => Some('ろ'),
        'ﾜ' => Some('わ'),
        'ﾝ' => Some('ん'),
        _ => None,
    }
}

/// Whether a character is a half-width voicing mark.
pub open spec fn is_voicing_mark(c: char) -> bool {
    c == 'ﾞ' || c == 'ﾟ'
}

/// The hiragana `base` with the half-width voicing mark `mark`.
pub open spec fn voiced_kana(base: char, mark: Option<char>) -> char {
    match mark {
        Some('ﾞ') => match base {
            'う' => 'ゔ',
            'か' => 'が',
            'き' => 'ぎ',
            'く' => 'ぐ',
            'け' => 'げ',
            'こ' => 'ご',
            'さ' => 'ざ',
            'し' => 'じ',
            'す' => 'ず',
            'せ' => 'ぜ',
            'そ' => 'ぞ',
            'た' => 'だ',
            'ち' => 'ぢ',
            'つ' => 'づ',
            'て' => 'で',
            'と' => 'ど',
            'は' => 'ば',
            'ひ' => 'び',
            'ふ' => 'ぶ',
            'へ' => 'べ',
            'ほ' => 'ぼ',
            _ => base,
        },
        Some('ﾟ') => match base {
            'は' => 'ぱ',
            'ひ' => 'ぴ',
            'ふ' => 'ぷ',
            'へ' => 'ぺ',
            'ほ' => 'ぽ',
            _ => base,
        },
        _ => base,
    }
}

/// Applies a half-width voicing mark to a hiragana.
pub fn apply_halfwidth_diacritic(base: char, mark: Option<char>) -> (res: char)
    ensures
        res == voiced_kana(base, mark),
{
    match mark {
        Some('ﾞ') => match base {
            'う' => 'ゔ',
            'か' => 'が',
            'き' => 'ぎ',
            'く' => 'ぐ',
            'け' => 'げ',
            'こ' => 'ご',
            'さ' => 'ざ',
            'し' => 'じ',
            'す' => 'ず',
            'せ' => 'ぜ',
            'そ' => 'ぞ',
            'た' => 'だ',
            'ち' => 'ぢ',
            'つ' => 'づ',
            'て' => 'で',
            'と' => 'ど',
            'は' => 'ば',
            'ひ' => 'び',
            'ふ' => 'ぶ',
            'へ' => 'べ',
            'ほ' => 'ぼ',
            _ => base,
        },
        Some('ﾟ') => match base {
            'は' => 'ぱ',
            'ひ' => 'ぴ',
            'ふ' => 'ぷ',
            'へ' => 'ぺ',
            'ほ' => 'ぽ',
            _ => base,
        },
        _ => base,
    }
}

/// Whether a character lengthens the vowel before it.
pub open spec fn is_long_mark(c: char) -> bool {
    c == 'ー' || c == '〜' || c == '～' || c == '-' || c == '~'
}

/// Tells whether a character lengthens the vowel before it.
pub fn is_wake_long_mark(source_char: char) -> (res: bool)
    ensures
        res == is_long_mark(source_char),
{
    source_char == 'ー' || source_char == '〜' || source_char == '～' || source_char == '-'
        || source_char == '~'
}

/// The vowel that a long vowel mark after `previous` stands for; the mark
/// itself where the character before it has no vowel.
pub open spec fn long_vowel(previous: Option<char>) -> char {
    match previous {
        Some('あ' | 'か' | 'が' | 'さ' | 'ざ' | 'た' | 'だ' | 'な' | 'は' | 'ば' | 'ぱ'
            | 'ま' | 'や' | 'ら' | 'わ' | 'ぁ' | 'ゃ') => 'あ',
        Some('い' | 'き' | 'ぎ' | 'し' | 'じ' | 'ち' | 'ぢ' | 'に' | 'ひ' | 'び' | 'ぴ'
            | 'み' | 'り' | 'ゐ' | 'ぃ' | 'ゅ') => 'い',
        Some('う' | 'く' | 'ぐ' | 'す' | 'ず' | 'つ' | 'づ' | 'ぬ' | 'ふ' | 'ぶ' | 'ぷ'
            | 'む' | 'ゆ' | 'る' | 'ゔ' | 'ぅ') => 'う',
        Some('え' | 'け' | 'げ' | 'せ' | 'ぜ' | 'て' | 'で' | 'ね' | 'へ' | 'べ' | 'ぺ'
            | 'め' | 'れ' | 'ゑ' | 'ぇ') => 'え',
        Some('お' | 'こ' | 'ご' | 'そ' | 'ぞ' | 'と' | 'ど' | 'の' | 'ほ' | 'ぼ' | 'ぽ'
            | 'も' | 'よ' | 'ろ' | 'を' | 'ぉ') => 'お',
        _ => 'ー',
    }
}

/// Expands a long vowel mark according to the kana before it.
pub fn long_vowel_for(previous: Option<char>) -> (res: char)
    ensures
        res == long_vowel(previous),
{
    match previous {
        Some('あ' | 'か' | 'が' | 'さ' | 'ざ' | 'た' | 'だ' | 'な' | 'は' | 'ば' | 'ぱ'
            | 'ま' | 'や' | 'ら' | 'わ' | 'ぁ' | 'ゃ') => 'あ',
        Some('い' | 'き' | 'ぎ' | 'し' | 'じ' | 'ち' | 'ぢ' | 'に' | 'ひ' | 'び' | 'ぴ'
            | 'み' | 'り' | 'ゐ' | 'ぃ' | 'ゅ') => 'い',
        Some('う' | 'く' | 'ぐ' | 'す' | 'ず' | 'つ' | 'づ' | 'ぬ' | 'ふ' | 'ぶ' | 'ぷ'
            | 'む' | 'ゆ' | 'る' | 'ゔ' | 'ぅ') => 'う',
        Some('え' | 'け' | 'げ' | 'せ' | 'ぜ' | 'て' | 'で' | 'ね' | 'へ' | 'べ' | 'ぺ'
            | 'め' | 'れ' | 'ゑ' | 'ぇ') => 'え',
        Some('お' | 'こ' | 'ご' | 'そ' | 'ぞ' | 'と' | 'ど' | 'の' | 'ほ' | 'ぼ' | 'ぽ'
            | 'も' | 'よ' | 'ろ' | 'を' | 'ぉ') => 'お',
        _ => 'ー',
    }
}

/// Katakana and hiragana fold to the same characters: two steps of folding take
/// a katakana to what they take the hiragana to that stands at the same place.
pub proof fn law_katakana_fold_to_hiragana(c: char)
    requires
        'ァ' <= c && c <= 'ヶ',
    ensures
        fold_kana(c) as u32 == c as u32 - 0x60,
        fold_kana(fold_kana(c)) == fold_kana(((c as u32) - 0x60) as char),
        'ぁ' <= fold_kana(c) && fold_kana(c) <= 'ゖ',
{
}

/// Folding ends after two steps; full-size hiragana, ideographs, digits and
/// small ASCII letters are kept from the beginning.
pub proof fn law_folding_settles(c: char)
    ensures
        fold_kana(fold_kana(fold_kana(c))) == fold_kana(fold_kana(c)),
        'a' <= c && c <= 'z' ==> fold_kana(c) == c,
        '0' <= c && c <= '9' ==> fold_kana(c) == c,
        '\u{4e00}' <= c && c <= '\u{9fff}' ==> fold_kana(c) == c,
        'A' <= c && c <= 'Z' ==> fold_kana(c) as u32 == c as u32 + 32,
        c == '〜' || c == '～' ==> fold_kana(c) == 'ー',
        c == 'ー' ==> fold_kana(c) == 'ー',
        'か' <= c && c <= 'ぢ' || 'つ' <= c && c <= 'も' || 'ら' <= c && c <= 'ろ' || c == 'あ' || c
            == 'い' || c == 'う' || c == 'え' || c == 'お' || c == 'や' || c == 'ゆ' || c == 'よ' || c
            == 'わ' || c == 'を' || c == 'ん' ==> fold_kana(c) == c,
{
}

/// A small hiragana is read as the full-size one that follows it in the table
/// of characters.
pub proof fn law_small_kana_are_read_as_full_size(c: char)
    ensures
        c == 'ぁ' || c == 'ぃ' || c == 'ぅ' || c == 'ぇ' || c == 'ぉ' || c == 'っ' || c == 'ゃ' || c
            == 'ゅ' || c == 'ょ' ==> full_size_kana(c) as u32 == c as u32 + 1,
        full_size_kana(full_size_kana(c)) == full_size_kana(c),
        full_size_kana(c) == c || full_size_kana(c) as u32 == c as u32 + 1,
        !('ぁ' <= c && c <= 'ょ') ==> full_size_kana(c) == c,
{
}

/// A text is folded character by character.
pub proof fn law_texts_are_folded_by_character(a: Seq<char>, b: Seq<char>, i: int)
    ensures
        folded_kana(a).len() == a.len(),
        0 <= i < a.len() ==> folded_kana(a)[i] == fold_kana(a[i]),
        folded_kana(a + b) == folded_kana(a) + folded_kana(b),
{
    assert(folded_kana(a + b) == folded_kana(a) + folded_kana(b));
}

/// A full-width character is read as the ASCII character that it shows, and the
/// wide space as a space; nothing else changes.
pub proof fn law_wide_characters_are_narrowed(c: char)
    ensures
        '\u{ff01}' <= c && c <= '\u{ff5e}' ==> narrow_ascii(c) as u32 == c as u32 - 0xfee0 && '!'
            <= narrow_ascii(c) && narrow_ascii(c) <= '~',
        c == '\u{3000}' ==> narrow_ascii(c) == ' ',
        !('\u{ff01}' <= c && c <= '\u{ff5e}') && c != '\u{3000}' ==> narrow_ascii(c) == c,
{
}

/// Half-width kana are read as hiragana, in the order of the syllables: of two
/// of them the later one stands for the later hiragana. None stands for a
/// voiced one, a small one or を, and a small half-width kana stands for what
/// the full-size one does.
pub proof fn law_half_width_kana_follow_the_syllables(c: char, d: char)
    ensures
        (halfwidth_hiragana(c) is Some) == ('ｦ' <= c && c <= 'ﾝ'),
        'ｱ' <= c && c < d && d <= 'ﾝ' ==> halfwidth_hiragana(c)->0 < halfwidth_hiragana(d)->0,
        'ｱ' <= c && c <= 'ﾝ' ==> ({
            let base = halfwidth_hiragana(c)->0;
            &&& 'あ' <= base && base <= 'ん'
            &&& full_size_kana(base) == base
            &&& base != 'を' && base != 'ゎ' && base != 'ゐ' && base != 'ゑ'
            &&& base != 'が' && base != 'ぎ' && base != 'ぐ' && base != 'げ' && base != 'ご'
            &&& base != 'ざ' && base != 'じ' && base != 'ず' && base != 'ぜ' && base != 'ぞ'
            &&& base != 'だ' && base != 'ぢ' && base != 'づ' && base != 'で' && base != 'ど'
            &&& base != 'ば' && base != 'び' && base != 'ぶ' && base != 'べ' && base != 'ぼ'
            &&& base != 'ぱ' && base != 'ぴ' && base != 'ぷ' && base != 'ぺ' && base != 'ぽ'
        }),
        'ｧ' <= c && c <= 'ｫ' ==> halfwidth_hiragana(c) == halfwidth_hiragana(
            ((c as u32) + 10) as char,
        ),
        'ｬ' <= c && c <= 'ｮ' ==> halfwidth_hiragana(c) == halfwidth_hiragana(
            ((c as u32) + 40) as char,
        ),
        c == 'ｯ' ==> halfwidth_hiragana(c) == halfwidth_hiragana('ﾂ'),
        c == 'ｦ' ==> halfwidth_hiragana(c) == Some('を'),
        c == 'ｰ' ==> halfwidth_hiragana(c) == Some('ー'),
{
}

/// A voicing mark takes a kana to the voiced one after it in the table of
/// characters, a half-voicing mark to the one after that; kana without a voiced
/// form stay.
pub proof fn law_voicing_marks_go_on_in_the_table(base: char)
    ensures
        base == 'か' || base == 'き' || base == 'く' || base == 'け' || base == 'こ' || base == 'さ'
            || base == 'し' || base == 'す' || base == 'せ' || base == 'そ' || base == 'た' || base
            == 'ち' || base == 'つ' || base == 'て' || base == 'と' || base == 'は' || base == 'ひ'
            || base == 'ふ' || base == 'へ' || base == 'ほ' ==> voiced_kana(base, Some('ﾞ')) as u32
            == base as u32 + 1,
        base == 'は' || base == 'ひ' || base == 'ふ' || base == 'へ' || base == 'ほ' ==> voiced_kana(
            base,
            Some('ﾟ'),
        ) as u32 == base as u32 + 2,
        base == 'う' ==> voiced_kana(base, Some('ﾞ')) == 'ゔ',
        'な' <= base && base <= 'の' || 'ま' <= base && base <= 'ん' ==> voiced_kana(
            base,
            Some('ﾞ'),
        ) == base,
        !('は' <= base && base <= 'ほ') ==> voiced_kana(base, Some('ﾟ')) == base,
        voiced_kana(base, None) == base,
        is_voicing_mark(base) == (base == 'ﾞ' || base == 'ﾟ'),
{
}

/// A long vowel mark is read as the vowel of the syllable before it: the five
/// vowels lengthen themselves, a voiced syllable lengthens as its plain one
/// does, and the syllables of a row lengthen in the order of the vowels.
pub proof fn law_long_marks_lengthen_the_vowel(c: char, base: char)
    ensures
        c == 'あ' || c == 'い' || c == 'う' || c == 'え' || c == 'お' ==> long_vowel(Some(c)) == c,
        'な' <= c && c <= 'の' ==> long_vowel(Some(c)) as u32 == 0x3042 + 2 * (c as u32
            - 'な' as u32),
        'ま' <= c && c <= 'も' ==> long_vowel(Some(c)) as u32 == 0x3042 + 2 * (c as u32
            - 'ま' as u32),
        'ら' <= c && c <= 'ろ' ==> long_vowel(Some(c)) as u32 == 0x3042 + 2 * (c as u32
            - 'ら' as u32),
        'か' <= c && c <= 'ご' ==> long_vowel(Some(c)) as u32 == 0x3042 + 2 * ((c as u32
            - 'か' as u32) / 2),
        'さ' <= c && c <= 'ぞ' ==> long_vowel(Some(c)) as u32 == 0x3042 + 2 * ((c as u32
            - 'さ' as u32) / 2),
        'は' <= c && c <= 'ぽ' ==> long_vowel(Some(c)) as u32 == 0x3042 + 2 * ((c as u32
            - 'は' as u32) / 3),
        base != 'う' ==> long_vowel(Some(voiced_kana(base, Some('ﾞ')))) == long_vowel(Some(base)),
        c == 'や' || c == 'わ' || c == 'た' ==> long_vowel(Some(c)) == 'あ',
        c == 'ぁ' || c == 'ぃ' || c == 'ぅ' || c == 'ぇ' || c == 'ぉ' || c == 'ゃ' ==> long_vowel(
            Some(c),
        ) == long_vowel(Some(full_size_kana(c))),
        c == 'ち' ==> long_vowel(Some(c)) == 'い',
        c == 'ゆ' || c == 'つ' || c == 'ゔ' ==> long_vowel(Some(c)) == 'う',
        c == 'て' ==> long_vowel(Some(c)) == 'え',
        c == 'よ' || c == 'と' || c == 'を' ==> long_vowel(Some(c)) == 'お',
        c < 'ぁ' || c > 'ゔ' ==> long_vowel(Some(c)) == 'ー',
        c == 'ん' ==> long_vowel(Some(c)) == 'ー',
        long_vowel(None) == 'ー',
{
}

/// The long vowel mark, the wave dashes, the tilde and the hyphen lengthen a
/// vowel; letters, digits, kana and ideographs do not.
pub proof fn law_five_marks_lengthen(c: char)
    ensures
        c == 'ー' || c == '〜' || c == '～' || c == '-' || c == '~' ==> is_long_mark(c),
        'a' <= c && c <= 'z' || 'A' <= c && c <= 'Z' || '0' <= c && c <= '9' ==> !is_long_mark(c),
        'ぁ' <= c && c <= 'ヶ' ==> !is_long_mark(c),
        '\u{4e00}' <= c && c <= '\u{9fff}' ==> !is_long_mark(c),
        c == ' ' || c == '、' || c == '。' ==> !is_long_mark(c),
{
}

} // verus!
