//! Text as sequences of characters.
//!
//! A `str` or `String` is viewed as a `Seq<char>`. The functions here are the
//! vocabulary that the contracts of the other modules are written in.
use vstd::prelude::*;

verus! {

/// `String::push` appends one character at the end of the string.
pub assume_specification[ String::push ](s: &mut String, ch: char)
    ensures
        final(s)@ == old(s)@.push(ch),
;

/// A Unicode scalar value: a code point that is no surrogate.
pub open spec fn is_scalar_value(code: u32) -> bool {
    code < 0xD800 || 0xE000 <= code <= 0x10FFFF
}

/// `char::from_u32` gives the character with that code, and `None` where the
/// code is no Unicode scalar value.
pub assume_specification[ char::from_u32 ](i: u32) -> (res: Option<char>)
    ensures
        is_scalar_value(i) ==> res == Some(i as char),
        !is_scalar_value(i) ==> res is None,
;

/// The characters with the Unicode property `White_Space`.
pub open spec fn is_white(c: char) -> bool {
    let code = c as u32;
    ||| 0x9 <= code <= 0xD
    ||| code == 0x20
    ||| code == 0x85
    ||| code == 0xA0
    ||| code == 0x1680
    ||| 0x2000 <= code <= 0x200A
    ||| code == 0x2028
    ||| code == 0x2029
    ||| code == 0x202F
    ||| code == 0x205F
    ||| code == 0x3000
}

/// Tells whether a character is white space.
pub fn is_white_char(c: char) -> (res: bool)
    ensures
        res == is_white(c),
{
    let code: u32 = c as u32;
    (0x9 <= code && code <= 0xD) || code == 0x20 || code == 0x85 || code == 0xA0 || code == 0x1680
        || (0x2000 <= code && code <= 0x200A) || code == 0x2028 || code == 0x2029 || code == 0x202F
        || code == 0x205F || code == 0x3000
}

/// The characters of the Unicode general category `Cc`.
pub open spec fn is_control(c: char) -> bool {
    let code = c as u32;
    code < 0x20 || 0x7F <= code < 0xA0
}

/// Tells whether a character is a control character.
pub fn is_control_char(c: char) -> (res: bool)
    ensures
        res == is_control(c),
{
    let code: u32 = c as u32;
    code < 0x20 || (0x7F <= code && code < 0xA0)
}

pub open spec fn is_ascii_digit(c: char) -> bool {
    '0' <= c && c <= '9'
}

pub open spec fn is_ascii_letter(c: char) -> bool {
    ('a' <= c && c <= 'z') || ('A' <= c && c <= 'Z')
}

pub fn is_ascii_digit_char(c: char) -> (res: bool)
    ensures
        res == is_ascii_digit(c),
{
    '0' <= c && c <= '9'
}

pub fn is_ascii_letter_char(c: char) -> (res: bool)
    ensures
        res == is_ascii_letter(c),
{
    ('a' <= c && c <= 'z') || ('A' <= c && c <= 'Z')
}

/// The lower-case form of an ASCII capital; any other character is kept.
pub open spec fn ascii_lower(c: char) -> char {
    if 'A' <= c && c <= 'Z' {
        ((c as u32) + 32) as char
    } else {
        c
    }
}

pub fn ascii_lower_char(c: char) -> (res: char)
    ensures
        res == ascii_lower(c),
{
    if 'A' <= c && c <= 'Z' {
        match char::from_u32(c as u32 + 32) {
            Some(lower) => lower,
            None => c,
        }
    } else {
        c
    }
}

/// Every ASCII capital replaced by its lower-case form.
pub open spec fn ascii_lowered(s: Seq<char>) -> Seq<char> {
    s.map_values(|c: char| ascii_lower(c))
}

/// The characters of a text.
pub fn chars_of(text: &str) -> (res: Vec<char>)
    ensures
        res@ == text@,
{
    let mut chars: Vec<char> = Vec::new();
    for c in it: text.chars()
        invariant
            chars@ == it.seq().take(it.index()),
            it.seq() == text@,
    {
        chars.push(c);
        assert(it.seq().take(it.index() + 1) == it.seq().take(it.index()).push(c));
    }
    assert(text@.take(text@.len() as int) == text@);
    chars
}

/// The text made of the characters from `from` up to `to`.
pub fn string_of_range(chars: &Vec<char>, from: usize, to: usize) -> (res: String)
    requires
        from <= to <= chars@.len(),
    ensures
        res@ == chars@.subrange(from as int, to as int),
{
    let mut text = String::new();
    let mut i: usize = from;
    while i < to
        invariant
            from <= i <= to <= chars@.len(),
            text@ == chars@.subrange(from as int, i as int),
        decreases to - i,
    {
        text.push(chars[i]);
        i += 1;
        assert(chars@.subrange(from as int, i as int) == chars@.subrange(
            from as int,
            i - 1,
        ).push(chars@[i - 1]));
    }
    text
}

/// The text made of the given characters.
pub fn string_of(chars: &Vec<char>) -> (res: String)
    ensures
        res@ == chars@,
{
    let res = string_of_range(chars, 0, chars.len());
    assert(chars@.subrange(0, chars@.len() as int) == chars@);
    res
}

/// Tells whether two texts are equal.
pub fn same_text(a: &str, b: &str) -> (res: bool)
    ensures
        res == (a@ == b@),
{
    a.to_owned() == b.to_owned()
}

/// The text without leading white space.
pub open spec fn trimmed_start(s: Seq<char>) -> Seq<char>
    decreases s.len(),
{
    if s.len() > 0 && is_white(s[0]) {
        trimmed_start(s.drop_first())
    } else {
        s
    }
}

/// The text without trailing white space.
pub open spec fn trimmed_end(s: Seq<char>) -> Seq<char>
    decreases s.len(),
{
    if s.len() > 0 && is_white(s.last()) {
        trimmed_end(s.drop_last())
    } else {
        s
    }
}

/// The text without leading and trailing white space.
pub open spec fn trimmed(s: Seq<char>) -> Seq<char> {
    trimmed_end(trimmed_start(s))
}

/// Whether a text holds nothing but white space.
pub open spec fn is_blank(s: Seq<char>) -> bool {
    forall|i: int| 0 <= i < s.len() ==> is_white(#[trigger] s[i])
}

/// A text trims to nothing exactly where it is blank.
pub proof fn lemma_blank_iff_trimmed_empty(s: Seq<char>)
    ensures
        is_blank(s) <==> trimmed(s).len() == 0,
        is_blank(s) <==> trimmed_start(s).len() == 0,
    decreases s.len(),
{
    if s.len() > 0 && is_white(s[0]) {
        lemma_blank_iff_trimmed_empty(s.drop_first());
        assert(is_blank(s) ==> is_blank(s.drop_first()));
        if is_blank(s.drop_first()) {
            assert forall|i: int| 0 <= i < s.len() implies is_white(#[trigger] s[i]) by {
                if i > 0 {
                    assert(s[i] == s.drop_first()[i - 1]);
                }
            }
        }
    } else if s.len() > 0 {
        lemma_trimmed_end_keeps_start(s);
    }
}

/// Trimming at the end keeps a first character that is not white space.
pub proof fn lemma_trimmed_end_keeps_start(s: Seq<char>)
    requires
        s.len() > 0,
        !is_white(s[0]),
    ensures
        trimmed_end(s).len() > 0,
        trimmed_end(s)[0] == s[0],
    decreases s.len(),
{
    if is_white(s.last()) {
        assert(s.len() > 1);
        lemma_trimmed_end_keeps_start(s.drop_last());
    }
}

/// A trimmed text neither starts nor ends with white space.
pub proof fn lemma_trimmed_edges(s: Seq<char>)
    ensures
        trimmed(s).len() > 0 ==> !is_white(trimmed(s)[0]) && !is_white(trimmed(s).last()),
        trimmed(s).len() <= s.len(),
        trimmed_start(s).len() <= s.len(),
    decreases s.len(),
{
    if s.len() > 0 && is_white(s[0]) {
        lemma_trimmed_edges(s.drop_first());
    } else if s.len() > 0 {
        lemma_trimmed_end_keeps_start(s);
        lemma_trimmed_end_edge(s);
    }
}

proof fn lemma_trimmed_end_edge(s: Seq<char>)
    ensures
        trimmed_end(s).len() > 0 ==> !is_white(trimmed_end(s).last()),
        trimmed_end(s).len() <= s.len(),
    decreases s.len(),
{
    if s.len() > 0 && is_white(s.last()) {
        lemma_trimmed_end_edge(s.drop_last());
    }
}

/// A trimmed text is a part of the text.
pub proof fn lemma_trimmed_is_part(s: Seq<char>)
    ensures
        exists|at: int|
            0 <= at && at + trimmed(s).len() <= s.len() && #[trigger] s.subrange(
                at,
                at + trimmed(s).len(),
            ) == trimmed(s),
    decreases s.len(),
{
    if s.len() > 0 && is_white(s[0]) {
        lemma_trimmed_is_part(s.drop_first());
        let rest = s.drop_first();
        let at = choose|at: int|
            0 <= at && at + trimmed(rest).len() <= rest.len() && #[trigger] rest.subrange(
                at,
                at + trimmed(rest).len(),
            ) == trimmed(rest);
        assert(s.subrange(at + 1, at + 1 + trimmed(s).len()) == rest.subrange(
            at,
            at + trimmed(rest).len(),
        ));
    } else {
        lemma_trimmed_end_is_prefix(s);
        let at: int = 0;
        assert(s.subrange(at, at + trimmed(s).len()) == s.take(trimmed(s).len() as int));
    }
}

/// Trimming at the end keeps a prefix.
pub proof fn lemma_trimmed_end_is_prefix(s: Seq<char>)
    ensures
        trimmed_end(s).len() <= s.len(),
        s.take(trimmed_end(s).len() as int) == trimmed_end(s),
    decreases s.len(),
{
    if s.len() > 0 && is_white(s.last()) {
        lemma_trimmed_end_is_prefix(s.drop_last());
        let n = trimmed_end(s).len() as int;
        assert(s.take(n) == s.drop_last().take(n));
    } else {
        assert(s.take(s.len() as int) == s);
    }
}

/// Trimming a text that has no white space at its edges changes nothing.
pub proof fn lemma_trimmed_twice(s: Seq<char>)
    ensures
        trimmed(trimmed(s)) == trimmed(s),
{
    lemma_trimmed_edges(s);
}

/// The bounds of the text that remains after trimming `chars[from..to]`.
pub fn trim_bounds(chars: &Vec<char>, from: usize, to: usize) -> (res: (usize, usize))
    requires
        from <= to <= chars@.len(),
    ensures
        from <= res.0 <= res.1 <= to,
        chars@.subrange(res.0 as int, res.1 as int) == trimmed(
            chars@.subrange(from as int, to as int),
        ),
{
    let ghost whole = chars@.subrange(from as int, to as int);
    let mut start: usize = from;
    while start < to && is_white_char(chars[start])
        invariant
            from <= start <= to <= chars@.len(),
            trimmed_start(whole) == trimmed_start(chars@.subrange(start as int, to as int)),
        decreases to - start,
    {
        assert(chars@.subrange(start as int, to as int).drop_first() == chars@.subrange(
            start + 1,
            to as int,
        ));
        start += 1;
    }
    assert(trimmed_start(whole) == chars@.subrange(start as int, to as int));
    let mut end: usize = to;
    while start < end && is_white_char(chars[end - 1])
        invariant
            from <= start <= end <= to <= chars@.len(),
            trimmed(whole) == trimmed_end(chars@.subrange(start as int, end as int)),
        decreases end,
    {
        assert(chars@.subrange(start as int, end as int).drop_last() == chars@.subrange(
            start as int,
            end - 1,
        ));
        end -= 1;
    }
    (start, end)
}

/// The text without leading and trailing white space.
pub fn trim_text(text: &str) -> (res: String)
    ensures
        res@ == trimmed(text@),
{
    let chars = chars_of(text);
    let bounds = trim_bounds(&chars, 0, chars.len());
    assert(chars@.subrange(0, chars@.len() as int) == text@);
    string_of_range(&chars, bounds.0, bounds.1)
}

/// Tells whether a text is blank.
pub fn is_blank_text(text: &str) -> (res: bool)
    ensures
        res == is_blank(text@),
        res == (trimmed(text@).len() == 0),
{
    proof {
        lemma_blank_iff_trimmed_empty(text@);
    }
    let chars = chars_of(text);
    let bounds = trim_bounds(&chars, 0, chars.len());
    assert(chars@.subrange(0, chars@.len() as int) == text@);
    assert(chars@.subrange(bounds.0 as int, bounds.1 as int).len() == bounds.1 - bounds.0);
    bounds.0 == bounds.1
}

/// Whether `needle` stands in `hay` at position `at`.
pub open spec fn occurs_at(hay: Seq<char>, needle: Seq<char>, at: int) -> bool {
    &&& 0 <= at
    &&& at + needle.len() <= hay.len()
    &&& hay.subrange(at, at + needle.len()) == needle
}

/// Whether `needle` stands anywhere in `hay`.
pub open spec fn contains_text(hay: Seq<char>, needle: Seq<char>) -> bool {
    exists|at: int| occurs_at(hay, needle, at)
}

/// The first position from `from` on at which `needle` stands in `hay`.
pub open spec fn find_from(hay: Seq<char>, needle: Seq<char>, from: int) -> Option<int>
    decreases hay.len() + 1 - from,
{
    if from < 0 || from + needle.len() > hay.len() {
        None
    } else if occurs_at(hay, needle, from) {
        Some(from)
    } else {
        find_from(hay, needle, from + 1)
    }
}

/// What `find_from` finds is an occurrence, and no earlier one exists.
pub proof fn lemma_find_from(hay: Seq<char>, needle: Seq<char>, from: int)
    requires
        0 <= from,
    ensures
        match find_from(hay, needle, from) {
            Some(at) => from <= at && occurs_at(hay, needle, at) && forall|k: int|
                from <= k < at ==> !occurs_at(hay, needle, k),
            None => forall|k: int| from <= k ==> !occurs_at(hay, needle, k),
        },
    decreases hay.len() + 1 - from,
{
    if from + needle.len() <= hay.len() && !occurs_at(hay, needle, from) {
        lemma_find_from(hay, needle, from + 1);
    }
}

/// Tells whether `needle` stands in `hay` at position `at`.
pub fn occurs_here(hay: &Vec<char>, needle: &Vec<char>, at: usize) -> (res: bool)
    requires
        at <= hay@.len(),
    ensures
        res == occurs_at(hay@, needle@, at as int),
{
    let hay_len: usize = hay.len();
    if hay_len - at < needle.len() {
        return false;
    }
    let mut i: usize = 0;
    while i < needle.len()
        invariant
            i <= needle@.len(),
            at + needle@.len() <= hay@.len(),
            hay_len == hay@.len(),
            hay@.subrange(at as int, at + i) == needle@.take(i as int),
        decreases needle@.len() - i,
    {
        if hay[at + i] != needle[i] {
            assert(hay@.subrange(at as int, at + needle@.len())[i as int] == hay@[at + i]);
            return false;
        }
        assert(hay@.subrange(at as int, at + i + 1) == hay@.subrange(at as int, at + i).push(
            hay@[at + i],
        ));
        assert(needle@.take(i + 1) == needle@.take(i as int).push(needle@[i as int]));
        i += 1;
    }
    assert(needle@.take(needle@.len() as int) == needle@);
    true
}

/// The first position from `from` on at which `needle` stands in `hay`.
pub fn find_text_from(hay: &Vec<char>, needle: &Vec<char>, from: usize) -> (res: Option<usize>)
    requires
        from <= hay@.len(),
    ensures
        match res {
            Some(at) => find_from(hay@, needle@, from as int) == Some(at as int),
            None => find_from(hay@, needle@, from as int) is None,
        },
        res matches Some(at) ==> from <= at && at + needle@.len() <= hay@.len() && occurs_at(
            hay@,
            needle@,
            at as int,
        ),
{
    let mut at: usize = from;
    while hay.len() - at >= needle.len()
        invariant
            from <= at <= hay@.len(),
            find_from(hay@, needle@, from as int) == find_from(hay@, needle@, at as int),
        decreases hay@.len() - at,
    {
        if occurs_here(hay, needle, at) {
            return Some(at);
        }
        assert(at < hay@.len()) by {
            if at == hay@.len() {
                assert(hay@.subrange(at as int, at as int) == needle@);
            }
        }
        at += 1;
    }
    None
}

/// Tells whether `needle` stands anywhere in `hay`.
pub fn contains_chars(hay: &Vec<char>, needle: &Vec<char>) -> (res: bool)
    ensures
        res == contains_text(hay@, needle@),
{
    proof {
        lemma_find_from(hay@, needle@, 0);
    }
    find_text_from(hay, needle, 0).is_some()
}

/// Tells whether `needle` stands anywhere in `text`.
pub fn text_contains(text: &str, needle: &str) -> (res: bool)
    ensures
        res == contains_text(text@, needle@),
{
    contains_chars(&chars_of(text), &chars_of(needle))
}

/// Whether `s` begins with `prefix`.
pub open spec fn begins_with(s: Seq<char>, prefix: Seq<char>) -> bool {
    occurs_at(s, prefix, 0)
}

/// Tells whether `text` begins with `prefix`.
pub fn text_begins_with(text: &str, prefix: &str) -> (res: bool)
    ensures
        res == begins_with(text@, prefix@),
{
    occurs_here(&chars_of(text), &chars_of(prefix), 0)
}

/// Appends a text.
pub fn append_text(target: &mut String, addition: &str)
    ensures
        final(target)@ == old(target)@ + addition@,
{
    target.append(addition);
}

/// The lower-case form of a text, as far as ASCII goes.
pub fn ascii_lower_text(text: &str) -> (res: String)
    ensures
        res@ == ascii_lowered(text@),
{
    let chars = chars_of(text);
    let mut lowered = String::new();
    let mut i: usize = 0;
    while i < chars.len()
        invariant
            i <= chars@.len(),
            chars@ == text@,
            lowered@ == ascii_lowered(text@.take(i as int)),
        decreases chars@.len() - i,
    {
        lowered.push(ascii_lower_char(chars[i]));
        i += 1;
        assert(ascii_lowered(text@.take(i as int)) == ascii_lowered(text@.take(i - 1)).push(
            ascii_lower(text@[i - 1]),
        ));
    }
    assert(text@.take(text@.len() as int) == text@);
    lowered
}

/// The decimal digits of a number, without leading zeros.
pub open spec fn decimal(n: nat) -> Seq<char>
    decreases n,
{
    if n < 10 {
        seq![digit_char(n)]
    } else {
        decimal(n / 10).push(digit_char(n % 10))
    }
}

/// The character of one decimal digit.
pub open spec fn digit_char(d: nat) -> char {
    (48 + d) as char
}

fn digit_of(d: u64) -> (res: char)
    requires
        d < 10,
    ensures
        res == digit_char(d as nat),
{
    match char::from_u32(48 + d as u32) {
        Some(c) => c,
        None => '0',
    }
}

/// Appends a number in decimal digits.
pub fn append_decimal(target: &mut String, n: u64)
    ensures
        final(target)@ == old(target)@ + decimal(n as nat),
    decreases n,
{
    if n < 10 {
        target.push(digit_of(n));
        assert(target@ == old(target)@ + decimal(n as nat));
    } else {
        append_decimal(target, n / 10);
        target.push(digit_of(n % 10));
        assert(target@ == old(target)@ + decimal(n as nat));
    }
}

/// A number in decimal digits.
pub fn decimal_text(n: u64) -> (res: String)
    ensures
        res@ == decimal(n as nat),
{
    let mut text = String::new();
    append_decimal(&mut text, n);
    assert(text@ == decimal(n as nat));
    text
}

/// The text from `from` on with every occurrence of `pattern` replaced, read
/// from left to right without overlap.
pub open spec fn replaced_from(
    s: Seq<char>,
    pattern: Seq<char>,
    with: Seq<char>,
    from: int,
) -> Seq<char>
    decreases s.len() - from,
{
    if from < 0 || from > s.len() || pattern.len() == 0 {
        Seq::empty()
    } else {
        match find_from(s, pattern, from) {
            Some(at) => if from <= at && at + pattern.len() <= s.len() {
                s.subrange(from, at) + with + replaced_from(s, pattern, with, at + pattern.len())
            } else {
                Seq::empty()
            },
            None => s.skip(from),
        }
    }
}

/// The text with every occurrence of `pattern` replaced.
pub open spec fn replaced(s: Seq<char>, pattern: Seq<char>, with: Seq<char>) -> Seq<char> {
    replaced_from(s, pattern, with, 0)
}

/// Replaces every occurrence of a pattern.
pub fn replace_text(source: &str, pattern: &str, with: &str) -> (res: String)
    requires
        pattern@.len() > 0,
    ensures
        res@ == replaced(source@, pattern@, with@),
{
    let chars = chars_of(source);
    let needle = chars_of(pattern);
    let total: usize = chars.len();
    let mut res = String::new();
    let mut from: usize = 0;
    loop
        invariant
            from <= total,
            total == chars@.len(),
            chars@ == source@,
            needle@ == pattern@,
            pattern@.len() > 0,
            res@ + replaced_from(source@, pattern@, with@, from as int) == replaced(
                source@,
                pattern@,
                with@,
            ),
        decreases total - from,
    {
        let ghost before = res@;
        match find_text_from(&chars, &needle, from) {
            Some(at) => {
                let kept = string_of_range(&chars, from, at);
                append_text(&mut res, kept.as_str());
                append_text(&mut res, with);
                let next: usize = at + needle.len();
                assert(before + (source@.subrange(from as int, at as int) + with@ + replaced_from(
                    source@,
                    pattern@,
                    with@,
                    next as int,
                )) == res@ + replaced_from(source@, pattern@, with@, next as int));
                from = next;
            },
            None => {
                let rest = string_of_range(&chars, from, total);
                append_text(&mut res, rest.as_str());
                assert(source@.skip(from as int) == source@.subrange(from as int, total as int));
                return res;
            },
        }
    }
}

/// A line without the carriage return before its line feed.
pub open spec fn without_return(line: Seq<char>) -> Seq<char> {
    if line.len() > 0 && line.last() == '\r' {
        line.drop_last()
    } else {
        line
    }
}

/// The lines of a text from `from` on. A line ends with a line feed, which a
/// carriage return may precede; the last line need not end.
pub open spec fn lines_from(s: Seq<char>, from: int) -> Seq<Seq<char>>
    decreases s.len() - from,
{
    if from < 0 || from >= s.len() {
        Seq::empty()
    } else {
        match find_from(s, seq!['\n'], from) {
            Some(at) => if from <= at < s.len() {
                seq![without_return(s.subrange(from, at))] + lines_from(s, at + 1)
            } else {
                Seq::empty()
            },
            None => seq![s.skip(from)],
        }
    }
}

/// The lines of a text.
pub open spec fn lines(s: Seq<char>) -> Seq<Seq<char>> {
    lines_from(s, 0)
}

/// The views of a list of texts.
pub open spec fn views(list: Seq<String>) -> Seq<Seq<char>> {
    list.map_values(|t: String| t@)
}

/// The view of a text that may be missing.
pub open spec fn opt_view(value: Option<String>) -> Option<Seq<char>> {
    match value {
        Some(t) => Some(t@),
        None => None,
    }
}

/// Splits a text into lines.
pub fn split_lines(source: &str) -> (res: Vec<String>)
    ensures
        views(res@) == lines(source@),
{
    let chars = chars_of(source);
    let feed: Vec<char> = vec!['\n'];
    let total: usize = chars.len();
    let mut res: Vec<String> = Vec::new();
    let mut from: usize = 0;
    assert(feed@ == seq!['\n']);
    while from < total
        invariant
            from <= total,
            total == chars@.len(),
            chars@ == source@,
            feed@ == seq!['\n'],
            views(res@) + lines_from(source@, from as int) == lines(source@),
        decreases total - from,
    {
        let ghost before = res@;
        match find_text_from(&chars, &feed, from) {
            Some(at) => {
                let mut end: usize = at;
                if from < at && chars[at - 1] == '\r' {
                    end = at - 1;
                }
                let line = string_of_range(&chars, from, end);
                assert(line@ == without_return(source@.subrange(from as int, at as int)));
                res.push(line);
                assert(views(res@) == views(before) + seq![line@]);
                assert(views(before) + (seq![line@] + lines_from(source@, at + 1)) == views(res@)
                    + lines_from(source@, at + 1));
                from = at + 1;
            },
            None => {
                let line = string_of_range(&chars, from, total);
                assert(line@ == source@.skip(from as int));
                res.push(line);
                assert(views(res@) == views(before) + seq![line@]);
                assert(lines_from(source@, total as int) == Seq::<Seq<char>>::empty());
                assert(views(res@) + Seq::<Seq<char>>::empty() == views(res@));
                from = total;
            },
        }
    }
    assert(views(res@) + Seq::<Seq<char>>::empty() == views(res@));
    res
}

/// The end of the word that goes on at `i`: the next white space or the end.
pub open spec fn word_end(s: Seq<char>, i: int) -> int
    decreases s.len() - i,
{
    if i < 0 || i >= s.len() || is_white(s[i]) {
        i
    } else {
        word_end(s, i + 1)
    }
}

proof fn lemma_word_end(s: Seq<char>, i: int)
    requires
        0 <= i <= s.len(),
    ensures
        i <= word_end(s, i) <= s.len(),
        i < s.len() && !is_white(s[i]) ==> i < word_end(s, i),
    decreases s.len() - i,
{
    if i < s.len() && !is_white(s[i]) {
        lemma_word_end(s, i + 1);
    }
}

/// The words of a text from `i` on: the longest parts without white space.
pub open spec fn words_from(s: Seq<char>, i: int) -> Seq<Seq<char>>
    decreases s.len() - i,
{
    if i < 0 || i >= s.len() {
        Seq::empty()
    } else if is_white(s[i]) {
        words_from(s, i + 1)
    } else {
        let end = word_end(s, i);
        if i < end <= s.len() {
            seq![s.subrange(i, end)] + words_from(s, end)
        } else {
            Seq::empty()
        }
    }
}

/// The words of a text.
pub open spec fn words(s: Seq<char>) -> Seq<Seq<char>> {
    words_from(s, 0)
}

/// Splits a text at white space.
pub fn split_words(source: &str) -> (res: Vec<String>)
    ensures
        views(res@) == words(source@),
{
    let chars = chars_of(source);
    let mut res: Vec<String> = Vec::new();
    let mut i: usize = 0;
    while i < chars.len()
        invariant
            i <= chars@.len(),
            chars@ == source@,
            views(res@) + words_from(source@, i as int) == words(source@),
        decreases chars@.len() - i,
    {
        if is_white_char(chars[i]) {
            i += 1;
        } else {
            let ghost before = res@;
            let mut end: usize = i;
            while end < chars.len() && !is_white_char(chars[end])
                invariant
                    i <= end <= chars@.len(),
                    chars@ == source@,
                    word_end(source@, i as int) == word_end(source@, end as int),
                decreases chars@.len() - end,
            {
                end += 1;
            }
            proof {
                lemma_word_end(source@, i as int);
            }
            let word = string_of_range(&chars, i, end);
            res.push(word);
            assert(views(res@) == views(before) + seq![word@]);
            assert(views(before) + (seq![word@] + words_from(source@, end as int)) == views(res@)
                + words_from(source@, end as int));
            i = end;
        }
    }
    assert(views(res@) + Seq::<Seq<char>>::empty() == views(res@));
    res
}

/// The number that a row of decimal digits stands for.
pub open spec fn digits_value(s: Seq<char>) -> nat
    decreases s.len(),
{
    if s.len() == 0 {
        0
    } else {
        digits_value(s.drop_last()) * 10 + ((s.last() as int) - 48) as nat
    }
}

/// Whether a text is a row of decimal digits and not empty.
pub open spec fn is_digits(s: Seq<char>) -> bool {
    s.len() > 0 && forall|i: int| 0 <= i < s.len() ==> is_ascii_digit(#[trigger] s[i])
}

/// The number that a text gives in decimal: digits, which a plus sign may
/// precede, and no more than thirty-two bits.
pub open spec fn parsed_u32(s: Seq<char>) -> Option<u32> {
    let digits = if s.len() > 0 && s[0] == '+' {
        s.skip(1)
    } else {
        s
    };
    if is_digits(digits) && digits_value(digits) <= u32::MAX {
        Some(digits_value(digits) as u32)
    } else {
        None
    }
}

proof fn lemma_digits_value_grows(s: Seq<char>, i: int)
    requires
        is_digits(s),
        0 <= i <= s.len(),
    ensures
        digits_value(s.take(i)) <= digits_value(s),
    decreases s.len() - i,
{
    if i < s.len() {
        lemma_digits_value_grows(s, i + 1);
        assert(s.take(i + 1).drop_last() == s.take(i));
    } else {
        assert(s.take(i) == s);
    }
}

/// Reads a number in decimal digits.
pub fn parse_u32(source: &str) -> (res: Option<u32>)
    ensures
        res == parsed_u32(source@),
{
    let chars = chars_of(source);
    let from: usize = if chars.len() > 0 && chars[0] == '+' {
        1
    } else {
        0
    };
    let ghost digits = source@.skip(from as int);
    assert(from == 0 ==> digits == source@);
    if from == chars.len() {
        return None;
    }
    let mut value: u64 = 0;
    let mut i: usize = from;
    while i < chars.len()
        invariant
            from <= i <= chars@.len(),
            chars@ == source@,
            digits == source@.skip(from as int),
            digits == if source@.len() > 0 && source@[0] == '+' {
                source@.skip(1)
            } else {
                source@
            },
            digits.len() > 0,
            value == digits_value(digits.take(i - from)),
            value <= u32::MAX,
            forall|k: int| 0 <= k < i - from ==> is_ascii_digit(#[trigger] digits[k]),
        decreases chars@.len() - i,
    {
        assert(digits[i - from] == source@[i as int]);
        if !is_ascii_digit_char(chars[i]) {
            assert(!is_digits(digits));
            return None;
        }
        let digit: u64 = (chars[i] as u32 - 48) as u64;
        value = value * 10 + digit;
        i += 1;
        assert(digits.take(i - from).drop_last() == digits.take(i - from - 1));
        assert(digits.take(i - from).last() == digits[i - from - 1]);
        if value > 0xFFFF_FFFF {
            proof {
                if is_digits(digits) {
                    lemma_digits_value_grows(digits, i - from);
                }
            }
            return None;
        }
    }
    assert(digits.take(i - from) == digits);
    Some(value as u32)
}

/// The texts of a list with a separator between them.
pub open spec fn joined(parts: Seq<Seq<char>>, separator: Seq<char>) -> Seq<char>
    decreases parts.len(),
{
    if parts.len() == 0 {
        Seq::empty()
    } else if parts.len() == 1 {
        parts[0]
    } else {
        joined(parts.drop_last(), separator) + separator + parts.last()
    }
}

/// Joins the texts of a list with a separator between them.
pub fn join_texts(parts: &Vec<String>, separator: &str) -> (res: String)
    ensures
        res@ == joined(views(parts@), separator@),
{
    let mut res = String::new();
    let mut i: usize = 0;
    let ghost all = views(parts@);
    while i < parts.len()
        invariant
            i <= parts@.len(),
            all == views(parts@),
            res@ == joined(all.take(i as int), separator@),
        decreases parts@.len() - i,
    {
        let ghost before = res@;
        if i > 0 {
            append_text(&mut res, separator);
        }
        append_text(&mut res, parts[i].as_str());
        i += 1;
        assert(all.take(i as int).drop_last() == all.take(i - 1));
        assert(all.take(i as int).last() == all[i - 1]);
        assert(i == 1 ==> before + all[0] == all[0]) by {
            assert(all.take(0).len() == 0);
        }
        assert(i == 1 ==> res@ == all[0]);
    }
    assert(all.take(i as int) == all);
    res
}

/// The parts of a text from `from` on between the occurrences of a character.
/// There is always at least one part.
pub open spec fn parts_from(s: Seq<char>, separator: char, from: int) -> Seq<Seq<char>>
    decreases s.len() - from,
{
    if from < 0 || from > s.len() {
        Seq::empty()
    } else {
        match find_from(s, seq![separator], from) {
            Some(at) => if from <= at < s.len() {
                seq![s.subrange(from, at)] + parts_from(s, separator, at + 1)
            } else {
                Seq::empty()
            },
            None => seq![s.skip(from)],
        }
    }
}

/// The parts of a text between the occurrences of a character.
pub open spec fn parts(s: Seq<char>, separator: char) -> Seq<Seq<char>> {
    parts_from(s, separator, 0)
}

/// Splits a text at every occurrence of a character.
pub fn split_at_char(source: &str, separator: char) -> (res: Vec<String>)
    ensures
        views(res@) == parts(source@, separator),
        res@.len() > 0,
{
    let chars = chars_of(source);
    let needle: Vec<char> = vec![separator];
    let total: usize = chars.len();
    let mut res: Vec<String> = Vec::new();
    let mut from: usize = 0;
    assert(needle@ == seq![separator]);
    loop
        invariant
            from <= total,
            total == chars@.len(),
            chars@ == source@,
            needle@ == seq![separator],
            views(res@) + parts_from(source@, separator, from as int) == parts(source@, separator),
        decreases total - from,
    {
        let ghost before = res@;
        match find_text_from(&chars, &needle, from) {
            Some(at) => {
                let part = string_of_range(&chars, from, at);
                res.push(part);
                assert(views(res@) == views(before) + seq![part@]);
                assert(views(before) + (seq![part@] + parts_from(source@, separator, at + 1))
                    == views(res@) + parts_from(source@, separator, at + 1));
                from = at + 1;
            },
            None => {
                let part = string_of_range(&chars, from, total);
                assert(part@ == source@.skip(from as int));
                res.push(part);
                assert(views(res@) == views(before) + seq![part@]);
                return res;
            },
        }
    }
}

/// The text without the occurrences of a character at its end.
pub open spec fn without_trailing(s: Seq<char>, c: char) -> Seq<char>
    decreases s.len(),
{
    if s.len() > 0 && s.last() == c {
        without_trailing(s.drop_last(), c)
    } else {
        s
    }
}

/// Removes the occurrences of a character at the end of a text.
pub fn strip_trailing(source: &str, c: char) -> (res: String)
    ensures
        res@ == without_trailing(source@, c),
{
    let chars = chars_of(source);
    let mut end: usize = chars.len();
    assert(source@.take(end as int) == source@);
    while end > 0 && chars[end - 1] == c
        invariant
            end <= chars@.len(),
            chars@ == source@,
            without_trailing(source@, c) == without_trailing(source@.take(end as int), c),
        decreases end,
    {
        assert(source@.take(end as int).drop_last() == source@.take(end - 1));
        end -= 1;
    }
    assert(source@.take(end as int) == source@.subrange(0, end as int));
    string_of_range(&chars, 0, end)
}

/// A number in decimal digits, with a sign where it is negative.
pub open spec fn signed_decimal(n: int) -> Seq<char> {
    if n < 0 {
        seq!['-'] + decimal((-n) as nat)
    } else {
        decimal(n as nat)
    }
}

/// A number in decimal digits, with a sign where it is negative.
pub fn signed_decimal_text(n: i32) -> (res: String)
    ensures
        res@ == signed_decimal(n as int),
{
    let mut text = String::new();
    let wide: i64 = n as i64;
    if wide < 0 {
        text.push('-');
        let magnitude: u64 = (0 - wide) as u64;
        append_decimal(&mut text, magnitude);
        assert(text@ == seq!['-'] + decimal(magnitude as nat));
    } else {
        append_decimal(&mut text, wide as u64);
        assert(text@ == decimal(wide as nat));
    }
    text
}

/// The first position from `i` on with a character that `stop` holds of; the
/// end of the text where there is none.
pub open spec fn stop_from(s: Seq<char>, i: int, stop: spec_fn(char) -> bool) -> int
    decreases s.len() - i,
{
    if i < 0 || i >= s.len() || stop(s[i]) {
        i
    } else {
        stop_from(s, i + 1, stop)
    }
}

/// The text without its white space.
pub open spec fn without_white(s: Seq<char>) -> Seq<char> {
    s.filter(|c: char| !is_white(c))
}

/// Removes all white space from a text.
pub fn remove_white(source: &str) -> (res: String)
    ensures
        res@ == without_white(source@),
{
    let chars = chars_of(source);
    let ghost spoken = |c: char| !is_white(c);
    let mut res = String::new();
    let mut i: usize = 0;
    assert(source@.take(0).filter(spoken) == Seq::<char>::empty());
    while i < chars.len()
        invariant
            i <= chars@.len(),
            chars@ == source@,
            spoken == (|c: char| !is_white(c)),
            res@ == source@.take(i as int).filter(spoken),
        decreases chars@.len() - i,
    {
        proof {
            source@.take(i as int).lemma_filter_push(source@[i as int], spoken);
            assert(source@.take(i + 1) == source@.take(i as int).push(source@[i as int]));
        }
        if !is_white_char(chars[i]) {
            res.push(chars[i]);
        }
        i += 1;
    }
    assert(source@.take(i as int) == source@);
    res
}

/// The views of a list of fixed texts.
pub open spec fn static_views(list: Seq<&'static str>) -> Seq<Seq<char>> {
    list.map_values(|t: &'static str| t@)
}

/// Tells whether a text stands in a list.
pub fn is_one_of(list: &Vec<&'static str>, wanted: &str) -> (res: bool)
    ensures
        res == static_views(list@).contains(wanted@),
{
    let ghost all = static_views(list@);
    let mut i: usize = 0;
    while i < list.len()
        invariant
            i <= list@.len(),
            all == static_views(list@),
            forall|k: int| 0 <= k < i ==> #[trigger] all[k] != wanted@,
        decreases list@.len() - i,
    {
        assert(all[i as int] == list@[i as int]@);
        if same_text(list[i], wanted) {
            return true;
        }
        i += 1;
    }
    false
}

/// Tells whether a text that may be missing is the given one.
pub fn is_text(value: &Option<String>, wanted: &str) -> (res: bool)
    ensures
        res == (opt_view(*value) == Some(wanted@)),
{
    match value {
        Some(t) => same_text(t.as_str(), wanted),
        None => false,
    }
}

/// Trimming removes white space at both ends and nothing else: the text is
/// what was removed before, what is left, and what was removed after.
pub proof fn law_trimming_removes_outer_white_space(s: Seq<char>) -> (removed: (
    Seq<char>,
    Seq<char>,
))
    ensures
        is_blank(removed.0),
        is_blank(removed.1),
        s == removed.0 + trimmed(s) + removed.1,
        trimmed(s).len() > 0 ==> !is_white(trimmed(s)[0]) && !is_white(trimmed(s).last()),
{
    lemma_trimmed_edges(s);
    let before = lemma_trimmed_start_parts(s);
    let after = lemma_trimmed_end_parts(trimmed_start(s));
    assert(s == before + trimmed(s) + after);
    (before, after)
}

proof fn lemma_trimmed_start_parts(s: Seq<char>) -> (before: Seq<char>)
    ensures
        is_blank(before),
        s == before + trimmed_start(s),
    decreases s.len(),
{
    if s.len() > 0 && is_white(s[0]) {
        let rest = lemma_trimmed_start_parts(s.drop_first());
        let before = seq![s[0]] + rest;
        assert forall|i: int| 0 <= i < before.len() implies is_white(#[trigger] before[i]) by {
            if i > 0 {
                assert(before[i] == rest[i - 1]);
            }
        }
        assert(s == seq![s[0]] + s.drop_first());
        assert(s == before + trimmed_start(s));
        before
    } else {
        assert(Seq::<char>::empty() + s == s);
        Seq::empty()
    }
}

proof fn lemma_trimmed_end_parts(s: Seq<char>) -> (after: Seq<char>)
    ensures
        is_blank(after),
        s == trimmed_end(s) + after,
    decreases s.len(),
{
    if s.len() > 0 && is_white(s.last()) {
        let rest = lemma_trimmed_end_parts(s.drop_last());
        let after = rest.push(s.last());
        assert forall|i: int| 0 <= i < after.len() implies is_white(#[trigger] after[i]) by {
            if i < rest.len() {
                assert(after[i] == rest[i]);
            }
        }
        assert(s == s.drop_last().push(s.last()));
        assert(s == trimmed_end(s) + after);
        after
    } else {
        assert(s + Seq::<char>::empty() == s);
        Seq::empty()
    }
}

/// Spaces, tabs, line ends and the ideographic space are white space; letters,
/// digits and other visible ASCII characters, kana and ideographs are not.
pub proof fn law_visible_characters_are_not_white_space(c: char)
    ensures
        c == ' ' || c == '\t' || c == '\n' || c == '\r' || c == '\u{3000}' ==> is_white(c),
        '!' <= c && c <= '~' ==> !is_white(c),
        '\u{3001}' <= c && c <= '\u{9fff}' ==> !is_white(c),
{
}

/// A number in decimal digits is read back: the digits stand for the number,
/// there is at least one, and the first is no zero unless it is alone.
pub proof fn law_decimals_are_read_back(n: nat)
    ensures
        is_digits(decimal(n)),
        digits_value(decimal(n)) == n,
        decimal(n).len() > 1 ==> decimal(n)[0] != '0',
        n <= u32::MAX ==> parsed_u32(decimal(n)) == Some(n as u32),
    decreases n,
{
    if n >= 10 {
        law_decimals_are_read_back(n / 10);
        let rest = decimal(n / 10);
        let all = decimal(n);
        assert(all.drop_last() == rest);
        assert forall|i: int| 0 <= i < all.len() implies is_ascii_digit(#[trigger] all[i]) by {
            if i < rest.len() {
                assert(all[i] == rest[i]);
            }
        }
        assert(all[0] == rest[0]);
        assert(rest.len() == 1 ==> rest[0] != '0') by {
            if rest.len() == 1 {
                assert(rest.drop_last() == Seq::<char>::empty());
                assert(digits_value(rest.drop_last()) == 0);
            }
        }
    } else {
        assert(decimal(n).drop_last() == Seq::<char>::empty());
        assert(digits_value(decimal(n).drop_last()) == 0);
    }
    assert(is_ascii_digit(decimal(n)[0]));
}

/// Negative numbers have a sign, and the digits of their size behind it.
pub proof fn law_signs_stand_before_negative_numbers(n: int)
    ensures
        n >= 0 ==> signed_decimal(n) == decimal(n as nat),
        n < 0 ==> signed_decimal(n).len() > 1 && signed_decimal(n)[0] == '-' && digits_value(
            signed_decimal(n).skip(1),
        ) == -n,
{
    if n < 0 {
        law_decimals_are_read_back((-n) as nat);
        assert(signed_decimal(n).skip(1) == decimal((-n) as nat));
    }
}

/// Joining what a text was split into gives the text back, no part holds the
/// separator, and there is one part more than there are separators.
pub proof fn law_splitting_loses_nothing(s: Seq<char>, separator: char)
    ensures
        joined(parts(s, separator), seq![separator]) == s,
        forall|i: int|
            0 <= i < parts(s, separator).len() ==> !(#[trigger] parts(s, separator)[i]).contains(
                separator,
            ),
        parts(s, separator).len() > 0,
        !s.contains(separator) ==> parts(s, separator) == seq![s],
{
    lemma_parts_rejoin(s, separator, 0);
    assert(s.skip(0) == s);
    if !s.contains(separator) {
        lemma_find_from(s, seq![separator], 0);
        if let Some(at) = find_from(s, seq![separator], 0) {
            assert(s.subrange(at, at + 1)[0] == separator);
            assert(s[at] == separator);
        }
    }
}

proof fn lemma_joined_front(first: Seq<char>, rest: Seq<Seq<char>>, separator: Seq<char>)
    requires
        rest.len() > 0,
    ensures
        joined(seq![first] + rest, separator) == first + separator + joined(rest, separator),
    decreases rest.len(),
{
    let all = seq![first] + rest;
    assert(all.last() == rest.last());
    if rest.len() == 1 {
        assert(all.drop_last() == seq![first]);
        assert(joined(seq![first], separator) == first);
    } else {
        assert(all.drop_last() == seq![first] + rest.drop_last());
        lemma_joined_front(first, rest.drop_last(), separator);
        let inner = joined(rest.drop_last(), separator);
        assert(first + separator + inner + separator + rest.last() == first + separator + (inner
            + separator + rest.last()));
    }
}

proof fn lemma_parts_rejoin(s: Seq<char>, separator: char, from: int)
    requires
        0 <= from <= s.len(),
    ensures
        parts_from(s, separator, from).len() > 0,
        joined(parts_from(s, separator, from), seq![separator]) == s.skip(from),
        forall|i: int|
            0 <= i < parts_from(s, separator, from).len() ==> !(#[trigger] parts_from(
                s,
                separator,
                from,
            )[i]).contains(separator),
    decreases s.len() - from,
{
    let mark = seq![separator];
    lemma_find_from(s, mark, from);
    let all = parts_from(s, separator, from);
    match find_from(s, mark, from) {
        Some(at) => {
            lemma_parts_rejoin(s, separator, at + 1);
            let rest = parts_from(s, separator, at + 1);
            let first = s.subrange(from, at);
            lemma_joined_front(first, rest, mark);
            assert(s.skip(from) == first + mark + s.skip(at + 1)) by {
                assert(s.subrange(at, at + 1) == mark);
                assert(s[at] == s.subrange(at, at + 1)[0]);
            }
            assert(!first.contains(separator)) by {
                if first.contains(separator) {
                    let k = choose|k: int| 0 <= k < first.len() && first[k] == separator;
                    assert(s.subrange(from + k, from + k + 1) == mark);
                    assert(occurs_at(s, mark, from + k));
                }
            }
            assert forall|i: int| 0 <= i < all.len() implies !(#[trigger] all[i]).contains(
                separator,
            ) by {
                if i > 0 {
                    assert(all[i] == rest[i - 1]);
                }
            }
        },
        None => {
            let last = s.skip(from);
            assert(!last.contains(separator)) by {
                if last.contains(separator) {
                    let k = choose|k: int| 0 <= k < last.len() && last[k] == separator;
                    assert(s.subrange(from + k, from + k + 1) == mark);
                    assert(occurs_at(s, mark, from + k));
                }
            }
        },
    }
}

/// The characters removed at the end of a text are all the given one, and the
/// text that is left does not end with it.
pub proof fn law_trailing_characters_are_removed(s: Seq<char>, c: char)
    ensures
        without_trailing(s, c).len() <= s.len(),
        without_trailing(s, c) == s.take(without_trailing(s, c).len() as int),
        forall|i: int| without_trailing(s, c).len() <= i < s.len() ==> #[trigger] s[i] == c,
        without_trailing(s, c).len() > 0 ==> without_trailing(s, c).last() != c,
    decreases s.len(),
{
    if s.len() > 0 && s.last() == c {
        law_trailing_characters_are_removed(s.drop_last(), c);
        let n = without_trailing(s, c).len() as int;
        assert(s.take(n) == s.drop_last().take(n));
        assert forall|i: int| n <= i < s.len() implies #[trigger] s[i] == c by {
            if i < s.len() - 1 {
                assert(s[i] == s.drop_last()[i]);
            }
        }
    } else {
        assert(s.take(s.len() as int) == s);
    }
}

/// Words hold no white space and are not empty, and together they are the text
/// without its white space.
pub proof fn law_words_are_what_white_space_parts(s: Seq<char>)
    ensures
        forall|i: int|
            0 <= i < words(s).len() ==> (#[trigger] words(s)[i]).len() > 0 && forall|k: int|
                0 <= k < words(s)[i].len() ==> !is_white(#[trigger] words(s)[i][k]),
        joined(words(s), Seq::empty()) == without_white(s),
{
    lemma_words_from(s, 0);
    assert(s.skip(0) == s);
}

proof fn lemma_word_end_is_spoken(s: Seq<char>, i: int)
    requires
        0 <= i <= s.len(),
    ensures
        i <= word_end(s, i) <= s.len(),
        forall|k: int| i <= k < word_end(s, i) ==> !is_white(#[trigger] s[k]),
    decreases s.len() - i,
{
    if i < s.len() && !is_white(s[i]) {
        lemma_word_end_is_spoken(s, i + 1);
    }
}

proof fn lemma_spoken_filter(s: Seq<char>)
    requires
        forall|k: int| 0 <= k < s.len() ==> !is_white(#[trigger] s[k]),
    ensures
        s.filter(|c: char| !is_white(c)) == s,
    decreases s.len(),
{
    reveal(Seq::filter);
    let spoken = |c: char| !is_white(c);
    if s.len() > 0 {
        lemma_spoken_filter(s.drop_last());
        assert(spoken(s.last()));
        assert(s.drop_last().push(s.last()) == s);
    }
}

proof fn lemma_words_from(s: Seq<char>, i: int)
    requires
        0 <= i <= s.len(),
    ensures
        forall|j: int|
            0 <= j < words_from(s, i).len() ==> (#[trigger] words_from(s, i)[j]).len() > 0
                && forall|k: int|
                0 <= k < words_from(s, i)[j].len() ==> !is_white(#[trigger] words_from(s, i)[j][k]),
        joined(words_from(s, i), Seq::empty()) == without_white(s.skip(i)),
    decreases s.len() - i,
{
    let spoken = |c: char| !is_white(c);
    let nothing = Seq::<char>::empty();
    if i >= s.len() {
        assert(s.skip(i) == nothing);
        assert(nothing.filter(spoken) == nothing) by {
            reveal(Seq::filter);
        }
    } else if is_white(s[i]) {
        lemma_words_from(s, i + 1);
        let first = seq![s[i]];
        assert(s.skip(i) == first + s.skip(i + 1));
        Seq::filter_distributes_over_add(first, s.skip(i + 1), spoken);
        assert(first.filter(spoken) == nothing) by {
            reveal(Seq::filter);
            nothing.lemma_filter_push(s[i], spoken);
            assert(nothing.push(s[i]) == first);
        }
        assert(nothing + s.skip(i + 1).filter(spoken) == s.skip(i + 1).filter(spoken));
    } else {
        lemma_word_end(s, i);
        lemma_word_end_is_spoken(s, i);
        let end = word_end(s, i);
        let first = s.subrange(i, end);
        let rest = words_from(s, end);
        lemma_words_from(s, end);
        assert(s.skip(i) == first + s.skip(end));
        assert forall|k: int| 0 <= k < first.len() implies !is_white(#[trigger] first[k]) by {
            assert(first[k] == s[i + k]);
        }
        lemma_spoken_filter(first);
        Seq::filter_distributes_over_add(first, s.skip(end), spoken);
        let all = words_from(s, i);
        assert(all == seq![first] + rest);
        if rest.len() == 0 {
            assert(all == seq![first]);
            assert(joined(all, nothing) == first);
            assert(first + nothing == first);
        } else {
            lemma_joined_front(first, rest, nothing);
            assert(first + nothing + joined(rest, nothing) == first + joined(rest, nothing));
        }
        assert forall|j: int| 0 <= j < all.len() implies (#[trigger] all[j]).len() > 0 && forall|
            k: int,
        |
            0 <= k < all[j].len() ==> !is_white(#[trigger] all[j][k]) by {
            if j > 0 {
                assert(all[j] == rest[j - 1]);
            }
        }
    }
}

/// Two lines are told apart by the line feed between them; it is lost, and with
/// it one carriage return before it, and nothing else.
pub proof fn law_lines_lose_only_their_ends(first: Seq<char>, second: Seq<char>)
    requires
        !first.contains('\n'),
        !second.contains('\n'),
        second.len() > 0,
        first.len() > 0 ==> first.last() != '\r',
    ensures
        lines(first + seq!['\n'] + second) == seq![first, second],
        lines(first + seq!['\r'] + seq!['\n'] + second) == seq![first, second],
        lines(first + seq!['\n']) == seq![first],
        lines(second) == seq![second],
        lines(Seq::empty()).len() == 0,
{
    lemma_two_lines(first, second);
    assert(!first.push('\r').contains('\n'));
    lemma_two_lines(first.push('\r'), second);
    assert(first.push('\r').drop_last() == first);
    assert(first + seq!['\r'] + seq!['\n'] + second == first.push('\r') + seq!['\n'] + second);
    lemma_two_lines(first, Seq::empty());
    assert(first + seq!['\n'] == first + seq!['\n'] + Seq::<char>::empty());
    lemma_find_from(second, seq!['\n'], 0);
    if let Some(at) = find_from(second, seq!['\n'], 0) {
        assert(second.subrange(at, at + 1)[0] == second[at]);
        assert(second.contains(second[at]));
    }
    assert(second.skip(0) == second);
}

proof fn lemma_two_lines(first: Seq<char>, second: Seq<char>)
    requires
        !first.contains('\n'),
        !second.contains('\n'),
    ensures
        lines(first + seq!['\n'] + second) == if second.len() > 0 {
            seq![without_return(first), second]
        } else {
            seq![without_return(first)]
        },
{
    let s = first + seq!['\n'] + second;
    let mark = seq!['\n'];
    let at = first.len() as int;
    lemma_the_line_feed_is_found(first, second);
    assert(s.subrange(0, at) == first);
    if second.len() > 0 {
        assert(s.skip(at + 1) == second);
        assert(lines_from(s, at + 1) == seq![second]);
        assert(lines_from(s, 0) == seq![without_return(first)] + seq![second]);
    } else {
        assert(lines_from(s, at + 1) == Seq::<Seq<char>>::empty());
        assert(lines_from(s, 0) == seq![without_return(first)] + Seq::<Seq<char>>::empty());
    }
}

proof fn lemma_the_line_feed_is_found(first: Seq<char>, second: Seq<char>)
    requires
        !first.contains('\n'),
        !second.contains('\n'),
    ensures
        find_from(first + seq!['\n'] + second, seq!['\n'], 0) == Some(first.len() as int),
        find_from(first + seq!['\n'] + second, seq!['\n'], first.len() as int + 1) is None,
{
    let s = first + seq!['\n'] + second;
    let mark = seq!['\n'];
    let at = first.len() as int;
    assert forall|k: int| 0 <= k < s.len() && k != at implies s[k] != '\n' by {
        if k < at {
            assert(first.contains(first[k]));
        } else {
            assert(second.contains(second[k - at - 1]));
        }
    }
    assert forall|k: int| k != at implies !occurs_at(s, mark, k) by {
        if occurs_at(s, mark, k) {
            assert(s.subrange(k, k + 1)[0] == s[k]);
        }
    }
    assert(s.subrange(at, at + 1) == mark);
    assert(occurs_at(s, mark, at));
    lemma_find_from(s, mark, 0);
    lemma_find_from(s, mark, at + 1);
}

/// A plus sign before a number changes nothing of it, and a sign alone is none.
pub proof fn law_plus_signs_change_nothing(digits: Seq<char>)
    requires
        digits.len() > 0 ==> digits[0] != '+',
    ensures
        parsed_u32(seq!['+'] + digits) == parsed_u32(digits),
        digits.len() == 0 ==> parsed_u32(digits) is None,
{
    assert((seq!['+'] + digits).skip(1) == digits);
}

/// The control characters are those before the space, the delete character, and
/// the thirty-two behind it.
pub proof fn law_control_characters_stand_in_two_ranges(c: char)
    ensures
        c < ' ' ==> is_control(c),
        ' ' <= c <= '~' ==> !is_control(c),
        '\u{7f}' <= c <= '\u{9f}' ==> is_control(c),
        c >= '\u{a0}' ==> !is_control(c),
{
}

/// Capitals of ASCII become the small letter of the same place in the alphabet,
/// and nothing else changes.
pub proof fn law_capitals_become_small(s: Seq<char>, i: int)
    requires
        0 <= i < s.len(),
    ensures
        ascii_lowered(s).len() == s.len(),
        'A' <= s[i] <= 'Z' ==> 'a' <= ascii_lowered(s)[i] <= 'z' && ascii_lowered(s)[i] as int
            - 'a' as int == s[i] as int - 'A' as int,
        !('A' <= s[i] <= 'Z') ==> ascii_lowered(s)[i] == s[i],
        ascii_lowered(ascii_lowered(s)) == ascii_lowered(s),
{
    assert forall|k: int| 0 <= k < s.len() implies !('A' <= #[trigger] ascii_lowered(s)[k] <= 'Z') by {
        assert(ascii_lowered(s)[k] == ascii_lower(s[k]));
    }
    assert(ascii_lowered(ascii_lowered(s)) == ascii_lowered(s));
}

} // verus!
