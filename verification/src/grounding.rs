//! Whether a summary says what its source says.
use vstd::prelude::*;

use crate::ordering;
use crate::text;

verus! {

/// Whether a character is a letter or a number in the sense of Unicode.
pub uninterp spec fn is_alphanumeric(c: char) -> bool;

/// `char::is_alphanumeric`: whether the character is alphabetic or numeric in
/// the sense of Unicode. The answer depends on the character alone.
pub assume_specification[ char::is_alphanumeric ](c: char) -> (res: bool)
    ensures
        res == is_alphanumeric(c),
;

/// Whether a character is a number in the sense of Unicode.
pub uninterp spec fn is_numeric(c: char) -> bool;

/// `char::is_numeric`: whether the character is one of Unicode's numbers. The
/// answer depends on the character alone.
pub assume_specification[ char::is_numeric ](c: char) -> (res: bool)
    ensures
        res == is_numeric(c),
;

/// The lower case of a character in the sense of Unicode.
pub uninterp spec fn lower_case(c: char) -> Seq<char>;

/// `char::to_lowercase`: the characters that the lower case of a character is
/// made of, in order. They depend on the character alone.
#[verifier::external_body]
fn lower_case_of(c: char) -> (res: Vec<char>)
    ensures
        res@ == lower_case(c),
{
    c.to_lowercase().collect()
}

/// Whether a character counts when texts are compared: letters, numbers, and
/// everything in the blocks of Japanese.
pub open spec fn counts(c: char) -> bool {
    !text::is_white(c) && !text::is_control(c) && (is_alphanumeric(c) || ('\u{3000}' <= c && c
        <= '\u{9fff}'))
}

/// The characters of a text that count, in lower case.
pub open spec fn grounding(s: Seq<char>) -> Seq<char>
    decreases s.len(),
{
    if s.len() == 0 {
        Seq::empty()
    } else if counts(s.last()) {
        grounding(s.drop_last()) + lower_case(s.last())
    } else {
        grounding(s.drop_last())
    }
}

/// The characters of a text that count, in lower case.
pub fn grounding_text(value: &str) -> (res: Vec<char>)
    ensures
        res@ == grounding(value@),
{
    let chars = text::chars_of(value);
    let mut res: Vec<char> = Vec::new();
    let mut i: usize = 0;
    while i < chars.len()
        invariant
            i <= chars@.len(),
            chars@ == value@,
            res@ == grounding(value@.take(i as int)),
        decreases chars@.len() - i,
    {
        let c: char = chars[i];
        let kept = !text::is_white_char(c) && !text::is_control_char(c) && (c.is_alphanumeric() || (
        '\u{3000}' <= c && c <= '\u{9fff}'));
        assert(kept == counts(c));
        if kept {
            let mut lower = lower_case_of(c);
            res.append(&mut lower);
        }
        i += 1;
        assert(value@.take(i as int).drop_last() == value@.take(i - 1));
        assert(value@.take(i as int).last() == value@[i - 1]);
    }
    assert(value@.take(i as int) == value@);
    res
}

/// Which characters of a text are numbers.
pub open spec fn numbers(s: Seq<char>) -> Seq<bool> {
    s.map_values(|c: char| is_numeric(c))
}

fn number_flags(chars: &Vec<char>) -> (res: Vec<bool>)
    ensures
        res@ == numbers(chars@),
{
    let ghost wanted = numbers(chars@);
    let mut flags: Vec<bool> = Vec::new();
    let mut i: usize = 0;
    while i < chars.len()
        invariant
            i <= chars@.len(),
            wanted == numbers(chars@),
            flags@ == wanted.take(i as int),
        decreases chars@.len() - i,
    {
        flags.push(chars[i].is_numeric());
        i += 1;
        assert(wanted.take(i as int) == wanted.take(i - 1).push(wanted[i - 1]));
    }
    assert(wanted.take(i as int) == wanted);
    flags
}

/// How many characters are compared at a time.
pub const WINDOW: usize = 3;

/// Which pieces of three characters of the summary stand in the document.
pub open spec fn grounded_windows(document: Seq<char>, summary: Seq<char>) -> Seq<bool> {
    Seq::new(
        (summary.len() - 2) as nat,
        |i: int| text::contains_text(document, summary.subrange(i, i + 3)),
    )
}

/// Whether the characters from `from` up to `to` are a number with nothing
/// numeric beside it.
pub open spec fn is_number(flags: Seq<bool>, from: int, to: int) -> bool {
    &&& 0 <= from < to <= flags.len()
    &&& forall|i: int| from <= i < to ==> #[trigger] flags[i]
    &&& from == 0 || !flags[from - 1]
    &&& to == flags.len() || !flags[to]
}

/// Whether a number of the summary does not stand in the document.
pub open spec fn has_foreign_number(
    document: Seq<char>,
    summary: Seq<char>,
    flags: Seq<bool>,
) -> bool {
    exists|from: int, to: int|
        #[trigger] is_number(flags, from, to) && !text::contains_text(
            document,
            summary.subrange(from, to),
        )
}

/// Whether a summary says what its document says, both reduced to the
/// characters that count: three quarters of its pieces stand in the document,
/// and all of its numbers. A shorter summary stands there as a whole.
pub open spec fn is_supported(
    document: Seq<char>,
    summary: Seq<char>,
    flags: Seq<bool>,
) -> bool {
    if summary.len() == 0 || document.len() == 0 {
        false
    } else if summary.len() < 3 {
        text::contains_text(document, summary)
    } else {
        &&& 4 * ordering::places(grounded_windows(document, summary)).len() >= 3 * (summary.len()
            - 2)
        &&& !has_foreign_number(document, summary, flags)
    }
}

/// Tells whether a number of the summary does not stand in the document.
fn has_ungrounded_number(document: &Vec<char>, summary: &Vec<char>, flags: &Vec<bool>) -> (res: bool)
    requires
        flags@.len() == summary@.len(),
    ensures
        res == has_foreign_number(document@, summary@, flags@),
{
    let total: usize = summary.len();
    let mut start: usize = 0;
    let mut i: usize = 0;
    while i < total
        invariant
            start <= i <= total == summary@.len(),
            flags@.len() == summary@.len(),
            forall|k: int| start <= k < i ==> #[trigger] flags@[k],
            start == 0 || !flags@[start - 1],
            forall|from: int, to: int|
                #[trigger] is_number(flags@, from, to) && to < i ==> text::contains_text(
                    document@,
                    summary@.subrange(from, to),
                ),
            start < i ==> forall|from: int, to: int|
                #[trigger] is_number(flags@, from, to) && to <= start ==> text::contains_text(
                    document@,
                    summary@.subrange(from, to),
                ),
            start == i ==> forall|from: int, to: int|
                #[trigger] is_number(flags@, from, to) && to <= i ==> text::contains_text(
                    document@,
                    summary@.subrange(from, to),
                ),
        decreases total - i,
    {
        if !flags[i] {
            if start < i {
                let number = piece(summary, start, i);
                assert(is_number(flags@, start as int, i as int));
                if !text::contains_chars(document, &number) {
                    return true;
                }
                proof {
                    assert forall|from: int, to: int| #[trigger]
                        is_number(flags@, from, to) && to <= i implies text::contains_text(
                        document@,
                        summary@.subrange(from, to),
                    ) by {
                        lemma_one_number(flags@, start as int, i as int, from, to);
                    }
                }
            }
            start = i + 1;
            proof {
                assert forall|from: int, to: int| #[trigger]
                    is_number(flags@, from, to) && to <= i + 1 implies text::contains_text(
                    document@,
                    summary@.subrange(from, to),
                ) by {
                    if to == i + 1 {
                        assert(flags@[i as int]);
                    }
                }
            }
        }
        i += 1;
    }
    if start < total {
        let number = piece(summary, start, total);
        assert(is_number(flags@, start as int, total as int));
        if !text::contains_chars(document, &number) {
            return true;
        }
        proof {
            assert forall|from: int, to: int| #[trigger]
                is_number(flags@, from, to) implies text::contains_text(
                document@,
                summary@.subrange(from, to),
            ) by {
                lemma_one_number(flags@, start as int, total as int, from, to);
            }
        }
    }
    false
}

/// A number that ends at or before the end of another one ends before its
/// beginning, or is the same.
proof fn lemma_one_number(flags: Seq<bool>, start: int, end: int, from: int, to: int)
    requires
        is_number(flags, start, end),
        is_number(flags, from, to),
        to <= end,
    ensures
        (from == start && to == end) || to < start,
{
    if to >= start {
        if to < end {
            if to > start || to == start {
                assert(flags[to]);
            }
        } else {
            if from < start {
                assert(flags[start - 1]);
            } else if from > start {
                assert(flags[from - 1]);
            }
        }
    }
}

fn piece(chars: &Vec<char>, from: usize, to: usize) -> (res: Vec<char>)
    requires
        from <= to <= chars@.len(),
    ensures
        res@ == chars@.subrange(from as int, to as int),
{
    let mut res: Vec<char> = Vec::new();
    let mut i: usize = from;
    while i < to
        invariant
            from <= i <= to <= chars@.len(),
            res@ == chars@.subrange(from as int, i as int),
        decreases to - i,
    {
        res.push(chars[i]);
        i += 1;
        assert(chars@.subrange(from as int, i as int) == chars@.subrange(from as int, i - 1).push(
            chars@[i - 1],
        ));
    }
    res
}

/// Tells whether a summary says what its document says, both reduced to the
/// characters that count. `flags` marks the numbers of the summary.
pub fn is_grounded_text(document: &Vec<char>, summary: &Vec<char>, flags: &Vec<bool>) -> (res: bool)
    requires
        flags@.len() == summary@.len(),
    ensures
        res == is_supported(document@, summary@, flags@),
{
    if summary.len() == 0 || document.len() == 0 {
        return false;
    }
    if summary.len() < WINDOW {
        return text::contains_chars(document, summary);
    }
    let total: usize = summary.len();
    let windows: usize = total - 2;
    let ghost wanted = grounded_windows(document@, summary@);
    let mut found: Vec<bool> = Vec::new();
    let mut i: usize = 0;
    while i < windows
        invariant
            i <= windows == total - 2,
            total == summary@.len(),
            wanted == grounded_windows(document@, summary@),
            found@ == wanted.take(i as int),
        decreases windows - i,
    {
        let window = piece(summary, i, i + WINDOW);
        found.push(text::contains_chars(document, &window));
        i += 1;
        assert(wanted.take(i as int) == wanted.take(i - 1).push(wanted[i - 1]));
    }
    assert(wanted.take(i as int) == wanted);
    let places = ordering::set_places(&found);
    proof {
        ordering::lemma_places(found@);
        assert(ordering::indexes(places@).len() == places@.len());
    }
    if places.len() as u128 * 4 >= windows as u128 * 3 {
        return !has_ungrounded_number(document, summary, flags);
    }
    false
}

/// Whether a summary says what its document says.
pub open spec fn is_grounded(document: Seq<char>, summary: Seq<char>) -> bool {
    is_supported(grounding(document), grounding(summary), numbers(grounding(summary)))
}

/// Tells whether a summary says what its document says.
pub fn is_summary_grounded(document: &str, summary: &str) -> (res: bool)
    ensures
        res == is_grounded(document@, summary@),
{
    let source = grounding_text(document);
    let reduced = grounding_text(summary);
    let flags = number_flags(&reduced);
    is_grounded_text(&source, &reduced, &flags)
}

/// A summary that copies its document, as far as characters count, is accepted;
/// a summary or a document without such characters never is.
pub proof fn law_copies_are_grounded(document: Seq<char>, summary: Seq<char>)
    requires
        grounding(document) == grounding(summary),
    ensures
        is_grounded(document, summary) == (grounding(summary).len() > 0),
{
    let s = grounding(summary);
    let flags = numbers(s);
    if s.len() > 0 {
        if s.len() < 3 {
            assert(s.subrange(0, s.len() as int) == s);
            assert(text::occurs_at(s, s, 0));
        } else {
            let windows = grounded_windows(s, s);
            assert forall|i: int| 0 <= i < windows.len() implies windows[i] by {
                assert(text::occurs_at(s, s.subrange(i, i + 3), i));
            }
            lemma_all_set(windows);
            assert forall|from: int, to: int| #[trigger]
                is_number(flags, from, to) implies text::contains_text(
                s,
                s.subrange(from, to),
            ) by {
                assert(text::occurs_at(s, s.subrange(from, to), from));
            }
        }
    }
}

proof fn lemma_all_set(flags: Seq<bool>)
    requires
        forall|i: int| 0 <= i < flags.len() ==> flags[i],
    ensures
        ordering::places(flags).len() == flags.len(),
    decreases flags.len(),
{
    if flags.len() > 0 {
        lemma_all_set(flags.drop_last());
    }
}

/// A summary with a number that its document does not have is refused, unless
/// it is shorter than a piece.
pub proof fn law_foreign_numbers_are_refused(
    document: Seq<char>,
    summary: Seq<char>,
    from: int,
    to: int,
)
    requires
        grounding(summary).len() >= 3,
        is_number(numbers(grounding(summary)), from, to),
        !text::contains_text(grounding(document), grounding(summary).subrange(from, to)),
    ensures
        !is_grounded(document, summary),
{
}

/// Texts are compared by their letters, digits and ideographs, in lower case
/// and in their order; other characters leave no trace.
pub proof fn law_only_letters_and_digits_are_compared(a: Seq<char>, b: Seq<char>, c: char)
    ensures
        grounding(a + b) == grounding(a) + grounding(b),
        text::is_white(c) || text::is_control(c) ==> grounding(a.push(c)) == grounding(a),
        !is_alphanumeric(c) && c < '\u{3000}' ==> grounding(a.push(c)) == grounding(a),
        !text::is_white(c) && !text::is_control(c) && (is_alphanumeric(c) || ('\u{3000}' <= c && c
            <= '\u{9fff}')) ==> grounding(a.push(c)) == grounding(a) + lower_case(c),
    decreases b.len(),
{
    assert(a.push(c).drop_last() == a);
    if b.len() > 0 {
        law_only_letters_and_digits_are_compared(a, b.drop_last(), c);
        assert((a + b).drop_last() == a + b.drop_last());
        assert((a + b).last() == b.last());
        assert(grounding(a) + (grounding(b.drop_last()) + lower_case(b.last())) == grounding(a)
            + grounding(b.drop_last()) + lower_case(b.last()));
    } else {
        assert(a + b == a);
        assert(grounding(a) + Seq::<char>::empty() == grounding(a));
    }
}

/// A summary without numbers is grounded exactly as long as no more than a
/// quarter of its windows of three characters are missing in the document; one
/// of less than three characters must stand in it as a whole.
pub proof fn law_a_quarter_may_be_foreign(
    document: Seq<char>,
    summary: Seq<char>,
    flags: Seq<bool>,
)
    requires
        flags.len() == summary.len(),
        forall|i: int| 0 <= i < flags.len() ==> !#[trigger] flags[i],
        document.len() > 0,
    ensures
        summary.len() >= 3 ==> is_supported(document, summary, flags) == (4 * (summary.len() - 2
            - ordering::places(grounded_windows(document, summary)).len()) <= summary.len() - 2),
        0 < summary.len() < 3 ==> is_supported(document, summary, flags) == text::contains_text(
            document,
            summary,
        ),
        summary.len() == 0 ==> !is_supported(document, summary, flags),
{
    assert forall|from: int, to: int| !#[trigger] is_number(flags, from, to) by {
        if is_number(flags, from, to) {
            assert(flags[from]);
        }
    }
}

/// A window counts as found exactly where its three characters stand in the
/// document next to one another.
pub proof fn law_windows_are_three_characters(document: Seq<char>, summary: Seq<char>, i: int)
    requires
        0 <= i,
        i + 3 <= summary.len(),
    ensures
        grounded_windows(document, summary).len() == summary.len() - 2,
        ordering::places(grounded_windows(document, summary)).contains(i) == exists|at: int|
            0 <= at && at + 3 <= document.len() && #[trigger] document[at] == summary[i]
                && document[at + 1] == summary[i + 1] && document[at + 2] == summary[i + 2],
{
    let flags = grounded_windows(document, summary);
    let window = summary.subrange(i, i + 3);
    ordering::law_set_places_are_listed(flags, i);
    if flags[i] {
        let at = choose|at: int| text::occurs_at(document, window, at);
        assert(document.subrange(at, at + 3)[0] == window[0]);
        assert(document.subrange(at, at + 3)[1] == window[1]);
        assert(document.subrange(at, at + 3)[2] == window[2]);
        assert(document[at] == summary[i]);
    }
    if exists|at: int|
        0 <= at && at + 3 <= document.len() && #[trigger] document[at] == summary[i] && document[at
            + 1] == summary[i + 1] && document[at + 2] == summary[i + 2] {
        let at = choose|at: int|
            0 <= at && at + 3 <= document.len() && #[trigger] document[at] == summary[i]
                && document[at + 1] == summary[i + 1] && document[at + 2] == summary[i + 2];
        assert(document.subrange(at, at + 3) == window);
        assert(text::occurs_at(document, window, at));
    }
}

} // verus!
