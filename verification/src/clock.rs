//! The time of day, as it stands in logs, names and records.
use vstd::prelude::*;

use crate::text;

verus! {

/// Whether a text is a time as the log shows it: hours, minutes, seconds and
/// milliseconds, such as `21:04:09..250`.
pub open spec fn is_log_time(t: Seq<char>) -> bool {
    &&& t.len() == 13
    &&& t[2] == ':' && t[5] == ':'
    &&& t[8] == '.' && t[9] == '.'
    &&& forall|i: int|
        0 <= i < 13 && i != 2 && i != 5 && i != 8 && i != 9 ==> text::is_ascii_digit(
            #[trigger] t[i],
        )
}

/// Whether a text is a year: four digits, or a sign and the digits of a year
/// that is later than these can say or before the year zero.
pub open spec fn is_year(t: Seq<char>) -> bool {
    if t.len() > 0 && (t[0] == '+' || t[0] == '-') {
        &&& t.len() >= if t[0] == '+' {
            6int
        } else {
            5int
        }
        &&& forall|i: int| 1 <= i < t.len() ==> text::is_ascii_digit(#[trigger] t[i])
    } else {
        &&& t.len() == 4
        &&& forall|i: int| 0 <= i < t.len() ==> text::is_ascii_digit(#[trigger] t[i])
    }
}

/// Whether a text is a date and a time as they stand in the name of a file:
/// the year, two digits each for the month and the day, an underscore, and two
/// digits each for the hour, the minute and the second, such as
/// `20240229_210409`.
pub open spec fn is_file_time(t: Seq<char>) -> bool {
    &&& t.len() >= 15
    &&& is_year(t.take(t.len() - 11))
    &&& t[t.len() - 7] == '_'
    &&& forall|i: int|
        t.len() - 11 <= i < t.len() && i != t.len() - 7 ==> text::is_ascii_digit(#[trigger] t[i])
}

/// What follows the year where a date and a time stand in a record: the month
/// and the day, the time, the part of the second where there is one, in three,
/// six or nine digits, and the offset.
pub open spec fn is_rest_of_record_time(t: Seq<char>) -> bool {
    let offset = t.len() - 6;
    &&& t.len() == 21 || t.len() == 25 || t.len() == 28 || t.len() == 31
    &&& t[0] == '-' && t[3] == '-' && t[6] == 'T' && t[9] == ':' && t[12] == ':'
    &&& t.len() > 21 ==> t[15] == '.'
    &&& t[offset] == '+' || t[offset] == '-'
    &&& t[offset + 3] == ':'
    &&& forall|i: int|
        0 <= i < t.len() && i != 0 && i != 3 && i != 6 && i != 9 && i != 12 && i != 15 && i
            != offset && i != offset + 3 ==> text::is_ascii_digit(#[trigger] t[i])
}

/// Whether a text is a date and a time with its offset, such as
/// `1996-12-19T16:39:57-08:00`.
pub open spec fn is_record_time(t: Seq<char>) -> bool {
    exists|n: int|
        0 <= n <= t.len() && is_year(#[trigger] t.take(n)) && is_rest_of_record_time(t.skip(n))
}

/// `chrono::Local::now` and `DateTime::format`: the time on the clock of the
/// machine, as two digits each for the hour, the minute and the second, and
/// three for the milliseconds, which chrono writes behind a point of its own.
/// Nothing is said of which time it is.
#[verifier::external_body]
fn local_log_time() -> (res: String)
    ensures
        is_log_time(res@),
{
    chrono::Local::now().format("%H:%M:%S.%.3f").to_string()
}

/// `chrono::Local::now` and `DateTime::format`: the date and the time on the
/// clock of the machine. chrono writes the year from 0 to 9999 as four digits
/// and any other with its sign in front of them, and everything else as two
/// digits. Nothing is said of which time it is.
#[verifier::external_body]
fn local_file_time() -> (res: String)
    ensures
        is_file_time(res@),
{
    chrono::Local::now().format("%Y%m%d_%H%M%S").to_string()
}

/// `chrono::Local::now` and `DateTime::to_rfc3339`: the date, the time and the
/// offset on the clock of the machine, with the part of the second where there
/// is one. Nothing is said of which time it is.
#[verifier::external_body]
fn local_record_time() -> (res: String)
    ensures
        is_record_time(res@),
{
    chrono::Local::now().to_rfc3339()
}

/// `chrono::Utc::now` and `DateTime::to_rfc3339`: the same as
/// `local_record_time`, for the time zone UTC.
#[verifier::external_body]
fn utc_record_time() -> (res: String)
    ensures
        is_record_time(res@),
{
    chrono::Utc::now().to_rfc3339()
}

/// The time of day for an entry of the log.
pub fn log_time_now() -> (res: String)
    ensures
        is_log_time(res@),
{
    local_log_time()
}

/// The date and the time for the name of a file.
pub fn file_time_now() -> (res: String)
    ensures
        is_file_time(res@),
{
    local_file_time()
}

/// The date and the time for a record, in the time zone of the machine.
pub fn local_time_now() -> (res: String)
    ensures
        is_record_time(res@),
{
    local_record_time()
}

/// The date and the time for a record, in UTC.
pub fn utc_time_now() -> (res: String)
    ensures
        is_record_time(res@),
{
    utc_record_time()
}

} // verus!
