//! Reading the clock and drawing fresh identifiers. Their results depend on
//! the moment and on chance, so the contracts state only what holds of every
//! outcome; the functions that use them take the values as arguments.

use vstd::prelude::*;
use crate::text::all_ascii_digits;

verus! {

/// The pattern of the generation date printed in the report.
pub const REPORT_DATE_PATTERN: &'static str = "%d/%m/%Y %H:%M";

/// The pattern of the time stamp in the report's file name.
pub const FILE_STAMP_PATTERN: &'static str = "%Y%m%d_%H%M";

/// A moment as seconds since the Unix epoch and nanoseconds within the second.
#[derive(Debug, Clone, Copy, PartialEq)]
pub struct Timestamp {
    pub secs: i64,
    pub nanos: u32,
}

/// `chrono::Utc::now()`, read as `timestamp()` and `timestamp_subsec_nanos()`:
/// the current time. `Utc::now` panics on a clock set before the epoch and
/// builds the moment from the system clock's whole seconds and sub-second
/// nanoseconds, so the seconds are not negative and the nanoseconds are below
/// one second; nothing more is claimed.
#[verifier::external_body]
pub fn now_utc() -> (t: Timestamp)
    ensures
        t.secs >= 0,
        t.nanos < 1_000_000_000,
{
    let now = chrono::Utc::now();
    Timestamp { secs: now.timestamp(), nanos: now.timestamp_subsec_nanos() }
}

/// A year as `%Y` writes it: four digits or more, with a sign before years
/// outside 0 to 9999.
pub open spec fn is_year_text(y: Seq<char>) -> bool {
    let digits = if y.len() > 0 && (y[0] == '+' || y[0] == '-') {
        y.drop_first()
    } else {
        y
    };
    digits.len() >= 4 && all_ascii_digits(digits)
}

/// Text in the shape of `FILE_STAMP_PATTERN` (`%Y%m%d_%H%M`): a year, then
/// two digits of month, two of day, `_`, two of hour and two of minute.
pub open spec fn is_file_stamp(s: Seq<char>) -> bool {
    &&& s.len() >= 13
    &&& is_year_text(s.take(s.len() - 9))
    &&& all_ascii_digits(s.subrange(s.len() - 9, s.len() - 5))
    &&& s[s.len() - 5] == '_'
    &&& all_ascii_digits(s.skip(s.len() - 4))
}

/// Text in the shape of `REPORT_DATE_PATTERN` (`%d/%m/%Y %H:%M`): two digits
/// of day, `/`, two of month, `/`, a year, a space, two digits of hour, `:`
/// and two of minute.
pub open spec fn is_report_date(s: Seq<char>) -> bool {
    &&& s.len() >= 16
    &&& all_ascii_digits(s.take(2))
    &&& s[2] == '/'
    &&& all_ascii_digits(s.subrange(3, 5))
    &&& s[5] == '/'
    &&& is_year_text(s.subrange(6, s.len() - 6))
    &&& s[s.len() - 6] == ' '
    &&& all_ascii_digits(s.subrange(s.len() - 5, s.len() - 3))
    &&& s[s.len() - 3] == ':'
    &&& all_ascii_digits(s.skip(s.len() - 2))
}

/// `chrono::Local::now().format(pattern).to_string()`: the current local time
/// written with `pattern`. Which moment it shows depends on the clock and the
/// machine's time zone and is not claimed; the contract states the shape that
/// chrono's formatting gives every moment (numeric fields zero-padded to two
/// digits, the year to four, with a sign outside 0 to 9999). Only the two
/// patterns of this library are accepted, for which the formatting cannot fail.
#[verifier::external_body]
pub fn local_time_text(pattern: &str) -> (s: String)
    requires
        pattern@ == REPORT_DATE_PATTERN@ || pattern@ == FILE_STAMP_PATTERN@,
    ensures
        pattern@ == FILE_STAMP_PATTERN@ ==> is_file_stamp(s@),
        pattern@ == REPORT_DATE_PATTERN@ ==> is_report_date(s@),
{
    chrono::Local::now().format(pattern).to_string()
}

/// A lower-case hexadecimal digit, as `uuid` writes them.
pub open spec fn is_lower_hex(c: char) -> bool {
    ('0' <= c && c <= '9') || ('a' <= c && c <= 'f')
}

/// The shape of the text of a random (version 4) UUID in hyphenated form:
/// 36 characters, hyphens at 8, 13, 18 and 23, lower-case hexadecimal digits
/// elsewhere, the version digit `4` at 14 and a variant digit `8`..`b` at 19.
pub open spec fn is_v4_uuid_text(s: Seq<char>) -> bool {
    &&& s.len() == 36
    &&& forall|i: int|
        0 <= i < 36 ==> if i == 8 || i == 13 || i == 18 || i == 23 {
            #[trigger] s[i] == '-'
        } else {
            is_lower_hex(s[i])
        }
    &&& s[14] == '4'
    &&& (s[19] == '8' || s[19] == '9' || s[19] == 'a' || s[19] == 'b')
}

/// `uuid::Uuid::new_v4().to_string()`: a fresh random identifier. The bits
/// are random; the contract states the shape that `uuid`'s source gives every
/// such text (version and variant bits set, hyphenated lower-case hex).
#[verifier::external_body]
pub fn new_uuid_text() -> (s: String)
    ensures
        is_v4_uuid_text(s@),
{
    uuid::Uuid::new_v4().to_string()
}

} // verus!
