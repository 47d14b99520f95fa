//! What the library takes from the clock and from the random number generators.

use crate::text::{is_digit, replaced};
use rand::Rng;
use vstd::prelude::*;

verus! {

/// The punctuation of an RFC 3339 time in UTC with microseconds, by its place from the end.
pub open spec fn mark_at(from_end: int) -> Option<char> {
    if from_end == 23 || from_end == 20 {
        Some('-')
    } else if from_end == 17 {
        Some('T')
    } else if from_end == 14 || from_end == 11 {
        Some(':')
    } else if from_end == 8 {
        Some('.')
    } else if from_end == 1 {
        Some('Z')
    } else {
        None
    }
}

/// The number of characters of a time in the years 0000 to 9999.
pub const TIMESTAMP_LENGTH: usize = 27;

/// The shape of an RFC 3339 time in UTC with microseconds: `YYYY-MM-DDTHH:MM:SS.ffffffZ`, all
/// digits but for the punctuation. A year that needs more than four digits, or lies before
/// the year 0000, has a sign in front.
pub open spec fn is_timestamp(s: Seq<char>) -> bool {
    &&& s.len() >= TIMESTAMP_LENGTH
    &&& forall|i: int|
        0 <= i < s.len() ==> match mark_at(s.len() - i) {
            Some(mark) => #[trigger] s[i] == mark,
            None => if i == 0 && s.len() > TIMESTAMP_LENGTH {
                s[i] == '+' || s[i] == '-'
            } else {
                is_digit(s[i])
            },
        }
}

/// The text is the shape of a timestamp for this time: in the years 0000 to 9999 it has
/// exactly 27 characters.
pub open spec fn is_timestamp_for(s: Seq<char>, micros: i64) -> bool {
    is_timestamp(s) && (in_years(micros) ==> s.len() == TIMESTAMP_LENGTH)
}

/// The first second of the year 0000, the first year for which RFC 3339 has a form.
pub const FIRST_SECOND: i64 = -62_167_219_200;

/// The last second of the year 9999, the last year for which RFC 3339 has a form.
pub const LAST_SECOND: i64 = 253_402_300_799;

/// The number of microseconds since the start of 1970 lies in the years 0000 to 9999.
pub open spec fn in_years(micros: i64) -> bool {
    FIRST_SECOND * 1_000_000 <= micros <= LAST_SECOND * 1_000_000 + 999_999
}

/// What `chrono::DateTime::parse_from_rfc3339` reads from a text, in microseconds since the
/// start of 1970; nothing if it refuses the text.
pub uninterp spec fn rfc3339_micros(text: Seq<char>) -> Option<i64>;

/// The text that `chrono` writes for a number of microseconds since the start of 1970;
/// nothing if its calendar does not reach that far.
pub uninterp spec fn rfc3339_of_micros(micros: i64) -> Option<Seq<char>>;

/// The text that `chrono` writes for a number of seconds since the start of 1970; nothing
/// if its calendar does not reach that far.
pub uninterp spec fn rfc3339_of_seconds(seconds: i64) -> Option<Seq<char>>;

/// The text with every `Z` written out as an offset.
pub open spec fn with_offset(text: Seq<char>) -> Seq<char> {
    replaced(text, 'Z', "+00:00"@)
}

/// `text` is what was written, with its `Z` written out as an offset.
pub open spec fn is_written_as(written: Option<Seq<char>>, text: Seq<char>) -> bool {
    written is Some && with_offset(written->0) == text
}

/// The text ends in a fraction of zero.
pub open spec fn is_whole_second(text: Seq<char>) -> bool {
    text.len() >= 8 && text.skip(text.len() - 8) == ".000000Z"@
}

/// The contents of an optional text.
pub open spec fn optional_text(text: Option<String>) -> Option<Seq<char>> {
    match text {
        Some(s) => Some(s@),
        None => None,
    }
}

/// Calls `chrono::DateTime::parse_from_rfc3339` and `timestamp_micros`. Trusted: the result
/// depends on the text alone, and what `chrono` wrote for a time in the years 0000 to 9999 is
/// read as that time, with its `Z` written out as an offset.
#[verifier::external_body]
pub(crate) fn parse_rfc3339(text: &str) -> (r: Option<i64>)
    ensures
        r == rfc3339_micros(text@),
        forall|micros: i64|
            in_years(micros) && is_written_as(#[trigger] rfc3339_of_micros(micros), text@)
                ==> r == Some(micros),
{
    chrono::DateTime::parse_from_rfc3339(text).ok().map(|time| time.timestamp_micros())
}

/// Calls `timestamp_micros` of `chrono::Utc` and `to_rfc3339_opts` with microseconds and a
/// `Z`. Trusted: the result depends on the number alone and has the shape of a timestamp;
/// within the years 0000 to 9999 there is one, of 27 characters, and reading it gives the
/// number back.
#[verifier::external_body]
pub(crate) fn format_micros(micros: i64) -> (r: Option<String>)
    ensures
        optional_text(r) == rfc3339_of_micros(micros),
        r matches Some(text) ==> is_timestamp_for(text@, micros),
        in_years(micros) ==> r is Some && rfc3339_micros(with_offset(r->0@)) == Some(micros),
{
    chrono::TimeZone::timestamp_micros(&chrono::Utc, micros).single().map(
        |time| time.to_rfc3339_opts(chrono::SecondsFormat::Micros, true),
    )
}

/// Calls `timestamp_opt` of `chrono::Utc` and `to_rfc3339_opts` with microseconds and a `Z`.
/// Trusted: the result depends on the number alone, has the shape of a timestamp and shows no
/// fraction of a second; within the years 0000 to 9999 there is one, of 27 characters, which
/// is also the text for as many million microseconds, and reading it gives the number back,
/// in microseconds.
#[verifier::external_body]
pub(crate) fn format_seconds(seconds: i64) -> (r: Option<String>)
    ensures
        optional_text(r) == rfc3339_of_seconds(seconds),
        r matches Some(text) ==> is_timestamp(text@) && is_whole_second(text@),
        FIRST_SECOND <= seconds <= LAST_SECOND ==> {
            &&& r is Some
            &&& r->0@.len() == TIMESTAMP_LENGTH
            &&& rfc3339_of_micros((seconds * 1_000_000) as i64) == Some(r->0@)
            &&& rfc3339_micros(with_offset(r->0@)) == Some((seconds * 1_000_000) as i64)
        },
{
    chrono::TimeZone::timestamp_opt(&chrono::Utc, seconds, 0).single().map(
        |time| time.to_rfc3339_opts(chrono::SecondsFormat::Micros, true),
    )
}

/// Calls `chrono::Utc::now` and `timestamp_micros`. Trusted: the clock does not stand
/// before 1970. What it shows is left open.
#[verifier::external_body]
pub(crate) fn now_micros() -> (r: i64)
    ensures
        r >= 0,
{
    chrono::Utc::now().timestamp_micros()
}

/// The text that `chrono` writes for some time from 1970 on.
pub open spec fn is_clock_text(s: Seq<char>) -> bool {
    &&& is_timestamp(s)
    &&& exists|micros: i64|
        {
            &&& 0 <= micros
            &&& #[trigger] rfc3339_of_micros(micros) == Some(s)
            &&& is_timestamp_for(s, micros)
        }
}

/// Calls `chrono::Utc::now` and `chrono::DateTime::to_rfc3339_opts` with microseconds and
/// a `Z`. Trusted: the text has the shape of a timestamp, of 27 characters up to the year
/// 9999, and is the one written for some number of microseconds from 1970 on. Which time it
/// shows is left to the clock.
#[verifier::external_body]
pub(crate) fn now_rfc3339() -> (r: String)
    ensures
        is_clock_text(r@),
{
    chrono::Utc::now().to_rfc3339_opts(chrono::SecondsFormat::Micros, true)
}

/// The character is a lower-case hexadecimal digit.
pub open spec fn is_hex(c: char) -> bool {
    '0' <= c <= '9' || 'a' <= c <= 'f'
}

/// The shape of a random (version 4) UUID in lower case with hyphens.
pub open spec fn is_order_id(s: Seq<char>) -> bool {
    &&& s.len() == 36
    &&& forall|i: int|
        0 <= i < 36 ==> if i == 8 || i == 13 || i == 18 || i == 23 {
            #[trigger] s[i] == '-'
        } else {
            is_hex(s[i])
        }
    &&& s[14] == '4'
    &&& s[19] == '8' || s[19] == '9' || s[19] == 'a' || s[19] == 'b'
}

/// Calls `uuid::Uuid::new_v4` and formats the result. Trusted: the text has the shape of a
/// version 4 UUID. Its random digits are left open.
#[verifier::external_body]
pub(crate) fn new_order_id() -> (r: String)
    ensures
        is_order_id(r@),
{
    uuid::Uuid::new_v4().to_string()
}

/// Calls `gen_range` of the thread's random number generator in `rand`. Trusted: the
/// number lies in the closed range. Which one it is is left to chance.
#[verifier::external_body]
pub(crate) fn random_between(low: u32, high: u32) -> (r: u32)
    requires
        low <= high,
    ensures
        low <= r <= high,
{
    rand::thread_rng().gen_range(low..=high)
}

} // verus!
