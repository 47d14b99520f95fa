//! Times on the wire: microseconds since the start of 1970, UTC.

use crate::sources::{
    format_micros, format_seconds, in_years, is_clock_text, is_timestamp, is_whole_second, now_micros,
    now_rfc3339, parse_rfc3339, rfc3339_micros, rfc3339_of_micros, rfc3339_of_seconds,
    with_offset, FIRST_SECOND, TIMESTAMP_LENGTH,
};
use crate::text::{nothing_to_replace, replace_char, replaced};
use vstd::prelude::*;

verus! {

/// Numbers on the wire below this count seconds, the others microseconds.
pub const MICROS_FROM: i64 = 10_000_000_000;

/// The wire form of a time, where its text can be read.
pub open spec fn wire_micros(text: Seq<char>) -> Option<i64> {
    rfc3339_micros(with_offset(text))
}

/// The number on the wire counts microseconds.
pub open spec fn counts_micros(val: i64) -> bool {
    val >= MICROS_FROM
}

/// The text of a time on the wire, where it has one.
pub open spec fn wire_text(val: i64) -> Option<Seq<char>> {
    if counts_micros(val) {
        rfc3339_of_micros(val)
    } else {
        rfc3339_of_seconds(val)
    }
}

/// The wire form of a time: what was read from its text, or else the present.
pub fn micros_or_now(parsed: Option<i64>, now: i64) -> (r: i64)
    ensures
        r == (match parsed {
            Some(micros) => micros,
            None => now,
        }),
{
    match parsed {
        Some(micros) => micros,
        None => now,
    }
}

/// Turns the text of a time into its wire form. A text that cannot be read stands for the
/// present.
///
/// A text that was written for some time in the years 0000 to 9999 gives that time. Unless
/// it lies in the first hours of 1970 or before them, it is deserialized to the same text
/// again.
pub fn serialize(time_str: &str) -> (r: i64)
    ensures
        match wire_micros(time_str@) {
            Some(micros) => r == micros,
            None => r >= 0,
        },
        forall|micros: i64|
            in_years(micros) && #[trigger] rfc3339_of_micros(micros) == Some(time_str@) ==> {
                &&& r == micros
                &&& counts_micros(micros) ==> wire_text(r) == Some(time_str@)
            },
{
    let text = replace_char(time_str, 'Z', "+00:00");
    match parse_rfc3339(text.as_str()) {
        Some(micros) => micros_or_now(Some(micros), 0),
        None => micros_or_now(None, now_micros()),
    }
}

/// Whether a number on the wire counts microseconds rather than seconds.
pub fn is_micros(val: i64) -> (r: bool)
    ensures
        r == counts_micros(val),
{
    val >= MICROS_FROM
}

/// Turns the wire form of a time into text. Small numbers are taken for seconds; a number
/// beyond the calendar stands for the present.
///
/// Up to the year 9999 nothing is lost: the text of microseconds is serialized to the same
/// number again, and the text of seconds, from the year 0000 on, to as many million. Seconds
/// and as many million microseconds give the same text.
pub fn deserialize(val: i64) -> (r: String)
    ensures
        is_timestamp(r@),
        wire_text(val) matches Some(text) ==> r@ == text,
        wire_text(val) is None ==> is_clock_text(r@),
        counts_micros(val) && in_years(val) ==> {
            &&& wire_text(val) == Some(r@)
            &&& wire_micros(r@) == Some(val)
            &&& r@.len() == TIMESTAMP_LENGTH
        },
        !counts_micros(val) && FIRST_SECOND <= val ==> {
            &&& wire_text(val) == Some(r@)
            &&& wire_micros(r@) == Some((val * 1_000_000) as i64)
            &&& rfc3339_of_micros((val * 1_000_000) as i64) == Some(r@)
            &&& is_whole_second(r@)
            &&& r@.len() == TIMESTAMP_LENGTH
        },
        10_000 <= val < MICROS_FROM ==> wire_text((val * 1_000_000) as i64) == Some(r@),
{
    let text = if is_micros(val) {
        format_micros(val)
    } else {
        format_seconds(val)
    };
    match text {
        Some(text) => text,
        None => now_rfc3339(),
    }
}

/// Numbers below ten billion are read as seconds and all others as microseconds, and a time is
/// written by reading its text with every `Z` written out.
pub proof fn wire_times_are_told_by_size(val: i64, text: Seq<char>)
    ensures
        counts_micros(val) <==> val >= 10_000_000_000,
        val >= 10_000_000_000 ==> wire_text(val) == rfc3339_of_micros(val),
        val < 10_000_000_000 ==> wire_text(val) == rfc3339_of_seconds(val),
        with_offset(text) == replaced(text, 'Z', "+00:00"@),
        wire_micros(text) == rfc3339_micros(with_offset(text)),
        !text.contains('Z') ==> wire_micros(text) == rfc3339_micros(text),
        !text.contains('Z') ==> wire_micros(text.push('Z')) == rfc3339_micros(text + "+00:00"@),
{
    if !text.contains('Z') {
        nothing_to_replace(text, 'Z', "+00:00"@);
        assert(text.push('Z').drop_last() =~= text);
    }
}

} // verus!
