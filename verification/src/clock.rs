//! The time stamp that a new record gets: the current instant, written
//! as date and time of day two hours east of UTC.

use vstd::prelude::*;
use crate::text::is_digit;

verus! {

/// The zone in which time stamps are written: two hours east of UTC.
pub const ZONE_OFFSET_SECONDS: i32 = 7200;

/// The first instant, in seconds since the start of 1970 in UTC, that
/// can be written: the start of the year -262143.
pub const FIRST_INSTANT: i64 = -8_334_601_228_800;

/// The last instant that can be written: the last second of the year
/// 262142.
pub const LAST_INSTANT: i64 = 8_210_266_876_799;

/// Whether `pattern` is the layout of a time stamp: year, month, day,
/// hour, minute and second.
pub open spec fn is_timestamp_pattern(pattern: Seq<char>) -> bool {
    pattern == "%Y-%m-%d %H:%M:%S"@
}

/// Whether an instant, in seconds since the start of 1970 in UTC, can
/// be written.
pub open spec fn instant_in_range(seconds: int) -> bool {
    FIRST_INSTANT <= seconds <= LAST_INSTANT
}

/// Whether `c` may stand at place `i` of a time stamp of `len`
/// characters. Counted from the end the places are fixed: two hyphens,
/// a space and two colons part the fields, and digits fill them. A
/// time stamp of more than nineteen characters begins with a sign.
pub open spec fn fits_timestamp(c: char, i: int, len: int) -> bool {
    let back = len - i;
    if back == 15 || back == 12 {
        c == '-'
    } else if back == 9 {
        c == ' '
    } else if back == 6 || back == 3 {
        c == ':'
    } else if i == 0 && len > 19 {
        c == '+' || c == '-'
    } else {
        is_digit(c)
    }
}

/// The shape that every time stamp has, `YYYY-MM-DD HH:MM:SS`: a year
/// of four digits, or of a sign and at least four digits, then month,
/// day, hour, minute and second with two digits each.
pub open spec fn is_timestamp_text(text: Seq<char>) -> bool {
    &&& text.len() >= 19
    &&& forall|i: int|
        0 <= i < text.len() ==> fits_timestamp(#[trigger] text[i], i, text.len() as int)
}

/// The text that chrono writes for the instant `seconds` after the
/// start of 1970 in UTC, seen `offset_seconds` east of UTC and laid
/// out after `pattern`.
pub uninterp spec fn instant_text(seconds: int, offset_seconds: int, pattern: Seq<char>) -> Seq<
    char,
>;

/// Calls chrono's `Utc::now` and `DateTime::timestamp`: the seconds
/// from the start of 1970 in UTC to now.
///
/// Which number comes back depends on the clock. What is claimed holds
/// of every outcome: it lies in the range of the instants that chrono
/// can hold, because `Utc::now` made a `DateTime` of it. `Utc::now`
/// itself gives up on a machine whose clock stands before 1970.
#[verifier::external_body]
fn utc_now_seconds() -> (seconds: i64)
    ensures
        instant_in_range(seconds as int),
{
    chrono::Utc::now().timestamp()
}

/// Calls chrono: `DateTime::from_timestamp` for the instant,
/// `FixedOffset::east_opt` for the zone, `DateTime::with_timezone` and
/// `DateTime::format` to write the instant in that zone after
/// `pattern`.
///
/// The text is a function of the three arguments and is named, not
/// spelled out. Beside the name stands its shape, as chrono writes the
/// six fields of the pattern: the year with four digits, or with a
/// sign and at least four digits where it lies outside 0 to 9999, the
/// others with two digits each, and the pattern's own hyphens, space
/// and colons between them. The preconditions keep to the instants and
/// offsets that chrono accepts and to the one pattern of which this is
/// said.
#[verifier::external_body]
fn format_instant(seconds: i64, offset_seconds: i32, pattern: &str) -> (text: String)
    requires
        instant_in_range(seconds as int),
        -86_400 < offset_seconds < 86_400,
        is_timestamp_pattern(pattern@),
    ensures
        text@ == instant_text(seconds as int, offset_seconds as int, pattern@),
        is_timestamp_text(text@),
{
    let zone = chrono::FixedOffset::east_opt(offset_seconds).unwrap();
    let instant = chrono::DateTime::from_timestamp(seconds, 0).unwrap();
    instant.with_timezone(&zone).format(pattern).to_string()
}

/// The time stamp of the instant `seconds` after the start of 1970 in
/// UTC, or nothing where that instant cannot be written.
pub fn timestamp_at(seconds: i64) -> (text: Option<String>)
    ensures
        text.is_some() == instant_in_range(seconds as int),
        text.is_some() ==> text.unwrap()@ == instant_text(
            seconds as int,
            ZONE_OFFSET_SECONDS as int,
            "%Y-%m-%d %H:%M:%S"@,
        ) && is_timestamp_text(text.unwrap()@),
{
    if FIRST_INSTANT <= seconds && seconds <= LAST_INSTANT {
        Some(format_instant(seconds, ZONE_OFFSET_SECONDS, "%Y-%m-%d %H:%M:%S"))
    } else {
        None
    }
}

/// The time stamp of the current instant.
pub fn get_current_timestamp() -> (text: String)
    ensures
        is_timestamp_text(text@),
        exists|seconds: int|
            instant_in_range(seconds) && text@ == #[trigger] instant_text(
                seconds,
                ZONE_OFFSET_SECONDS as int,
                "%Y-%m-%d %H:%M:%S"@,
            ),
{
    let seconds: i64 = utc_now_seconds();
    format_instant(seconds, ZONE_OFFSET_SECONDS, "%Y-%m-%d %H:%M:%S")
}

} // verus!
