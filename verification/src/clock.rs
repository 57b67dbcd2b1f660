//! Times of day, the Eorzean clock and gathering windows.
//!
//! A time of day is held as the number of seconds since midnight, always
//! below `SECONDS_PER_DAY`; every time the bot handles has a zero fraction
//! of a second, so this number orders times exactly as chrono's `NaiveTime`.

use chrono::Timelike;
use vstd::prelude::*;

verus! {

/// Seconds in one day.
pub const SECONDS_PER_DAY: u32 = 86400;

/// Real seconds in one Eorzean hour: the Eorzean clock runs 3600 / 175
/// times as fast as the real one.
pub const REAL_SECONDS_PER_EORZEA_HOUR: i64 = 175;

/// Smallest Unix timestamp, in seconds, that chrono turns into a date.
pub const EARLIEST_TIMESTAMP: i64 = -8334601228800;

/// Largest Unix timestamp, in seconds, that chrono turns into a date.
pub const LATEST_TIMESTAMP: i64 = 8210266876799;

/// The value of an ASCII decimal digit.
pub open spec fn digit_value(c: char) -> int {
    (c as int) - ('0' as int)
}

pub open spec fn is_digit(c: char) -> bool {
    '0' <= c && c <= '9'
}

/// `text` is exactly two digits, a colon and two digits, naming a valid
/// hour (below 24) and minute (below 60).
pub open spec fn is_canonical_hour_minute(text: Seq<char>) -> bool {
    &&& text.len() == 5
    &&& is_digit(text[0]) && is_digit(text[1])
    &&& text[2] == ':'
    &&& is_digit(text[3]) && is_digit(text[4])
    &&& digit_value(text[0]) * 10 + digit_value(text[1]) < 24
    &&& digit_value(text[3]) * 10 + digit_value(text[4]) < 60
}

/// Seconds since midnight named by a canonical `HH:MM` text.
pub open spec fn canonical_hour_minute_seconds(text: Seq<char>) -> int {
    (digit_value(text[0]) * 10 + digit_value(text[1])) * 3600
        + (digit_value(text[3]) * 10 + digit_value(text[4])) * 60
}

/// The format in which the node timetable writes its times.
pub open spec fn hour_minute_format() -> Seq<char> {
    "%H:%M"@
}

/// With the format `%H:%M`, a canonical `HH:MM` text parses to its hour and minute.
pub open spec fn hour_minute_parse_agrees(text: Seq<char>, format: Seq<char>, r: Option<u32>) -> bool {
    format == hour_minute_format() && is_canonical_hour_minute(text) ==> r == Some(
        canonical_hour_minute_seconds(text) as u32,
    )
}

/// What chrono's `NaiveTime::parse_from_str(text, format)` gives, as seconds
/// since midnight, or `None` where it returns an error.
pub uninterp spec fn parsed_time_of_day(text: Seq<char>, format: Seq<char>) -> Option<u32>;

/// Calls chrono's `NaiveTime::parse_from_str` and reads the parsed time back as
/// seconds since midnight. Claimed of it: the result is the named parse result;
/// a parsed time lies within one day; with the format `%H:%M` a parsed time has
/// no seconds, and a text of two digits, a colon and two digits that names a
/// valid hour and minute parses to that hour and minute. Which other texts
/// chrono accepts (one-digit fields, leading blanks) is left unsaid.
#[verifier::external_body]
fn parse_time_of_day(text: &str, format: &str) -> (r: Option<u32>)
    ensures
        r == parsed_time_of_day(text@, format@),
        r matches Some(t) ==> t < SECONDS_PER_DAY,
        r matches Some(t) ==> (format@ == hour_minute_format() ==> t % 60 == 0),
        hour_minute_parse_agrees(text@, format@, r),
{
    match chrono::NaiveTime::parse_from_str(text, format) {
        Ok(t) => Some(t.num_seconds_from_midnight()),
        Err(_) => None,
    }
}


/// Parses a time of day written as `%H:%M`, as the node timetable writes it.
pub fn parse_hour_minute(text: &str) -> (r: Option<u32>)
    ensures
        r == parsed_time_of_day(text@, hour_minute_format()),
        r matches Some(t) ==> t < SECONDS_PER_DAY && t % 60 == 0,
        is_canonical_hour_minute(text@) ==> r == Some(canonical_hour_minute_seconds(text@) as u32),
{
    parse_time_of_day(text, "%H:%M")
}

/// Calls chrono's `NaiveDateTime::from_timestamp(secs, 0)` and reads the time
/// of day of that UTC date and time. Claimed of it: for a timestamp that chrono
/// can hold, the result is the timestamp modulo one day, rounded towards minus
/// infinity (chrono computes it as `secs.rem_euclid(86_400)`). chrono panics on
/// the other timestamps, which `requires` leaves out.
#[verifier::external_body]
fn utc_seconds_of_day(secs: i64) -> (r: u32)
    requires
        EARLIEST_TIMESTAMP <= secs <= LATEST_TIMESTAMP,
    ensures
        r as int == (secs as int) % (SECONDS_PER_DAY as int),
{
    #[allow(deprecated)]
    chrono::NaiveDateTime::from_timestamp(secs, 0).time().num_seconds_from_midnight()
}

/// Integer division that rounds towards zero, as Rust's `/` on `i64`.
pub open spec fn div_toward_zero(a: int, b: int) -> int
    recommends
        b > 0,
{
    if a >= 0 {
        a / b
    } else {
        -((-a) / b)
    }
}

/// The Eorzean timestamp of a real Unix timestamp.
pub open spec fn eorzea_timestamp(timestamp: int) -> int {
    div_toward_zero(timestamp * 3600, REAL_SECONDS_PER_EORZEA_HOUR as int)
}

/// Real timestamps whose Eorzean timestamp chrono can turn into a date.
pub open spec fn eorzea_convertible(timestamp: int) -> bool {
    EARLIEST_TIMESTAMP <= eorzea_timestamp(timestamp) <= LATEST_TIMESTAMP
}

/// The Eorzean time of day, in seconds since midnight, at a real timestamp.
pub open spec fn eorzea_seconds_of_day(timestamp: int) -> int {
    eorzea_timestamp(timestamp) % (SECONDS_PER_DAY as int)
}

proof fn lemma_eorzea_no_overflow(timestamp: int)
    requires
        eorzea_convertible(timestamp),
    ensures
        -2_000_000_000_000_000 < timestamp * 3600 < 2_000_000_000_000_000,
{
    let a = timestamp * 3600;
    if a >= 0 {
        assert(a < 175 * 8210266876799 + 175) by (nonlinear_arith)
            requires
                a >= 0,
                a / 175 <= 8210266876799,
        ;
    } else {
        let b = -a;
        assert(b < 175 * 8334601228800 + 175) by (nonlinear_arith)
            requires
                b > 0,
                b / 175 <= 8334601228800,
        ;
    }
}

/// The Eorzean time of day at the real Unix timestamp `timestamp` (seconds):
/// the real timestamp is scaled by 3600 / 175, rounded towards zero, and read
/// as a UTC time of day.
pub fn time_to_eorzea(timestamp: i64) -> (r: u32)
    requires
        eorzea_convertible(timestamp as int),
    ensures
        r as int == eorzea_seconds_of_day(timestamp as int),
        r < SECONDS_PER_DAY,
{
    proof {
        lemma_eorzea_no_overflow(timestamp as int);
    }
    let scaled: i64 = if timestamp >= 0 {
        timestamp * 3600 / REAL_SECONDS_PER_EORZEA_HOUR
    } else {
        -((-timestamp) * 3600 / REAL_SECONDS_PER_EORZEA_HOUR)
    };
    utc_seconds_of_day(scaled)
}

/// The Eorzean time of day at the real Unix timestamp `timestamp`, or `None`
/// where the Eorzean timestamp lies beyond what chrono can turn into a date
/// (there chrono would panic).
pub fn try_time_to_eorzea(timestamp: i64) -> (r: Option<u32>)
    ensures
        r is Some <==> eorzea_convertible(timestamp as int),
        r matches Some(t) ==> t as int == eorzea_seconds_of_day(timestamp as int),
{
    let wide: i128 = timestamp as i128 * 3600;
    let scaled: i128 = if wide >= 0 {
        wide / 175
    } else {
        -((-wide) / 175)
    };
    if EARLIEST_TIMESTAMP as i128 <= scaled && scaled <= LATEST_TIMESTAMP as i128 {
        Some(time_to_eorzea(timestamp))
    } else {
        None
    }
}

/// The Eorzean clock moves on by one Eorzean hour every 175 real seconds
/// (for timestamps from the Unix epoch on).
pub proof fn law_eorzea_hour_every_175_seconds(timestamp: int)
    requires
        timestamp >= 0,
    ensures
        eorzea_seconds_of_day(timestamp + 175) == (eorzea_seconds_of_day(timestamp) + 3600) % 86400,
{
    let a = timestamp * 3600;
    assert((timestamp + 175) * 3600 == a + 175 * 3600) by (nonlinear_arith)
        requires
            a == timestamp * 3600,
    ;
    assert((a + 175 * 3600) / 175 == a / 175 + 3600) by (nonlinear_arith)
        requires
            a >= 0,
    ;
    let q = a / 175;
    assert((q + 3600) % 86400 == (q % 86400 + 3600) % 86400) by (nonlinear_arith)
        requires
            q >= 0,
    ;
}

/// Whether the time of day `now` lies in the gathering window from `start` to
/// `end`, both ends included. A window whose end lies before its start runs
/// past midnight: it holds from its start to midnight and from midnight to its
/// end.
pub open spec fn in_window(start: u32, end: u32, now: u32) -> bool {
    if start <= end {
        start <= now && now <= end
    } else {
        start <= now || now <= end
    }
}

/// Whether `now` lies in the gathering window from `start` to `end`, both
/// ends included; a window whose end lies before its start runs past midnight.
pub fn within_time(start: u32, end: u32, now: u32) -> (r: bool)
    requires
        start < SECONDS_PER_DAY,
        end < SECONDS_PER_DAY,
        now < SECONDS_PER_DAY,
    ensures
        r == in_window(start, end, now),
{
    if start <= end {
        start <= now && now <= end
    } else {
        start <= now || now <= end
    }
}

/// A window and the window from its end back to its start together cover the
/// whole day (unless the window is a single instant, whose reverse is the same
/// instant).
pub proof fn law_window_and_rest_cover_day(start: u32, end: u32, now: u32)
    requires
        start != end,
    ensures
        in_window(start, end, now) || in_window(end, start, now),
{
}

} // verus!
