//! Readings of the clock and rendering of dates in local time. Their
//! results depend on the time of the call and on the machine's time zone:
//! a rendered date is stated up to the offset of the local time from UTC.

use vstd::prelude::*;

use crate::strings::{decimal, decimal_pad4, digit_char};

verus! {

#[verifier::external_type_specification]
#[verifier::external_body]
pub struct ExSystemTime(std::time::SystemTime);

#[verifier::external_type_specification]
#[verifier::external_body]
pub struct ExSystemTimeError(std::time::SystemTimeError);

/// The current reading of the system clock (std's `SystemTime::now`).
#[verifier::external_body]
fn system_time_now() -> std::time::SystemTime {
    std::time::SystemTime::now()
}

/// The time elapsed from the Unix epoch to `t` (std's
/// `SystemTime::duration_since(UNIX_EPOCH)`); an error when `t` is before
/// the epoch.
#[verifier::external_body]
fn since_epoch(t: &std::time::SystemTime) -> Result<std::time::Duration, std::time::SystemTimeError> {
    t.duration_since(std::time::UNIX_EPOCH)
}

/// The whole milliseconds of a duration (std's `Duration::as_millis`).
#[verifier::external_body]
fn duration_millis(d: &std::time::Duration) -> u128 {
    d.as_millis()
}

/// Milliseconds since the Unix epoch by the system clock; 0 when the clock
/// is set before the epoch.
pub(crate) fn now_ms() -> u128 {
    let t = system_time_now();
    match since_epoch(&t) {
        Ok(d) => duration_millis(&d),
        Err(_) => 0,
    }
}

/// Whether an instant (milliseconds since the Unix epoch) falls in the
/// range of chrono's dates: from 1 January of the year -262143, 00:00:00.000
/// UTC, to 31 December of the year 262142, 23:59:59.999 UTC.
pub open spec fn in_chrono_range(ms: i64) -> bool {
    -8334601228800000 <= ms <= 8210266876799999
}

/// The pattern of a date written day first: `DD/MM/YYYY hh:mm:ss`.
pub open spec fn day_first_pattern() -> Seq<char> {
    "%d/%m/%Y %H:%M:%S"@
}

/// The pattern of a date written year first: `YYYY-MM-DD hh:mm:ss`.
pub open spec fn year_first_pattern() -> Seq<char> {
    "%Y-%m-%d %H:%M:%S"@
}

/// Whether `y` is a leap year of the proleptic Gregorian calendar (years
/// counted astronomically: year 0 is 1 BC).
pub open spec fn is_leap_year(y: int) -> bool {
    y % 4 == 0 && (y % 100 != 0 || y % 400 == 0)
}

/// The number of days of month `m` (1 to 12) of year `y`.
pub open spec fn days_in_month(y: int, m: int) -> int {
    if m == 2 {
        if is_leap_year(y) {
            29
        } else {
            28
        }
    } else if m == 4 || m == 6 || m == 9 || m == 11 {
        30
    } else {
        31
    }
}

/// The number of days of year `y` before the first of month `m`.
pub open spec fn days_before_month(y: int, m: int) -> int {
    let common: int = if m == 1 {
        0
    } else if m == 2 {
        31
    } else if m == 3 {
        59
    } else if m == 4 {
        90
    } else if m == 5 {
        120
    } else if m == 6 {
        151
    } else if m == 7 {
        181
    } else if m == 8 {
        212
    } else if m == 9 {
        243
    } else if m == 10 {
        273
    } else if m == 11 {
        304
    } else {
        334
    };
    if m > 2 && is_leap_year(y) {
        common + 1
    } else {
        common
    }
}

/// The day number of the date `y`-`m`-`d`, counted from 1 January 1970
/// (day 0): the days of the years before `y` since year 1, of the months
/// before `m`, and of the days before `d`, less the 719162 days from
/// 1 January of year 1 to 1 January 1970.
pub open spec fn day_number(y: int, m: int, d: int) -> int {
    let p = y - 1;
    365 * p + p / 4 - p / 100 + p / 400 + days_before_month(y, m) + d - 1 - 719162
}

/// The date (year, month, day) of day number `z` counted from 1 January
/// 1970 in the proleptic Gregorian calendar.
pub open spec fn civil_date(z: int) -> (int, int, int) {
    choose|c: (int, int, int)|
        1 <= c.1 <= 12 && 1 <= c.2 <= days_in_month(c.0, c.1) && day_number(c.0, c.1, c.2) == z
}

/// A number below 100 written with two digits.
pub open spec fn two_digits(n: int) -> Seq<char> {
    seq![digit_char((n / 10) as nat), digit_char((n % 10) as nat)]
}

/// A year as chrono's `%Y` writes it: four digits or more, zero-padded,
/// with a sign outside 0 to 9999.
pub open spec fn year_text(y: int) -> Seq<char> {
    if 0 <= y <= 9999 {
        decimal_pad4(y as nat)
    } else if y > 9999 {
        seq!['+'] + decimal(y as nat)
    } else {
        seq!['-'] + decimal_pad4((-y) as nat)
    }
}

/// The time of day `hh:mm:ss` of the instant `t` (milliseconds from the
/// start of 1 January 1970 in the same clock), the milliseconds dropped.
pub open spec fn time_of_day_text(t: int) -> Seq<char> {
    let sod = t % 86_400_000;
    two_digits(sod / 3_600_000) + seq![':'] + two_digits((sod / 60_000) % 60) + seq![':']
        + two_digits((sod / 1000) % 60)
}

/// The instant `t` (milliseconds from the start of 1 January 1970 in the
/// same clock) written `DD/MM/YYYY hh:mm:ss`.
pub open spec fn day_first_text(t: int) -> Seq<char> {
    let (y, m, d) = civil_date(t / 86_400_000);
    two_digits(d) + seq!['/'] + two_digits(m) + seq!['/'] + year_text(y) + seq![' ']
        + time_of_day_text(t)
}

/// The instant `t` (milliseconds from the start of 1 January 1970 in the
/// same clock) written `YYYY-MM-DD hh:mm:ss`.
pub open spec fn year_first_text(t: int) -> Seq<char> {
    let (y, m, d) = civil_date(t / 86_400_000);
    year_text(y) + seq!['-'] + two_digits(m) + seq!['-'] + two_digits(d) + seq![' ']
        + time_of_day_text(t)
}

/// Whether `off` (milliseconds) is an offset from UTC that chrono can hold:
/// whole seconds, less than a day either way.
pub open spec fn utc_offset(off: int) -> bool {
    off % 1000 == 0 && -86_400_000 < off < 86_400_000
}

/// Whether `text` is the instant `ms` (milliseconds since the Unix epoch)
/// in local time as `pattern` writes it, for some offset of the local time
/// from UTC.
pub open spec fn is_local_text(ms: int, pattern: Seq<char>, text: Seq<char>) -> bool {
    exists|off: int|
        utc_offset(off) && (pattern == day_first_pattern() ==> text == day_first_text(ms + off))
            && (pattern == year_first_pattern() ==> text == year_first_text(ms + off))
}

/// Renders an instant (milliseconds since the Unix epoch) in the machine's
/// time zone with one of two chrono `strftime` patterns (chrono's
/// `DateTime::from_timestamp_millis`, `with_timezone(&Local)` and
/// `format`). The contract claims that the result is `None` exactly when
/// `from_timestamp_millis` finds the instant out of chrono's range (see
/// `in_chrono_range`), and that a `Some` is the proleptic Gregorian date and
/// time of the instant shifted by the local offset from UTC, written as the
/// pattern says: chrono's local time is the UTC time plus a `FixedOffset`,
/// whole seconds of less than a day either way, and it writes day, month,
/// hour, minute and second as two digits and the year as `year_text` does
/// (an instant from a timestamp in milliseconds holds no leap second).
/// Which offset applies depends on the machine's time zone and is left
/// unsaid. The pattern is one of the two that the library uses: with an
/// unknown specifier chrono's formatter fails and `to_string` panics. The
/// intermediate `DateTime` values cannot be declared here (their type
/// parameter is bound by chrono's `TimeZone` trait), so the calls stand in
/// this one item.
#[verifier::external_body]
pub(crate) fn local_date_text(ms: i64, pattern: &str) -> (r: Option<String>)
    requires
        pattern@ == day_first_pattern() || pattern@ == year_first_pattern(),
    ensures
        r is None <==> !in_chrono_range(ms),
        r matches Some(t) ==> is_local_text(ms as int, pattern@, t@),
{
    match chrono::DateTime::from_timestamp_millis(ms) {
        Some(dt) => Some(dt.with_timezone(&chrono::Local).format(pattern).to_string()),
        None => None,
    }
}

} // verus!
