//! The texts of the greeter's clock and of the calendar's title, as chrono
//! formats a date and a time.
use vstd::prelude::*;
use crate::calendar::{days_in_month, MAX_YEAR, MIN_YEAR};
use crate::text::{decimal, digit_char};

verus! {

/// A number below 100 written with two digits (`%H`, `%M`, `%d`).
pub open spec fn two_digits(n: int) -> Seq<char> {
    seq![digit_char(n / 10), digit_char(n % 10)]
}

/// `s` with zeros in front up to a length of four.
pub open spec fn zero_pad4(s: Seq<char>) -> Seq<char> {
    if s.len() >= 4 {
        s
    } else {
        Seq::new((4 - s.len()) as nat, |i: int| '0') + s
    }
}

/// A year as `%Y` writes it: four digits at least, zero-padded, and a sign
/// before years outside 0 to 9999.
pub open spec fn year_text(y: int) -> Seq<char> {
    if 0 <= y <= 9999 {
        zero_pad4(decimal(y as nat))
    } else if y < 0 {
        seq!['-'] + zero_pad4(decimal((-y) as nat))
    } else {
        seq!['+'] + zero_pad4(decimal(y as nat))
    }
}

/// The three-letter English name of month `m` (`%b`).
pub open spec fn month_abbrev(m: int) -> Seq<char> {
    if m == 1 {
        "Jan"@
    } else if m == 2 {
        "Feb"@
    } else if m == 3 {
        "Mar"@
    } else if m == 4 {
        "Apr"@
    } else if m == 5 {
        "May"@
    } else if m == 6 {
        "Jun"@
    } else if m == 7 {
        "Jul"@
    } else if m == 8 {
        "Aug"@
    } else if m == 9 {
        "Sep"@
    } else if m == 10 {
        "Oct"@
    } else if m == 11 {
        "Nov"@
    } else {
        "Dec"@
    }
}

/// The full English name of month `m` (`%B`).
pub open spec fn month_name(m: int) -> Seq<char> {
    if m == 1 {
        "January"@
    } else if m == 2 {
        "February"@
    } else if m == 3 {
        "March"@
    } else if m == 4 {
        "April"@
    } else if m == 5 {
        "May"@
    } else if m == 6 {
        "June"@
    } else if m == 7 {
        "July"@
    } else if m == 8 {
        "August"@
    } else if m == 9 {
        "September"@
    } else if m == 10 {
        "October"@
    } else if m == 11 {
        "November"@
    } else {
        "December"@
    }
}

/// A valid date of the range chrono represents.
pub open spec fn valid_date(year: int, month: int, day: int) -> bool {
    &&& MIN_YEAR <= year <= MAX_YEAR
    &&& 1 <= month <= 12
    &&& 1 <= day <= days_in_month(year, month)
}

/// Calls chrono: `NaiveTime::from_hms_opt(hour, minute, 0)`, then `format`
/// with `%H` and with `%M`; the claim is that these give the hour and the
/// minute with two digits each, as chrono's format documentation says.
#[verifier::external_body]
fn format_time(hour: u32, minute: u32) -> (r: (String, String))
    requires
        hour < 24,
        minute < 60,
    ensures
        r.0@ == two_digits(hour as int),
        r.1@ == two_digits(minute as int),
{
    let t = chrono::NaiveTime::from_hms_opt(hour, minute, 0).unwrap();
    (t.format("%H").to_string(), t.format("%M").to_string())
}

/// Calls chrono: `NaiveDate::from_ymd_opt`, then `format` with `%b %d, %Y`;
/// the claim is the month's English abbreviation, the day with two digits
/// and the year as `%Y` writes it.
#[verifier::external_body]
fn format_date(year: i32, month: u32, day: u32) -> (r: String)
    requires
        valid_date(year as int, month as int, day as int),
    ensures
        r@ == month_abbrev(month as int) + " "@ + two_digits(day as int) + ", "@ + year_text(
            year as int,
        ),
{
    chrono::NaiveDate::from_ymd_opt(year, month, day).unwrap().format("%b %d, %Y").to_string()
}

/// Calls chrono: `NaiveDate::from_ymd_opt`, then `format` with `%B %Y`; the
/// claim is the month's English name, a space and the year as `%Y` writes it.
#[verifier::external_body]
fn format_month_year(year: i32, month: u32, day: u32) -> (r: String)
    requires
        valid_date(year as int, month as int, day as int),
    ensures
        r@ == month_name(month as int) + " "@ + year_text(year as int),
{
    chrono::NaiveDate::from_ymd_opt(year, month, day).unwrap().format("%B %Y").to_string()
}

/// What the greeter's clock shows.
pub struct ClockText {
    /// The hour, `%H`.
    pub hours: String,
    /// The minute, `%M`.
    pub minutes: String,
    /// The date, `%b %d, %Y`.
    pub date: String,
}

/// The clock's texts at the given local date and time.
pub fn clock_text(year: i32, month: u32, day: u32, hour: u32, minute: u32) -> (c: ClockText)
    requires
        valid_date(year as int, month as int, day as int),
        hour < 24,
        minute < 60,
    ensures
        c.hours@ == two_digits(hour as int),
        c.minutes@ == two_digits(minute as int),
        c.date@ == month_abbrev(month as int) + " "@ + two_digits(day as int) + ", "@ + year_text(
            year as int,
        ),
{
    let (hours, minutes) = format_time(hour, minute);
    let date = format_date(year, month, day);
    ClockText { hours, minutes, date }
}

/// The calendar's title for the month of the given date: `%B %Y`.
pub fn month_title(year: i32, month: u32, day: u32) -> (t: String)
    requires
        valid_date(year as int, month as int, day as int),
    ensures
        t@ == month_name(month as int) + " "@ + year_text(year as int),
{
    format_month_year(year, month, day)
}

} // verus!
