//! The month grid of the calendar widget.
use vstd::prelude::*;
use chrono::Datelike;

verus! {

/// The first year `chrono::NaiveDate` represents.
pub const MIN_YEAR: i32 = -262143;

/// The last year `chrono::NaiveDate` represents.
pub const MAX_YEAR: i32 = 262142;

/// A leap year of the proleptic Gregorian calendar.
pub open spec fn is_leap(y: int) -> bool {
    (y % 4 == 0 && y % 100 != 0) || y % 400 == 0
}

/// The number of days of month `m` (1 to 12) of year `y`.
pub open spec fn days_in_month(y: int, m: int) -> int {
    if m == 2 {
        if is_leap(y) {
            29
        } else {
            28
        }
    } else if m == 4 || m == 6 || m == 9 || m == 11 {
        30
    } else {
        31
    }
}

/// The days of the years before `y`, counted from 1 January of year 1.
pub open spec fn days_before_year(y: int) -> int {
    let p = y - 1;
    365 * p + p / 4 - p / 100 + p / 400
}

/// The days of year `y` before month `m`.
pub open spec fn days_before_month(y: int, m: int) -> int {
    let base: int = if m == 1 {
        0
    } else if m == 2 {
        31
    } else if m == 3 {
        59
    } else if m == 4 {
        90
    } else if m == 5 {
        120
    } else if m == 6 {
        151
    } else if m == 7 {
        181
    } else if m == 8 {
        212
    } else if m == 9 {
        243
    } else if m == 10 {
        273
    } else if m == 11 {
        304
    } else {
        334
    };
    base + if m > 2 && is_leap(y) {
        1int
    } else {
        0int
    }
}

/// The day of the week of a date, Monday being 0 (1 January of year 1 was a Monday).
pub open spec fn weekday_from_monday(y: int, m: int, d: int) -> int {
    (days_before_year(y) + days_before_month(y, m) + d - 1) % 7
}

/// Calls chrono: `NaiveDate::from_ymd_opt(year, month, 1)`, `pred_opt` and
/// `day`; the claim is that the day before the first of a month is the last
/// day of the month before, in the proleptic Gregorian calendar.
#[verifier::external_body]
fn last_day_before(year: i32, month: u32) -> (n: u32)
    requires
        MIN_YEAR <= year <= MAX_YEAR,
        1 <= month <= 12,
        year == MIN_YEAR ==> month > 1,
    ensures
        n == days_in_month(prev_month(year as int, month as int).0, prev_month(year as int, month as int).1),
{
    chrono::NaiveDate::from_ymd_opt(year, month, 1).unwrap().pred_opt().unwrap().day()
}

/// The number of days of `month` of `year`: the last day before the first
/// of the month after.
fn month_length(year: i32, month: u32) -> (n: u32)
    requires
        MIN_YEAR <= year <= MAX_YEAR,
        1 <= month <= 12,
        year < MAX_YEAR || month < 12,
    ensures
        n == days_in_month(year as int, month as int),
{
    if month == 12 {
        last_day_before(year + 1, 1)
    } else {
        last_day_before(year, month + 1)
    }
}

/// Calls chrono: `NaiveDate::from_ymd_opt(year, month, 1)`, `weekday` and
/// `num_days_from_monday`; the claim is that the result is the weekday of
/// the month's first day, Monday being 0.
#[verifier::external_body]
fn first_weekday(year: i32, month: u32) -> (w: u32)
    requires
        MIN_YEAR <= year <= MAX_YEAR,
        1 <= month <= 12,
    ensures
        w == weekday_from_monday(year as int, month as int, 1),
{
    chrono::NaiveDate::from_ymd_opt(year, month, 1).unwrap().weekday().num_days_from_monday()
}

/// A day in the month grid.
#[derive(Clone, Copy, PartialEq, Eq, Structural, Debug)]
pub struct CalendarCell {
    /// The day of the month shown.
    pub day: u32,
    /// Column, Monday being 0.
    pub col: i32,
    /// Row; row 0 holds the weekday names.
    pub row: i32,
    /// The day belongs to the month before or after.
    pub other_month: bool,
    /// The day is today.
    pub today: bool,
    /// The day is a Saturday or Sunday of the month shown.
    pub weekend: bool,
}

/// The number of cells after the last day that complete its row.
pub open spec fn trailing(start: int, len: int) -> int {
    (7 - (start + len) % 7) % 7
}

/// The `k`-th day cell of a month whose first day falls on weekday `start`,
/// that has `len` days, after a month of `prev_len` days: first the end of the
/// month before, then the month, then the start of the next month to fill the
/// last row; the cells run along rows of seven from row 1.
pub open spec fn cell_spec(start: int, len: int, prev_len: int, today: int, k: int) -> CalendarCell {
    let col = (k % 7) as i32;
    let row = (1 + k / 7) as i32;
    if k < start {
        CalendarCell {
            day: (prev_len - start + 1 + k) as u32,
            col,
            row,
            other_month: true,
            today: false,
            weekend: false,
        }
    } else if k < start + len {
        CalendarCell {
            day: (k - start + 1) as u32,
            col,
            row,
            other_month: false,
            today: k - start + 1 == today,
            weekend: k % 7 >= 5,
        }
    } else {
        CalendarCell {
            day: (k - start - len + 1) as u32,
            col,
            row,
            other_month: true,
            today: false,
            weekend: false,
        }
    }
}

/// The month before month `m` of year `y`, as (year, month).
pub open spec fn prev_month(y: int, m: int) -> (int, int) {
    if m == 1 {
        (y - 1, 12)
    } else {
        (y, m - 1)
    }
}

/// The day cells of the grid of month `m` of year `y`, today being day `today`.
pub open spec fn month_cells(y: int, m: int, today: int) -> Seq<CalendarCell> {
    let start = weekday_from_monday(y, m, 1);
    let len = days_in_month(y, m);
    let p = prev_month(y, m);
    let prev_len = days_in_month(p.0, p.1);
    Seq::new(
        (start + len + trailing(start, len)) as nat,
        |k: int| cell_spec(start, len, prev_len, today, k),
    )
}

proof fn lemma_mod_step(k: int, col: int, row: int)
    requires
        k >= 0,
        0 <= col < 7,
        col == k % 7,
        row == 1 + k / 7,
    ensures
        col + 1 < 7 ==> (col + 1 == (k + 1) % 7 && row == 1 + (k + 1) / 7),
        col + 1 == 7 ==> (0 == (k + 1) % 7 && row + 1 == 1 + (k + 1) / 7),
{
}

/// The day cells of the grid of `month` of `year`, today being day `today`.
pub fn month_grid(year: i32, month: u32, today: u32) -> (cells: Vec<CalendarCell>)
    requires
        MIN_YEAR <= year <= MAX_YEAR,
        1 <= month <= 12,
        year == MIN_YEAR ==> month > 1,
        year == MAX_YEAR ==> month < 12,
    ensures
        cells@ == month_cells(year as int, month as int, today as int),
{
    let start = first_weekday(year, month);
    let total_days = month_length(year, month);
    let prev_month_days = if month == 1 {
        month_length(year - 1, 12)
    } else {
        month_length(year, month - 1)
    };
    let ghost s = start as int;
    let ghost n = total_days as int;
    let ghost pn = prev_month_days as int;
    assert(0 <= s < 7);
    assert(28 <= n <= 31);
    assert(28 <= pn <= 31);
    let mut cells: Vec<CalendarCell> = Vec::new();
    let st = start as i32;
    let mut i: i32 = 0;
    while i < st
        invariant
            0 <= i <= st == s < 7,
            28 <= pn <= 31,
            pn == prev_month_days,
            cells@.len() == i,
            forall|k: int| 0 <= k < i ==> #[trigger] cells@[k] == cell_spec(s, n, pn, today as int, k),
        decreases st - i,
    {
        let day = prev_month_days - (st - 1 - i) as u32;
        cells.push(
            CalendarCell { day, col: i, row: 1, other_month: true, today: false, weekend: false },
        );
        i = i + 1;
    }
    let mut col: i32 = st;
    let mut row: i32 = 1;
    let mut day: u32 = 1;
    while day <= total_days
        invariant
            0 <= s < 7,
            28 <= n <= 31,
            n == total_days,
            1 <= day <= total_days + 1,
            cells@.len() == s + day - 1,
            0 <= col < 7,
            col == (s + day - 1) % 7,
            row == 1 + (s + day - 1) / 7,
            forall|k: int| 0 <= k < s + day - 1 ==> #[trigger] cells@[k] == cell_spec(s, n, pn, today as int, k),
        decreases total_days + 1 - day,
    {
        let weekend = col >= 5;
        cells.push(
            CalendarCell { day, col, row, other_month: false, today: day == today, weekend },
        );
        proof {
            lemma_mod_step(s + day - 1, col as int, row as int);
        }
        col = col + 1;
        if col >= 7 {
            col = 0;
            row = row + 1;
        }
        day = day + 1;
    }
    let ghost end = s + n;
    if col > 0 {
        let mut next_day: u32 = 1;
        while col < 7
            invariant
                0 <= s < 7,
                28 <= n <= 31,
                end == s + n,
                end % 7 >= 1,
                1 <= col <= 7,
                1 <= next_day <= 7,
                cells@.len() == end + next_day - 1,
                col == (end + next_day - 1) % 7 || (col == 7 && (end + next_day - 1) % 7 == 0),
                col < 7 ==> row == 1 + (end + next_day - 1) / 7,
                col - next_day + 1 == end % 7,
                forall|k: int| 0 <= k < end + next_day - 1 ==> #[trigger] cells@[k] == cell_spec(s, n, pn, today as int, k),
            decreases 7 - col,
        {
            cells.push(
                CalendarCell { day: next_day, col, row, other_month: true, today: false, weekend: false },
            );
            proof {
                lemma_mod_step(end + next_day - 1, col as int, row as int);
            }
            col = col + 1;
            next_day = next_day + 1;
        }
        proof {
            assert(trailing(s, n) == next_day - 1);
        }
    } else {
        proof {
            assert(trailing(s, n) == 0);
        }
    }
    proof {
        assert(cells@ =~= month_cells(year as int, month as int, today as int));
    }
    cells
}

/// Every day of the month appears in the grid once, as a day of the month
/// shown, in the column of its weekday; the cells fill whole rows; and only
/// the cell of today's day is marked as today.
pub proof fn lemma_month_grid_laws(y: int, m: int, today: int, d: int)
    requires
        1 <= m <= 12,
        1 <= d <= days_in_month(y, m),
    ensures
        ({
            let cells = month_cells(y, m, today);
            let k = weekday_from_monday(y, m, 1) + d - 1;
            &&& 0 <= k < cells.len()
            &&& cells[k].day == d
            &&& !cells[k].other_month
            &&& cells[k].col == weekday_from_monday(y, m, d)
            &&& forall|j: int|
                0 <= j < cells.len() && !(#[trigger] cells[j]).other_month && cells[j].day == d
                    ==> j == k
        }),
        month_cells(y, m, today).len() % 7 == 0,
        forall|j: int|
            0 <= j < month_cells(y, m, today).len() && (#[trigger] month_cells(y, m, today)[j]).today
                ==> month_cells(y, m, today)[j].day == today && !month_cells(
                y,
                m,
                today,
            )[j].other_month,
{
    let base = days_before_year(y) + days_before_month(y, m);
    let start = weekday_from_monday(y, m, 1);
    assert(start == base % 7);
    vstd::arithmetic::div_mod::lemma_add_mod_noop(base, d - 1, 7);
    vstd::arithmetic::div_mod::lemma_add_mod_noop(start, d - 1, 7);
    vstd::arithmetic::div_mod::lemma_mod_twice(base, 7);
    assert(weekday_from_monday(y, m, d) == (base + d - 1) % 7);
    let len = days_in_month(y, m);
    let t = trailing(start, len);
    assert((start + len + t) % 7 == 0) by {
        vstd::arithmetic::div_mod::lemma_add_mod_noop(start + len, t, 7);
        vstd::arithmetic::div_mod::lemma_add_mod_noop(start + len, 7 - (start + len) % 7, 7);
    }
}

/// The grid ends with the row that holds the month's last day: it has no
/// row made only of days of other months. Its length is the smallest
/// multiple of seven that holds the days before the first and the month's
/// days, so fewer than seven days of the next month follow, and none when
/// the month ends on a Sunday.
pub proof fn lemma_month_grid_rows(y: int, m: int, today: int)
    requires
        1 <= m <= 12,
    ensures
        ({
            let n = month_cells(y, m, today).len();
            let used = weekday_from_monday(y, m, 1) + days_in_month(y, m);
            &&& n % 7 == 0
            &&& used <= n < used + 7
            &&& used % 7 == 0 ==> n == used
        }),
{
    let start = weekday_from_monday(y, m, 1);
    let len = days_in_month(y, m);
    let used = start + len;
    let t = trailing(start, len);
    assert(0 <= start < 7);
    assert(0 <= used % 7 < 7);
    assert(0 <= t < 7);
    if used % 7 == 0 {
        assert(t == 0);
    }
    assert((used + t) % 7 == 0) by {
        vstd::arithmetic::div_mod::lemma_add_mod_noop(used, t, 7);
        vstd::arithmetic::div_mod::lemma_add_mod_noop(used, 7 - used % 7, 7);
    }
}

/// A day of the calendar.
#[derive(Clone, Copy, PartialEq, Eq, Structural, Debug)]
pub struct Day {
    pub year: i32,
    pub month: u32,
    pub day: u32,
}

/// Whether the calendar drawn on day `shown` must be drawn again now that
/// it is `today`, and the day it shows afterwards: it is redrawn exactly when
/// the day changed.
pub fn calendar_refresh(shown: Day, today: Day) -> (r: (bool, Day))
    ensures
        r.0 == (shown != today),
        r.1 == today,
{
    (shown != today, today)
}

/// The weekday names heading the grid's columns.
pub fn day_headers() -> (h: Vec<&'static str>)
    ensures
        h@.len() == 7,
        h@[0]@ == "Mo"@,
        h@[1]@ == "Tu"@,
        h@[2]@ == "We"@,
        h@[3]@ == "Th"@,
        h@[4]@ == "Fr"@,
        h@[5]@ == "Sa"@,
        h@[6]@ == "Su"@,
{
    let mut h: Vec<&'static str> = Vec::new();
    h.push("Mo");
    h.push("Tu");
    h.push("We");
    h.push("Th");
    h.push("Fr");
    h.push("Sa");
    h.push("Su");
    h
}

} // verus!
