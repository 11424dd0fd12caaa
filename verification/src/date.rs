//! Civil dates as plain fields, with the calendar arithmetic the date-range
//! expressions need. Validity (month lengths, leap years) is the library's
//! own logic; adding days or months to a date, and reading the current date,
//! are done by chrono behind trusted wrappers.

use vstd::prelude::*;

use chrono::Datelike;

verus! {

/// The largest year chrono's `NaiveDate` can hold; the library supports the
/// non-negative part of that range.
pub const MAX_YEAR: i32 = 262142;

pub open spec fn is_leap_year(y: int) -> bool {
    (y % 4 == 0 && y % 100 != 0) || y % 400 == 0
}

pub open spec fn days_in_month(y: int, m: int) -> int {
    if m == 2 {
        if is_leap_year(y) {
            29
        } else {
            28
        }
    } else if m == 4 || m == 6 || m == 9 || m == 11 {
        30
    } else {
        31
    }
}

pub open spec fn valid_date(y: int, m: int, d: int) -> bool {
    &&& 0 <= y <= MAX_YEAR
    &&& 1 <= m <= 12
    &&& 1 <= d <= days_in_month(y, m)
}

/// A proleptic Gregorian calendar date.
#[derive(Clone, Copy, Debug, PartialEq, Eq)]
pub struct Date {
    pub year: i32,
    pub month: u8,
    pub day: u8,
}

/// Strict lexicographic order on (year, month, day).
pub open spec fn date_lt(a: Date, b: Date) -> bool {
    ||| a.year < b.year
    ||| (a.year == b.year && a.month < b.month)
    ||| (a.year == b.year && a.month == b.month && a.day < b.day)
}

impl Date {
    pub open spec fn valid(self) -> bool {
        valid_date(self.year as int, self.month as int, self.day as int)
    }

    /// Build a date after checking it exists in the calendar.
    pub fn new(year: i32, month: u32, day: u32) -> (r: Option<Date>)
        ensures
            r is Some <==> valid_date(year as int, month as int, day as int),
            r is Some ==> r->Some_0 == (Date {
                year,
                month: month as u8,
                day: day as u8,
            }) && r->Some_0.valid(),
    {
        if year < 0 || year > MAX_YEAR || month < 1 || month > 12 || day < 1 {
            return None;
        }
        let dim = days_in_month_of(year, month as u8);
        if day > dim as u32 {
            return None;
        }
        Some(Date { year, month: month as u8, day: day as u8 })
    }

    /// Strict comparison in calendar order.
    pub fn lt(&self, other: &Date) -> (r: bool)
        ensures
            r == date_lt(*self, *other),
    {
        self.year < other.year || (self.year == other.year && (self.month < other.month || (
        self.month == other.month && self.day < other.day)))
    }
}

/// The number of days in the given month of the given year.
pub fn days_in_month_of(year: i32, month: u8) -> (r: u8)
    requires
        0 <= year,
        1 <= month <= 12,
    ensures
        r as int == days_in_month(year as int, month as int),
{
    if month == 2 {
        if (year % 4 == 0 && year % 100 != 0) || year % 400 == 0 {
            29
        } else {
            28
        }
    } else if month == 4 || month == 6 || month == 9 || month == 11 {
        30
    } else {
        31
    }
}

/// The calendar successor of a valid date.
pub open spec fn next_day(d: Date) -> Date {
    if d.day < days_in_month(d.year as int, d.month as int) {
        Date { day: (d.day + 1) as u8, ..d }
    } else if d.month < 12 {
        Date { month: (d.month + 1) as u8, day: 1, ..d }
    } else {
        Date { year: (d.year + 1) as i32, month: 1, day: 1 }
    }
}

impl Date {
    /// The next calendar day.
    pub fn succ(&self) -> (r: Date)
        requires
            self.valid(),
            !(self.year == MAX_YEAR && self.month == 12 && self.day == 31),
        ensures
            r == next_day(*self),
            r.valid(),
            date_lt(*self, r),
    {
        let dim = days_in_month_of(self.year, self.month);
        if self.day < dim {
            Date { day: self.day + 1, ..*self }
        } else if self.month < 12 {
            Date { month: self.month + 1, day: 1, ..*self }
        } else {
            Date { year: self.year + 1, month: 1, day: 1 }
        }
    }
}

/// A measure that respects the calendar order of valid dates and grows by at
/// least one from a day to the next.
pub open spec fn date_index(d: Date) -> int {
    d.year * 400 + d.month * 31 + d.day
}

pub proof fn lemma_date_index_orders(a: Date, b: Date)
    requires
        a.valid(),
        b.valid(),
        date_lt(a, b),
    ensures
        date_index(a) < date_index(b),
{
}

/// Every day from `start` (inclusive) to `end` (exclusive), in calendar
/// order; empty unless `start` is before `end`.
pub open spec fn days_between(start: Date, end: Date) -> Seq<Date>
    decreases date_index(end) - date_index(start),
    when start.valid() && end.valid()
{
    if !date_lt(start, end) {
        Seq::empty()
    } else {
        seq![start] + days_between(next_day(start), end)
    }
}

/// Exactly chrono's month arithmetic on a valid date with a non-negative
/// month count: months are counted linearly, the day is clamped to the last
/// day of the target month, and the result exists only within the supported
/// year range.
pub open spec fn add_months_spec(y: int, m: int, d: int, n: int) -> Option<(int, int, int)> {
    let t = 12 * y + (m - 1) + n;
    if t / 12 > MAX_YEAR as int {
        None
    } else {
        let ry = t / 12;
        let rm = t % 12 + 1;
        let rd = if d <= days_in_month(ry, rm) {
            d
        } else {
            days_in_month(ry, rm)
        };
        Some((ry, rm, rd))
    }
}

/// What chrono's day arithmetic returns: the date `n` days later, or nothing
/// when the result falls outside the supported range.
pub uninterp spec fn add_days_spec(y: int, m: int, d: int, n: int) -> Option<(int, int, int)>;

/// Relies on chrono's `NaiveDate::from_ymd_opt` and
/// `NaiveDate::checked_add_months`: month arithmetic counts months linearly,
/// clamps the day to the last day of the target month, and fails exactly when
/// the resulting year leaves the representable range.
#[verifier::external_body]
pub(crate) fn date_add_months(date: Date, n: u32) -> (r: Option<Date>)
    requires
        date.valid(),
    ensures
        (match r {
            Some(rd) => add_months_spec(
                date.year as int,
                date.month as int,
                date.day as int,
                n as int,
            ) == Some((rd.year as int, rd.month as int, rd.day as int)) && rd.valid(),
            None => add_months_spec(
                date.year as int,
                date.month as int,
                date.day as int,
                n as int,
            ) is None,
        }),
{
    let base = match chrono::NaiveDate::from_ymd_opt(date.year, date.month as u32, date.day as u32)
    {
        Some(x) => x,
        None => return None,
    };
    let nd = match base.checked_add_months(chrono::Months::new(n)) {
        Some(x) => x,
        None => return None,
    };
    Some(Date { year: nd.year(), month: nd.month() as u8, day: nd.day() as u8 })
}

/// Relies on chrono's `NaiveDate::from_ymd_opt` and
/// `NaiveDate::checked_add_days`: day arithmetic in the civil calendar; the
/// result depends on the arguments alone, adding zero days changes nothing,
/// and a result, when there is one, is a valid date.
#[verifier::external_body]
pub(crate) fn date_add_days(date: Date, n: u64) -> (r: Option<Date>)
    requires
        date.valid(),
    ensures
        (match r {
            Some(rd) => add_days_spec(date.year as int, date.month as int, date.day as int, n as int)
                == Some((rd.year as int, rd.month as int, rd.day as int)) && rd.valid(),
            None => add_days_spec(
                date.year as int,
                date.month as int,
                date.day as int,
                n as int,
            ) is None,
        }),
        n == 0 ==> r == Some(date),
{
    let base = match chrono::NaiveDate::from_ymd_opt(date.year, date.month as u32, date.day as u32)
    {
        Some(x) => x,
        None => return None,
    };
    let nd = match base.checked_add_days(chrono::Days::new(n)) {
        Some(x) => x,
        None => return None,
    };
    Some(Date { year: nd.year(), month: nd.month() as u8, day: nd.day() as u8 })
}

/// Relies on chrono's `Local::now`: the current civil date of the machine's
/// clock, assumed to lie in the common era; nothing else is assumed of it.
#[verifier::external_body]
pub(crate) fn today() -> (r: Date)
    ensures
        r.valid(),
{
    let now = chrono::Local::now().naive_local().date();
    Date { year: now.year(), month: now.month() as u8, day: now.day() as u8 }
}

} // verus!
