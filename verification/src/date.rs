//! Calendar dates.
//!
//! A [`Date`] holds the year, month and day that a `chrono::NaiveDate`
//! denotes; dates order by (year, month, day).
use vstd::prelude::*;

use chrono::{Datelike, Months, NaiveDate};

verus! {

#[derive(Debug, Clone, Copy, PartialEq, Eq, Structural)]
pub struct Date {
    pub year: i32,
    pub month: u32,
    pub day: u32,
}

/// A date and a time of day.
#[derive(Debug, Clone, Copy, PartialEq, Eq, Structural)]
pub struct DateTime {
    pub date: Date,
    pub hour: u32,
    pub minute: u32,
    pub second: u32,
}

/// 00:00:00 on `d`.
pub open spec fn midnight_spec(d: Date) -> DateTime {
    DateTime { date: d, hour: 0, minute: 0, second: 0 }
}

/// 00:00:00 on `d`.
pub fn midnight(d: Date) -> (r: DateTime)
    ensures
        r == midnight_spec(d),
{
    DateTime { date: d, hour: 0, minute: 0, second: 0 }
}

pub open spec fn is_leap_year(y: int) -> bool {
    (y % 4 == 0 && y % 100 != 0) || y % 400 == 0
}

pub open spec fn days_in_month(y: int, m: int) -> int {
    if m == 2 {
        if is_leap_year(y) {
            29
        } else {
            28
        }
    } else if m == 4 || m == 6 || m == 9 || m == 11 {
        30
    } else {
        31
    }
}

impl Date {
    /// A real calendar day.
    pub open spec fn valid(self) -> bool {
        &&& 1 <= self.month <= 12
        &&& 1 <= self.day <= days_in_month(self.year as int, self.month as int)
    }

    /// Strictly earlier.
    pub open spec fn before(self, other: Date) -> bool {
        ||| self.year < other.year
        ||| self.year == other.year && self.month < other.month
        ||| self.year == other.year && self.month == other.month && self.day < other.day
    }

    pub fn is_before(&self, other: &Date) -> (r: bool)
        ensures
            r == self.before(*other),
    {
        self.year < other.year || (self.year == other.year && self.month < other.month) || (
        self.year == other.year && self.month == other.month && self.day < other.day)
    }
}

/// Days in the years before `y` (proleptic Gregorian, year 1 starting at
/// day 1).
pub open spec fn days_before_year(y: int) -> int {
    let p = y - 1;
    365 * p + p / 4 - p / 100 + p / 400
}

/// Days in the months of year `y` before month `m`.
pub open spec fn days_before_month(y: int, m: int) -> int {
    let base: int = if m <= 1 {
        0
    } else if m == 2 {
        31
    } else if m == 3 {
        59
    } else if m == 4 {
        90
    } else if m == 5 {
        120
    } else if m == 6 {
        151
    } else if m == 7 {
        181
    } else if m == 8 {
        212
    } else if m == 9 {
        243
    } else if m == 10 {
        273
    } else if m == 11 {
        304
    } else {
        334
    };
    base + if m > 2 && is_leap_year(y) {
        1int
    } else {
        0int
    }
}

/// The day number of a date: consecutive calendar days have consecutive
/// numbers.
pub open spec fn day_number(d: Date) -> int {
    days_before_year(d.year as int) + days_before_month(d.year as int, d.month as int) + d.day
}

/// First year `chrono::NaiveDate` can hold.
pub open spec fn min_year() -> int {
    -262143
}

/// Last year `chrono::NaiveDate` can hold.
pub open spec fn max_year() -> int {
    262142
}

/// A date `chrono::NaiveDate` can hold: a real day within its year range.
pub open spec fn chrono_date(d: Date) -> bool {
    d.valid() && min_year() <= d.year <= max_year()
}

/// Whether `d` is a day `chrono::NaiveDate` can hold.
pub fn is_chrono_date(d: &Date) -> (r: bool)
    ensures
        r == chrono_date(*d),
{
    if d.year < -262143 || d.year > 262142 || d.month < 1 || d.month > 12 || d.day < 1 {
        return false;
    }
    let leap = (d.year % 4 == 0 && d.year % 100 != 0) || d.year % 400 == 0;
    let last: u32 = if d.month == 2 {
        if leap {
            29
        } else {
            28
        }
    } else if d.month == 4 || d.month == 6 || d.month == 9 || d.month == 11 {
        30
    } else {
        31
    };
    d.day <= last
}

/// The month count `year * 12 + month - 1` of `d`, plus `n` months.
pub open spec fn month_index(d: Date, n: nat) -> int {
    d.year * 12 + (d.month - 1) + n
}

/// `d` moved `n` months on, its day clamped to the last day of the
/// resulting month.
pub open spec fn add_months_spec(d: Date, n: nat) -> Date {
    let t = month_index(d, n);
    let y = t / 12;
    let m = t % 12 + 1;
    let last = days_in_month(y, m);
    Date { year: y as i32, month: m as u32, day: if d.day > last { last as u32 } else { d.day } }
}

/// `NaiveDate::checked_add_months`: `d` moved `n` months on, with the day
/// clamped to the last day of the resulting month; `None` exactly when the
/// resulting year is outside the range a `NaiveDate` holds.
#[verifier::external_body]
pub fn add_months(d: Date, n: u32) -> (r: Option<Date>)
    requires
        chrono_date(d),
    ensures
        r is Some <==> min_year() <= month_index(d, n as nat) / 12 <= max_year(),
        r matches Some(x) ==> x == add_months_spec(d, n as nat),
{
    NaiveDate::from_ymd_opt(d.year, d.month, d.day).unwrap().checked_add_months(Months::new(n)).map(
        |x| Date { year: x.year(), month: x.month(), day: x.day() },
    )
}

/// The calendar day before `d`.
pub open spec fn pred_spec(d: Date) -> Date {
    if d.day > 1 {
        Date { year: d.year, month: d.month, day: (d.day - 1) as u32 }
    } else if d.month > 1 {
        Date { year: d.year, month: (d.month - 1) as u32, day: days_in_month(d.year as int, d.month - 1) as u32 }
    } else {
        Date { year: (d.year - 1) as i32, month: 12, day: 31 }
    }
}

/// `NaiveDate::MIN`, the first date a `NaiveDate` holds.
pub open spec fn is_first_date(d: Date) -> bool {
    d.year == min_year() && d.month == 1 && d.day == 1
}

/// `NaiveDate::pred_opt`: the previous calendar day; `None` for the first
/// representable date.
#[verifier::external_body]
pub fn pred_date(d: Date) -> (r: Option<Date>)
    requires
        chrono_date(d),
    ensures
        r == (if is_first_date(d) {
            None
        } else {
            Some(pred_spec(d))
        }),
{
    NaiveDate::from_ymd_opt(d.year, d.month, d.day).unwrap().pred_opt().map(
        |x| Date { year: x.year(), month: x.month(), day: x.day() },
    )
}

/// `(b - a).num_days()` on `chrono::NaiveDate`s: the number of days from
/// `a` to `b`, the difference of their day numbers.
#[verifier::external_body]
pub fn days_between(a: Date, b: Date) -> (r: i64)
    requires
        chrono_date(a),
        chrono_date(b),
    ensures
        r == day_number(b) - day_number(a),
{
    let x = NaiveDate::from_ymd_opt(a.year, a.month, a.day).unwrap();
    let y = NaiveDate::from_ymd_opt(b.year, b.month, b.day).unwrap();
    (y - x).num_days()
}

/// ISO 8601 `%Y-%m-%d`: a year in `0..=9999` zero-padded to four
/// digits, another year signed and zero-padded to four digits; then the
/// month and the day zero-padded to two.
pub open spec fn date_text(d: Date) -> Seq<char> {
    let y = if 0 <= d.year <= 9999 {
        crate::manifest::shard_plan::zero_pad(crate::manifest::shard_plan::digits_spec(d.year as nat), 4)
    } else if d.year > 9999 {
        seq!['+'] + crate::manifest::shard_plan::zero_pad(crate::manifest::shard_plan::digits_spec(d.year as nat), 4)
    } else {
        seq!['-'] + crate::manifest::shard_plan::zero_pad(crate::manifest::shard_plan::digits_spec((-d.year) as nat), 4)
    };
    y + seq!['-'] + crate::manifest::shard_plan::zero_pad(crate::manifest::shard_plan::digits_spec(d.month as nat), 2) + seq![
        '-',
    ] + crate::manifest::shard_plan::zero_pad(crate::manifest::shard_plan::digits_spec(d.day as nat), 2)
}

/// `NaiveDate::to_string`: the date as `%Y-%m-%d` (chrono's documented
/// ISO 8601 rendering, with the sign for years outside `0..=9999`).
#[verifier::external_body]
pub fn date_to_string(d: Date) -> (r: String)
    requires
        chrono_date(d),
    ensures
        r@ == date_text(d),
{
    NaiveDate::from_ymd_opt(d.year, d.month, d.day).unwrap().to_string()
}

} // verus!
