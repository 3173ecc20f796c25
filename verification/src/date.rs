//! Calendar dates in the proleptic Gregorian calendar, held as a day number.
use vstd::prelude::*;

use chrono::Datelike;

verus! {

/// Day number of the earliest date a `Date` can hold (January 1st of year -262143).
/// Day numbers count days from the common era: 0001-01-01 is day 1.
pub const MIN_DAY_NUMBER: i32 = -95746129;

/// Day number of the latest date a `Date` can hold (December 31st of year 262142).
pub const MAX_DAY_NUMBER: i32 = 95745399;

/// Earliest year of a `Date`.
pub const MIN_YEAR: i32 = -262143;

/// Latest year of a `Date`.
pub const MAX_YEAR: i32 = 262142;

pub open spec fn is_leap_year(y: int) -> bool {
    y % 4 == 0 && (y % 100 != 0 || y % 400 == 0)
}

pub open spec fn days_in_month(y: int, m: int) -> int {
    if m == 2 {
        if is_leap_year(y) { 29 } else { 28 }
    } else if m == 4 || m == 6 || m == 9 || m == 11 {
        30
    } else {
        31
    }
}

/// Number of days of year `y` that come before the first day of month `m`.
pub open spec fn days_before_month(y: int, m: int) -> int {
    let leap: int = if is_leap_year(y) { 1 } else { 0 };
    if m <= 1 { 0 }
    else if m == 2 { 31 }
    else if m == 3 { 59 + leap }
    else if m == 4 { 90 + leap }
    else if m == 5 { 120 + leap }
    else if m == 6 { 151 + leap }
    else if m == 7 { 181 + leap }
    else if m == 8 { 212 + leap }
    else if m == 9 { 243 + leap }
    else if m == 10 { 273 + leap }
    else if m == 11 { 304 + leap }
    else { 334 + leap }
}

/// A year, month and day that name a date a `Date` can hold.
pub open spec fn valid_ymd(y: int, m: int, d: int) -> bool {
    &&& MIN_YEAR <= y <= MAX_YEAR
    &&& 1 <= m <= 12
    &&& 1 <= d <= days_in_month(y, m)
}

/// Day number of the first day of year `y`, minus one.
pub open spec fn days_before_year(y: int) -> int {
    let p = y - 1;
    365 * p + p / 4 - p / 100 + p / 400
}

/// Day number of a year, month and day: 0001-01-01 is day 1.
pub open spec fn day_number_of(y: int, m: int, d: int) -> int {
    days_before_year(y) + days_before_month(y, m) + d
}

/// The year, month and day of a day number.
pub open spec fn ymd_of(n: int) -> (int, int, int) {
    choose|t: (int, int, int)| valid_ymd(t.0, t.1, t.2) && day_number_of(t.0, t.1, t.2) == n
}

/// Day of the week of a day number: 0 is Monday, 6 is Sunday (0001-01-01 was a Monday).
pub open spec fn weekday_of(n: int) -> int {
    (n - 1) % 7
}

/// A calendar date in the proleptic Gregorian calendar.
#[derive(Clone, Copy, Debug, PartialEq, Eq, Structural)]
pub struct Date {
    day_number: i32,
}

impl View for Date {
    type V = int;

    /// The date's day number.
    closed spec fn view(&self) -> int {
        self.day_number as int
    }
}

impl Date {
    #[verifier::type_invariant]
    spec fn in_range(self) -> bool {
        MIN_DAY_NUMBER <= self.day_number <= MAX_DAY_NUMBER
    }

    /// The date with day number `n`, if it lies in the range of dates.
    pub fn from_num_days_from_ce(n: i32) -> (res: Option<Date>)
        ensures
            res is Some <==> MIN_DAY_NUMBER <= n <= MAX_DAY_NUMBER,
            res matches Some(d) ==> d@ == n,
    {
        if MIN_DAY_NUMBER <= n && n <= MAX_DAY_NUMBER {
            Some(Date { day_number: n })
        } else {
            None
        }
    }

    /// The day number of the date.
    pub fn num_days_from_ce(&self) -> (res: i32)
        ensures
            res == self@,
            MIN_DAY_NUMBER <= res <= MAX_DAY_NUMBER,
    {
        proof {
            use_type_invariant(self);
        }
        self.day_number
    }

    /// The date of a year, month and day, if they name one.
    pub fn from_ymd(y: i32, m: u32, d: u32) -> (res: Option<Date>)
        ensures
            res is Some <==> valid_ymd(y as int, m as int, d as int),
            res matches Some(date) ==> date@ == day_number_of(y as int, m as int, d as int),
    {
        match day_number_from_ymd(y, m, d) {
            Some(n) => {
                proof {
                    lemma_valid_ymd_in_range(y as int, m as int, d as int);
                }
                Some(Date { day_number: n })
            },
            None => None,
        }
    }

    /// The year, month and day of the date.
    pub fn to_ymd(&self) -> (res: (i32, u32, u32))
        ensures
            res == (ymd_of(self@).0 as i32, ymd_of(self@).1 as u32, ymd_of(self@).2 as u32),
            valid_ymd(res.0 as int, res.1 as int, res.2 as int),
            day_number_of(res.0 as int, res.1 as int, res.2 as int) == self@,
    {
        proof {
            use_type_invariant(self);
        }
        let res = ymd_from_day_number(self.day_number);
        proof {
            lemma_ymd_of(res.0 as int, res.1 as int, res.2 as int);
        }
        res
    }

    /// The date `count` days after this one (before it, for a negative count).
    pub fn advance_days(&self, count: i32) -> (res: Date)
        requires
            MIN_DAY_NUMBER <= self@ + count <= MAX_DAY_NUMBER,
        ensures
            res@ == self@ + count,
    {
        Date { day_number: self.day_number + count }
    }

    /// Number of days from `start` to this date.
    pub fn days_since(&self, start: Date) -> (res: i32)
        ensures
            res == self@ - start@,
    {
        proof {
            use_type_invariant(self);
            use_type_invariant(&start);
        }
        self.day_number - start.day_number
    }

    /// Day of the week: 0 is Monday, 6 is Sunday.
    pub fn weekday(&self) -> (res: u32)
        ensures
            res == weekday_of(self@),
    {
        proof {
            use_type_invariant(self);
        }
        let w: i32 = (self.day_number - 1) % 7;
        if w < 0 {
            (w + 7) as u32
        } else {
            w as u32
        }
    }
}

/// Every valid year, month and day has a day number in the range of dates.
pub proof fn lemma_valid_ymd_in_range(y: int, m: int, d: int)
    requires
        valid_ymd(y, m, d),
    ensures
        MIN_DAY_NUMBER <= day_number_of(y, m, d) <= MAX_DAY_NUMBER,
{

}

/// The first day of year `y + 1` follows the last day of year `y`.
proof fn lemma_days_before_next_year(y: int)
    ensures
        days_before_year(y + 1) == days_before_year(y) + 365 + (if is_leap_year(y) { 1int } else { 0 }),
{
    lemma_div_step(y, 4);
    lemma_div_step(y, 100);
    lemma_div_step(y, 400);
}

/// Going from `y - 1` to `y` raises the quotient by `d` exactly when `d` divides `y`.
proof fn lemma_div_step(y: int, d: int)
    requires
        d > 0,
    ensures
        y / d - (y - 1) / d == (if y % d == 0 { 1int } else { 0 }),
{
    let q = y / d;
    let r = y % d;
    vstd::arithmetic::div_mod::lemma_fundamental_div_mod(y, d);
    vstd::arithmetic::div_mod::lemma_mod_bound(y, d);
    if r == 0 {
        assert(y - 1 == d * (q - 1) + (d - 1)) by (nonlinear_arith)
            requires
                y == d * q + r,
                r == 0,
        ;
        vstd::arithmetic::div_mod::lemma_fundamental_div_mod_converse(y - 1, d, q - 1, d - 1);
    } else {
        vstd::arithmetic::div_mod::lemma_fundamental_div_mod_converse(y - 1, d, q, r - 1);
    }
}

/// Every day of year `y1` comes before every day of a later year `y2`.
proof fn lemma_days_before_later_year(y1: int, y2: int)
    requires
        y1 < y2,
    ensures
        days_before_year(y1) + 365 + (if is_leap_year(y1) { 1int } else { 0 }) <= days_before_year(y2),
    decreases y2 - y1,
{
    lemma_days_before_next_year(y1);
    if y1 + 1 < y2 {
        lemma_days_before_later_year(y1 + 1, y2);
    }
}

/// Day numbers grow with the year, then the month, then the day.
pub proof fn lemma_day_number_increasing(y1: int, m1: int, d1: int, y2: int, m2: int, d2: int)
    requires
        valid_ymd(y1, m1, d1),
        valid_ymd(y2, m2, d2),
        y1 < y2 || (y1 == y2 && m1 < m2) || (y1 == y2 && m1 == m2 && d1 < d2),
    ensures
        day_number_of(y1, m1, d1) < day_number_of(y2, m2, d2),
{
    if y1 < y2 {
        lemma_days_before_later_year(y1, y2);
    }
}

/// A valid year, month and day is the one `ymd_of` gives for its day number.
pub proof fn lemma_ymd_of(y: int, m: int, d: int)
    requires
        valid_ymd(y, m, d),
    ensures
        ymd_of(day_number_of(y, m, d)) == (y, m, d),
{
    let n = day_number_of(y, m, d);
    let w = (y, m, d);
    assert(valid_ymd(w.0, w.1, w.2) && day_number_of(w.0, w.1, w.2) == n);
    let t = ymd_of(n);
    if t != (y, m, d) {
        if t.0 < y || (t.0 == y && t.1 < m) || (t.0 == y && t.1 == m && t.2 < d) {
            lemma_day_number_increasing(t.0, t.1, t.2, y, m, d);
        } else {
            lemma_day_number_increasing(y, m, d, t.0, t.1, t.2);
        }
    }
}

/// The day after a valid year, month and day.
pub open spec fn next_ymd(y: int, m: int, d: int) -> (int, int, int) {
    if d < days_in_month(y, m) {
        (y, m, d + 1)
    } else if m < 12 {
        (y, m + 1, 1)
    } else {
        (y + 1, 1, 1)
    }
}

/// The day after a date has the next day number.
proof fn lemma_next_ymd(y: int, m: int, d: int)
    requires
        valid_ymd(y, m, d),
        day_number_of(y, m, d) < MAX_DAY_NUMBER,
    ensures
        valid_ymd(next_ymd(y, m, d).0, next_ymd(y, m, d).1, next_ymd(y, m, d).2),
        day_number_of(next_ymd(y, m, d).0, next_ymd(y, m, d).1, next_ymd(y, m, d).2)
            == day_number_of(y, m, d) + 1,
{
    lemma_days_before_next_year(y);
    if y == MAX_YEAR && m == 12 && d == 31 {
        assert(day_number_of(y, m, d) == MAX_DAY_NUMBER);
    }
}

/// Every day number in the range of dates has a year, month and day: dates and day
/// numbers correspond one to one.
pub proof fn lemma_day_number_has_ymd(n: int)
    requires
        MIN_DAY_NUMBER <= n <= MAX_DAY_NUMBER,
    ensures
        valid_ymd(ymd_of(n).0, ymd_of(n).1, ymd_of(n).2),
        day_number_of(ymd_of(n).0, ymd_of(n).1, ymd_of(n).2) == n,
    decreases n - MIN_DAY_NUMBER,
{
    if n == MIN_DAY_NUMBER {
        let w = (MIN_YEAR as int, 1int, 1int);
        assert(valid_ymd(w.0, w.1, w.2) && day_number_of(w.0, w.1, w.2) == n);
    } else {
        lemma_day_number_has_ymd(n - 1);
        let t = ymd_of(n - 1);
        lemma_next_ymd(t.0, t.1, t.2);
        let w = next_ymd(t.0, t.1, t.2);
        assert(valid_ymd(w.0, w.1, w.2) && day_number_of(w.0, w.1, w.2) == n);
    }
}

/// Calls chrono's `NaiveDate::from_ymd_opt` and, on success, `num_days_from_ce`.
/// Claims that a date comes back exactly when the year, month and day name a day of the
/// proleptic Gregorian calendar within chrono's range, and that its day number is the
/// one that calendar gives it.
#[verifier::external_body]
fn day_number_from_ymd(y: i32, m: u32, d: u32) -> (res: Option<i32>)
    ensures
        res is Some <==> valid_ymd(y as int, m as int, d as int),
        res matches Some(n) ==> n == day_number_of(y as int, m as int, d as int),
{
    match chrono::NaiveDate::from_ymd_opt(y, m, d) {
        Some(date) => Some(date.num_days_from_ce()),
        None => None,
    }
}

/// Calls chrono's `NaiveDate::from_num_days_from_ce_opt` and reads the year, month and day
/// of the date. Claims that these name a valid date whose day number is `n`.
#[verifier::external_body]
fn ymd_from_day_number(n: i32) -> (res: (i32, u32, u32))
    requires
        MIN_DAY_NUMBER <= n <= MAX_DAY_NUMBER,
    ensures
        valid_ymd(res.0 as int, res.1 as int, res.2 as int),
        day_number_of(res.0 as int, res.1 as int, res.2 as int) == n,
{
    let date = chrono::NaiveDate::from_num_days_from_ce_opt(n).unwrap();
    (date.year(), date.month(), date.day())
}

} // verus!
