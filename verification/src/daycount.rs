//! Day count conventions and year fractions.
use vstd::prelude::*;

use crate::calendar::{
    advance_safe, bdays_safe, calendar_advance_bdays, calendar_is_bday, signed_bdays, Calendar,
};
use crate::date::{Date, MIN_DAY_NUMBER, MAX_DAY_NUMBER, ymd_of, valid_ymd};

verus! {

/// A convention to count the days between two dates and the days of a year.
#[derive(Clone, Copy, Debug, PartialEq, Eq, Structural)]
pub enum DayCount {
    /// Calendar days, 360 days a year.
    Actual360,
    /// Calendar days, 365 days a year.
    Actual365,
    /// Months of 30 days, 360 days a year.
    Thirty360,
    /// Business days of a holiday calendar, 252 days a year.
    BDays252(Calendar),
}

/// Days in a year of the day count.
pub open spec fn days_per_year_of(daycount: DayCount) -> int {
    match daycount {
        DayCount::Actual360 | DayCount::Thirty360 => 360,
        DayCount::Actual365 => 365,
        DayCount::BDays252(_) => 252,
    }
}

/// The 30/360 count from one year, month and day to another: a day of the month from the
/// 30th on counts as the 30th, and so does the end's day when the start's one does.
pub open spec fn thirty360(start: (int, int, int), end: (int, int, int)) -> int {
    let d1 = if start.2 >= 30 { 30 } else { start.2 };
    let d2 = if start.2 >= 30 && end.2 >= 30 { 30 } else { end.2 };
    360 * (end.0 - start.0) + 30 * (end.1 - start.1) + (d2 - d1)
}

/// Days from the day number `start` to the day number `end` under the day count.
pub open spec fn days_between(daycount: DayCount, start: int, end: int) -> int {
    match daycount {
        DayCount::Actual360 | DayCount::Actual365 => end - start,
        DayCount::Thirty360 => thirty360(ymd_of(start), ymd_of(end)),
        DayCount::BDays252(cal) => signed_bdays(cal, start, end),
    }
}

/// The dates between which a business-day count can count with its calendar.
pub open spec fn days_allowed(daycount: DayCount, start: int, end: int) -> bool {
    daycount matches DayCount::BDays252(cal) ==> bdays_safe(cal, start, end)
}

/// Day number `count` days (business days, for a business-day count) after `start`.
pub open spec fn advanced_day(daycount: DayCount, start: int, count: int) -> int {
    match daycount {
        DayCount::BDays252(cal) => calendar_advance_bdays(cal, start, count),
        _ => start + count,
    }
}

/// The starts and counts for which advancing stays within the range of dates (and, for a
/// business-day count, of its calendar).
pub open spec fn advance_allowed(daycount: DayCount, start: int, count: int) -> bool {
    match daycount {
        DayCount::BDays252(cal) => advance_safe(cal, start, count),
        _ => MIN_DAY_NUMBER <= start + count <= MAX_DAY_NUMBER,
    }
}

impl DayCount {
    /// Days from `start` to `end` under the day count.
    pub fn days(&self, start: Date, end: Date) -> (res: i32)
        requires
            days_allowed(*self, start@, end@),
        ensures
            res == days_between(*self, start@, end@),
            start@ == end@ ==> res == 0,
            !(*self is Thirty360) ==> res == -days_between(*self, end@, start@),
    {
        match self {
            DayCount::Actual360 | DayCount::Actual365 => end.days_since(start),
            DayCount::Thirty360 => daycount_thirty360(start, end),
            DayCount::BDays252(cal) => cal.bdays(start, end),
        }
    }

    /// Days from `start` to `end` under the day count, when its calendar can count them.
    pub fn checked_days(&self, start: Date, end: Date) -> (res: Option<i32>)
        ensures
            res is Some <==> days_allowed(*self, start@, end@),
            res matches Some(n) ==> n == days_between(*self, start@, end@),
    {
        if let DayCount::BDays252(cal) = self {
            if !cal.can_count(start, end) {
                return None;
            }
        }
        Some(self.days(start, end))
    }

    /// Days in a year of the day count.
    pub fn days_per_year(&self) -> (res: i32)
        ensures
            res == days_per_year_of(*self),
            res > 0,
    {
        match self {
            DayCount::Actual360 | DayCount::Thirty360 => 360,
            DayCount::Actual365 => 365,
            DayCount::BDays252(_) => 252,
        }
    }

    /// The date `count` days after `start`: business days for a business-day count, calendar
    /// days otherwise.
    pub fn advance_days(&self, start: Date, count: i32) -> (res: Date)
        requires
            advance_allowed(*self, start@, count as int),
        ensures
            res@ == advanced_day(*self, start@, count as int),
            *self matches DayCount::BDays252(cal) ==> calendar_is_bday(cal, res@),
            !(*self is Thirty360) ==> days_between(*self, start@, res@) == count,
    {
        match self {
            DayCount::BDays252(cal) => cal.advance_bdays(start, count),
            _ => start.advance_days(count),
        }
    }
}

/// The 30/360 count of days from `start` to `end`.
fn daycount_thirty360(start: Date, end: Date) -> (res: i32)
    ensures
        res == thirty360(ymd_of(start@), ymd_of(end@)),
        start@ == end@ ==> res == 0,
{
    let (y2, m2, d2) = end.to_ymd();
    let (y1, m1, d1) = start.to_ymd();

    let y_diff: i32 = y2 - y1;
    let m_diff: i32 = m2 as i32 - m1 as i32;

    let mut d1: i32 = d1 as i32;
    let mut d2: i32 = d2 as i32;

    if d1 >= 30 {
        d1 = 30;

        if d2 >= 30 {
            d2 = 30;
        }
    }

    let d_diff: i32 = d2 - d1;

    360 * y_diff + 30 * m_diff + d_diff
}

/// A number of days to maturity under a day count: the fraction of a year that is
/// `dtm / days_per_year`.
#[derive(Clone, Copy, Debug, PartialEq, Eq, Structural)]
pub struct YearFraction {
    daycount: DayCount,
    dtm: i32,
}

impl YearFraction {
    /// The day count of the year fraction.
    pub closed spec fn daycount_of(self) -> DayCount {
        self.daycount
    }

    /// The days to maturity of the year fraction.
    pub closed spec fn dtm_of(self) -> int {
        self.dtm as int
    }

    /// The year fraction of `dtm` days under `daycount`.
    pub fn from_days(daycount: DayCount, dtm: i32) -> (res: YearFraction)
        ensures
            res.daycount_of() == daycount,
            res.dtm_of() == dtm,
    {
        YearFraction { daycount, dtm }
    }

    /// The year fraction from `start` to `end` under `daycount`.
    pub fn from_dates(daycount: DayCount, start: Date, end: Date) -> (res: YearFraction)
        requires
            days_allowed(daycount, start@, end@),
        ensures
            res.daycount_of() == daycount,
            res.dtm_of() == days_between(daycount, start@, end@),
    {
        let dtm = daycount.days(start, end);
        Self::from_days(daycount, dtm)
    }

    /// The year fraction from `start` to `end` under `daycount`, when its calendar can count
    /// the days.
    pub fn checked_from_dates(daycount: DayCount, start: Date, end: Date) -> (res: Option<YearFraction>)
        ensures
            res is Some <==> days_allowed(daycount, start@, end@),
            res matches Some(yf) ==> yf.daycount_of() == daycount && yf.dtm_of() == days_between(
                daycount,
                start@,
                end@,
            ),
    {
        match daycount.checked_days(start, end) {
            Some(dtm) => Some(Self::from_days(daycount, dtm)),
            None => None,
        }
    }

    /// Days to maturity.
    pub fn dtm(&self) -> (res: i32)
        ensures
            res == self.dtm_of(),
    {
        self.dtm
    }

    /// The day count.
    pub fn daycount(&self) -> (res: &DayCount)
        ensures
            *res == self.daycount_of(),
    {
        &self.daycount
    }

    /// Days in a year of the day count: the year fraction is `dtm / days_per_year`.
    pub fn days_per_year(&self) -> (res: i32)
        ensures
            res == days_per_year_of(self.daycount_of()),
            res > 0,
    {
        self.daycount.days_per_year()
    }
}

impl<'a, 'b> core::ops::Sub<&'b YearFraction> for &'a YearFraction {
    type Output = YearFraction;

    /// The year fraction of the days from `rhs` to `self`, under the day count of `self`.
    fn sub(self, rhs: &'b YearFraction) -> (res: YearFraction)
        ensures
            res.daycount_of() == self.daycount_of(),
            res.dtm_of() == self.dtm_of() - rhs.dtm_of(),
    {
        YearFraction::from_days(*self.daycount(), self.dtm() - rhs.dtm())
    }
}

impl<'a, 'b> vstd::std_specs::ops::SubSpecImpl<&'b YearFraction> for &'a YearFraction {
    open spec fn obeys_sub_spec() -> bool {
        true
    }

    /// The difference of the days to maturity fits an `i32`.
    open spec fn sub_req(self, rhs: &'b YearFraction) -> bool {
        i32::MIN <= self.dtm_of() - rhs.dtm_of() <= i32::MAX
    }

    open spec fn sub_spec(self, rhs: &'b YearFraction) -> YearFraction {
        year_fraction_of(self.daycount_of(), self.dtm_of() - rhs.dtm_of())
    }
}

/// The year fraction of `dtm` days under `daycount`.
pub closed spec fn year_fraction_of(daycount: DayCount, dtm: int) -> YearFraction {
    YearFraction { daycount, dtm: dtm as i32 }
}

/// Calendar-day counts add up: the days from `a` to `b` and from `b` to `c` make the days
/// from `a` to `c`.
pub proof fn lemma_actual_days_add_up(daycount: DayCount, a: int, b: int, c: int)
    requires
        daycount is Actual360 || daycount is Actual365,
    ensures
        days_between(daycount, a, b) + days_between(daycount, b, c) == days_between(daycount, a, c),
{
}

/// Under a calendar-day count, the year fraction from `asof` to `maturity` minus the one
/// from `asof` to `fwd_date` counts the days from `fwd_date` to `maturity`.
pub proof fn lemma_actual_forward_days(daycount: DayCount, asof: int, fwd_date: int, maturity: int)
    requires
        daycount is Actual360 || daycount is Actual365,
    ensures
        days_between(daycount, asof, maturity) - days_between(daycount, asof, fwd_date)
            == days_between(daycount, fwd_date, maturity),
{
}

/// The 30/360 count between two dates on the same day of the month, before the 30th, is 360
/// days a year and 30 days a month.
pub proof fn lemma_thirty360_same_day_of_month(y1: int, m1: int, y2: int, m2: int, d: int)
    requires
        d < 30,
    ensures
        thirty360((y1, m1, d), (y2, m2, d)) == 360 * (y2 - y1) + 30 * (m2 - m1),
{
}

/// A business-days/252 count has 252 days a year whatever its calendar, the calendar-day
/// counts 360 (Actual/360, 30/360) or 365 (Actual/365): a year fraction of that many days is
/// one year.
pub proof fn lemma_days_per_year(cal: Calendar)
    ensures
        days_per_year_of(DayCount::BDays252(cal)) == 252,
        days_per_year_of(DayCount::Actual360) == 360,
        days_per_year_of(DayCount::Thirty360) == 360,
        days_per_year_of(DayCount::Actual365) == 365,
{
}

} // verus!
