//! Business-day calendars of the `bdays` crate.
use vstd::prelude::*;

use crate::date::{
    Date, MIN_DAY_NUMBER, MAX_DAY_NUMBER, weekday_of, ymd_of, day_number_of, valid_ymd,
    lemma_day_number_has_ymd, lemma_day_number_increasing,
};

use bdays::HolidayCalendar;
use chrono::Datelike;

verus! {

/// Day number of 1582-01-01: `bdays` finds Easter, which the Brazilian holidays need, from
/// this year on.
pub const BRAZIL_MIN_DAY_NUMBER: i32 = 577449;

/// The holiday calendars of `bdays` that a business-day count can use.
#[derive(Clone, Copy, Debug, PartialEq, Eq, Hash, Structural)]
pub enum Calendar {
    /// `bdays::calendars::WeekendsOnly`: only weekends are non-business days.
    WeekendsOnly,
    /// `bdays::calendars::brazil::BRSettlement`: Brazilian banking holidays.
    BRSettlement,
    /// `bdays::calendars::brazil::BrazilExchange`: B3 exchange holidays.
    BrazilExchange,
    /// `bdays::calendars::us::USSettlement`: United States federal holidays.
    USSettlement,
}

/// The days on which a Brazilian calendar needs the date of Easter to tell a holiday, in a
/// year before 1582 where `bdays` finds none: weekdays from January to July that are not
/// one of the fixed holidays it checks first.
pub open spec fn brazil_needs_easter(cal: Calendar, day: int) -> bool {
    let t = ymd_of(day);
    &&& cal is BRSettlement || cal is BrazilExchange
    &&& weekday_of(day) < 5
    &&& t.0 < 1582
    &&& t.1 < 8
    &&& !(t.1 == 1 && t.2 == 1)
    &&& !(t.1 == 4 && t.2 == 21)
    &&& !(t.1 == 5 && t.2 == 1)
    &&& cal is BrazilExchange ==> !(t.1 == 1 && t.2 == 25) && !(t.1 == 7 && t.2 == 9)
}

/// The days on which `is_bday` of the calendar answers (it panics on the others).
pub open spec fn calendar_safe(cal: Calendar, day: int) -> bool {
    !brazil_needs_easter(cal, day)
}

/// All days from `lo` to `hi` are dates on which the calendar answers.
pub open spec fn calendar_span_safe(cal: Calendar, lo: int, hi: int) -> bool {
    &&& MIN_DAY_NUMBER <= lo
    &&& hi <= MAX_DAY_NUMBER
    &&& forall|k: int| lo <= k <= hi ==> calendar_safe(cal, k)
}

pub open spec fn abs(x: int) -> int {
    if x < 0 { -x } else { x }
}

pub open spec fn min(x: int, y: int) -> int {
    if x < y { x } else { y }
}

pub open spec fn max(x: int, y: int) -> int {
    if x < y { y } else { x }
}

/// From `hi` on, the calendar finds a business day `j` days later, and it answers on every
/// day from `lo` to that business day.
pub open spec fn reaches_bday(cal: Calendar, lo: int, hi: int, j: int) -> bool {
    &&& j >= 0
    &&& calendar_span_safe(cal, lo, hi + j)
    &&& calendar_is_bday(cal, hi + j)
}

/// The dates between which `bdays` of the calendar counts without a panic: it looks at every
/// day from the earlier date to the first business day from the later one on. The count of
/// `WeekendsOnly` is arithmetic on the two dates and looks at no other day.
pub open spec fn bdays_safe(cal: Calendar, start: int, end: int) -> bool {
    cal is WeekendsOnly || exists|j: int| reaches_bday(cal, min(start, end), max(start, end), j)
}

/// Advancing `count` business days from `day` looks only at days on which the calendar
/// answers, within the range of dates. It moves forward to the first business day from
/// `day` on, then one business day at a time in the direction of `count`; in these
/// calendars every seven days hold a business day.
pub open spec fn advance_safe(cal: Calendar, day: int, count: int) -> bool {
    if count >= 0 {
        calendar_span_safe(cal, day, day + 7 * (count + 1))
    } else {
        calendar_span_safe(cal, day + 7 * count, day + 6)
    }
}

/// What `HolidayCalendar::is_bday` of `bdays::calendars::brazil::BRSettlement` answers for the date with this day
/// number.
pub uninterp spec fn br_settlement_is_bday_of(day: int) -> bool;

/// What `HolidayCalendar::is_bday` of `bdays::calendars::brazil::BrazilExchange` answers for the date with this day
/// number.
pub uninterp spec fn brazil_exchange_is_bday_of(day: int) -> bool;

/// What `HolidayCalendar::is_bday` of `bdays::calendars::us::USSettlement` answers for the date with this day
/// number.
pub uninterp spec fn us_settlement_is_bday_of(day: int) -> bool;

/// Whether the calendar takes the date with this day number for a business day: for
/// `WeekendsOnly`, any weekday.
pub open spec fn calendar_is_bday(cal: Calendar, day: int) -> bool {
    match cal {
        Calendar::WeekendsOnly => weekday_of(day) < 5,
        Calendar::BRSettlement => br_settlement_is_bday_of(day),
        Calendar::BrazilExchange => brazil_exchange_is_bday_of(day),
        Calendar::USSettlement => us_settlement_is_bday_of(day),
    }
}

/// Number of business days of the calendar from `lo` (included) to `hi` (excluded).
pub open spec fn bday_count(cal: Calendar, lo: int, hi: int) -> int
    decreases hi - lo,
{
    if hi <= lo {
        0
    } else {
        bday_count(cal, lo, hi - 1) + if calendar_is_bday(cal, hi - 1) { 1int } else { 0 }
    }
}

/// Business days from `start` to `end`: those from `start` up to `end`, or minus those
/// from `end` up to `start` when `end` comes first.
pub open spec fn signed_bdays(cal: Calendar, start: int, end: int) -> int {
    if start <= end {
        bday_count(cal, start, end)
    } else {
        -bday_count(cal, end, start)
    }
}

/// The business day reached by advancing `count` business days from `day`: the business
/// day `r` with `signed_bdays(cal, day, r) == count` (there is only one).
pub open spec fn calendar_advance_bdays(cal: Calendar, day: int, count: int) -> int {
    choose|r: int| calendar_is_bday(cal, r) && signed_bdays(cal, day, r) == count
}

proof fn lemma_bday_count_nonneg(cal: Calendar, lo: int, hi: int)
    ensures
        bday_count(cal, lo, hi) >= 0,
    decreases hi - lo,
{
    if hi > lo {
        lemma_bday_count_nonneg(cal, lo, hi - 1);
    }
}

/// Counting business days over two adjacent spans counts them over the whole span.
pub proof fn lemma_bday_count_split(cal: Calendar, lo: int, mid: int, hi: int)
    requires
        lo <= mid <= hi,
    ensures
        bday_count(cal, lo, hi) == bday_count(cal, lo, mid) + bday_count(cal, mid, hi),
    decreases hi - mid,
{
    if hi > mid {
        lemma_bday_count_split(cal, lo, mid, hi - 1);
    }
}

/// Business-day counts add up: from `a` to `b` and from `b` to `c` make from `a` to `c`.
pub proof fn lemma_signed_bdays_add_up(cal: Calendar, a: int, b: int, c: int)
    ensures
        signed_bdays(cal, a, b) + signed_bdays(cal, b, c) == signed_bdays(cal, a, c),
{
    if a <= b && b <= c {
        lemma_bday_count_split(cal, a, b, c);
    } else if a <= c && c <= b {
        lemma_bday_count_split(cal, a, c, b);
    } else if b <= a && a <= c {
        lemma_bday_count_split(cal, b, a, c);
    } else if b <= c && c <= a {
        lemma_bday_count_split(cal, b, c, a);
    } else if c <= a && a <= b {
        lemma_bday_count_split(cal, c, a, b);
    } else {
        lemma_bday_count_split(cal, c, b, a);
    }
}

/// Swapping the dates negates the business-day count.
pub proof fn lemma_signed_bdays_antisymmetric(cal: Calendar, a: int, b: int)
    ensures
        signed_bdays(cal, a, b) == -signed_bdays(cal, b, a),
{
}

/// Only one business day lies a given number of business days from a day.
pub proof fn lemma_advanced_bday_unique(cal: Calendar, day: int, r1: int, r2: int)
    requires
        calendar_is_bday(cal, r1),
        calendar_is_bday(cal, r2),
        signed_bdays(cal, day, r1) == signed_bdays(cal, day, r2),
    ensures
        r1 == r2,
{
    if r1 != r2 {
        let (a, b) = if r1 < r2 { (r1, r2) } else { (r2, r1) };
        lemma_signed_bdays_add_up(cal, day, a, b);
        lemma_bday_count_split(cal, a, a + 1, b);
        lemma_bday_count_nonneg(cal, a + 1, b);
        assert(bday_count(cal, a, a + 1) == 1) by {
            reveal_with_fuel(bday_count, 2);
        }
    }
}

/// A business day `count` business days from `day` is the one `calendar_advance_bdays`
/// names.
pub proof fn lemma_calendar_advance_bdays(cal: Calendar, day: int, count: int, r: int)
    requires
        calendar_is_bday(cal, r),
        signed_bdays(cal, day, r) == count,
    ensures
        calendar_advance_bdays(cal, day, count) == r,
{
    let c = calendar_advance_bdays(cal, day, count);
    assert(calendar_is_bday(cal, c) && signed_bdays(cal, day, c) == count);
    lemma_advanced_bday_unique(cal, day, c, r);
}

/// From 1582 on, a day needs no Easter before 1582.
proof fn lemma_safe_from_1582(cal: Calendar, day: int)
    requires
        BRAZIL_MIN_DAY_NUMBER <= day <= MAX_DAY_NUMBER,
    ensures
        calendar_safe(cal, day),
{
    lemma_day_number_has_ymd(day);
    let t = ymd_of(day);
    if t.0 < 1582 {
        assert(valid_ymd(1582, 1, 1));
        lemma_day_number_increasing(t.0, t.1, t.2, 1582, 1, 1);
        assert(day_number_of(1582, 1, 1) == BRAZIL_MIN_DAY_NUMBER);
    }
}

impl Calendar {
    /// Whether `is_bday` of the calendar answers on `date`.
    pub fn covers(&self, date: Date) -> (res: bool)
        ensures
            res == calendar_safe(*self, date@),
    {
        let brazilian = match self {
            Calendar::BRSettlement | Calendar::BrazilExchange => true,
            _ => false,
        };
        if !brazilian || date.weekday() >= 5 {
            return true;
        }
        let (y, m, d) = date.to_ymd();
        if y >= 1582 || m >= 8 {
            return true;
        }
        if (m == 1 && d == 1) || (m == 4 && d == 21) || (m == 5 && d == 1) {
            return true;
        }
        if let Calendar::BrazilExchange = self {
            if (m == 1 && d == 25) || (m == 7 && d == 9) {
                return true;
            }
        }
        false
    }

    /// Whether every day from `lo` to `hi` is a date on which the calendar answers.
    fn covers_span(&self, lo: i64, hi: i64) -> (res: bool)
        ensures
            res == calendar_span_safe(*self, lo as int, hi as int),
    {
        if lo < MIN_DAY_NUMBER as i64 || hi > MAX_DAY_NUMBER as i64 {
            return false;
        }
        let brazilian = match self {
            Calendar::BRSettlement | Calendar::BrazilExchange => true,
            _ => false,
        };
        if !brazilian {
            return true;
        }
        let stop: i64 = if hi < BRAZIL_MIN_DAY_NUMBER as i64 { hi } else { BRAZIL_MIN_DAY_NUMBER as i64 - 1 };
        let mut k: i64 = lo;
        while k <= stop
            invariant
                MIN_DAY_NUMBER <= lo <= k,
                stop <= hi <= MAX_DAY_NUMBER,
                stop < BRAZIL_MIN_DAY_NUMBER,
                forall|j: int| lo <= j < k ==> calendar_safe(*self, j),
            decreases stop + 1 - k,
        {
            let date = Date::from_num_days_from_ce(k as i32).unwrap();
            if !self.covers(date) {
                return false;
            }
            k = k + 1;
        }
        assert forall|j: int| lo <= j <= hi implies calendar_safe(*self, j) by {
            if j > stop {
                lemma_safe_from_1582(*self, j);
            }
        }
        true
    }

    /// Whether `bdays` of the calendar counts from `start` to `end`.
    pub fn can_count(&self, start: Date, end: Date) -> (res: bool)
        ensures
            res == bdays_safe(*self, start@, end@),
    {
        if let Calendar::WeekendsOnly = self {
            return true;
        }
        let s = start.num_days_from_ce() as i64;
        let e = end.num_days_from_ce() as i64;
        let (lo, hi) = if s < e { (s, e) } else { (e, s) };
        if !self.covers_span(lo, hi) {
            assert forall|j: int| !reaches_bday(*self, lo as int, hi as int, j) by {
                if j >= 0 && calendar_span_safe(*self, lo as int, hi + j) {
                    assert(calendar_span_safe(*self, lo as int, hi as int));
                }
            }
            return false;
        }
        let mut k: i64 = hi;
        while k <= MAX_DAY_NUMBER as i64
            invariant
                MIN_DAY_NUMBER <= lo <= hi <= k,
                hi <= MAX_DAY_NUMBER,
                lo == min(start@, end@),
                hi == max(start@, end@),
                !(*self is WeekendsOnly),
                calendar_span_safe(*self, lo as int, hi as int),
                forall|i: int| lo <= i < k ==> calendar_safe(*self, i),
                forall|i: int| hi <= i < k ==> !calendar_is_bday(*self, i),
            decreases MAX_DAY_NUMBER + 1 - k,
        {
            let date = Date::from_num_days_from_ce(k as i32).unwrap();
            if !self.covers(date) {
                assert forall|j: int| !reaches_bday(*self, lo as int, hi as int, j) by {
                    if j >= 0 && hi + j >= k && calendar_span_safe(*self, lo as int, hi + j) {
                        assert(calendar_safe(*self, k as int));
                    }
                }
                return false;
            }
            if self.is_bday(date) {
                assert(calendar_span_safe(*self, lo as int, k as int));
                assert(reaches_bday(*self, lo as int, hi as int, k - hi));
                return true;
            }
            k = k + 1;
        }
        assert forall|j: int| !reaches_bday(*self, lo as int, hi as int, j) by {
            if j >= 0 && hi + j >= k {
                assert(hi + j > MAX_DAY_NUMBER);
            }
        }
        false
    }

    /// Whether `advance_bdays` of the calendar advances `count` business days from `date`.
    pub fn can_advance(&self, date: Date, count: i32) -> (res: bool)
        ensures
            res == advance_safe(*self, date@, count as int),
    {
        let d = date.num_days_from_ce() as i64;
        let c = count as i64;
        if c >= 0 {
            self.covers_span(d, d + 7 * (c + 1))
        } else {
            self.covers_span(d + 7 * c, d + 6)
        }
    }

    /// The number of business days from `start` to `end`, when the calendar can count them.
    pub fn checked_bdays(&self, start: Date, end: Date) -> (res: Option<i32>)
        ensures
            res is Some <==> bdays_safe(*self, start@, end@),
            res matches Some(n) ==> n == signed_bdays(*self, start@, end@),
    {
        if self.can_count(start, end) {
            Some(self.bdays(start, end))
        } else {
            None
        }
    }

    /// Whether `date` is a business day of the calendar (a weekday that is not a holiday).
    pub fn is_bday(&self, date: Date) -> (res: bool)
        requires
            calendar_safe(*self, date@),
        ensures
            res == calendar_is_bday(*self, date@),
            weekday_of(date@) >= 5 ==> !res,
    {
        match self {
            Calendar::WeekendsOnly => weekends_only_is_bday(date),
            Calendar::BRSettlement => br_settlement_is_bday(date),
            Calendar::BrazilExchange => brazil_exchange_is_bday(date),
            Calendar::USSettlement => us_settlement_is_bday(date),
        }
    }

    /// Number of business days from `start` (included) to `end` (excluded); minus the
    /// number from `end` to `start` when `end` comes first.
    pub fn bdays(&self, start: Date, end: Date) -> (res: i32)
        requires
            bdays_safe(*self, start@, end@),
        ensures
            res == signed_bdays(*self, start@, end@),
    {
        match self {
            Calendar::WeekendsOnly => weekends_only_bdays(start, end),
            Calendar::BRSettlement => br_settlement_bdays(start, end),
            Calendar::BrazilExchange => brazil_exchange_bdays(start, end),
            Calendar::USSettlement => us_settlement_bdays(start, end),
        }
    }

    /// The business day `count` business days after `date` (before it, for a negative
    /// count); for a count of zero, the first business day from `date` on.
    pub fn advance_bdays(&self, date: Date, count: i32) -> (res: Date)
        requires
            advance_safe(*self, date@, count as int),
        ensures
            calendar_is_bday(*self, res@),
            signed_bdays(*self, date@, res@) == count,
            res@ == calendar_advance_bdays(*self, date@, count as int),
    {
        let n = match self {
            Calendar::WeekendsOnly => weekends_only_advance_bdays(date, count),
            Calendar::BRSettlement => br_settlement_advance_bdays(date, count),
            Calendar::BrazilExchange => brazil_exchange_advance_bdays(date, count),
            Calendar::USSettlement => us_settlement_advance_bdays(date, count),
        };
        let res = Date::from_num_days_from_ce(n).unwrap();
        proof {
            lemma_calendar_advance_bdays(*self, date@, count as int, res@);
        }
        res
    }
}

/// Calls `HolidayCalendar::is_bday` of `bdays::calendars::WeekendsOnly`. Claims that it answers whether the
/// date is a weekday.
#[verifier::external_body]
fn weekends_only_is_bday(date: Date) -> (res: bool)
    requires
        calendar_safe(Calendar::WeekendsOnly, date@),
    ensures
        res == (weekday_of(date@) < 5),
{
    let d = chrono::NaiveDate::from_num_days_from_ce_opt(date.num_days_from_ce()).unwrap();
    bdays::calendars::WeekendsOnly.is_bday(d)
}

/// Calls `HolidayCalendar::bdays` of `bdays::calendars::WeekendsOnly`. Claims that it counts the days from the
/// earlier date (included) to the later one (excluded) that the calendar takes for business
/// days, negated when `end` comes first.
#[verifier::external_body]
fn weekends_only_bdays(start: Date, end: Date) -> (res: i32)
    requires
        bdays_safe(Calendar::WeekendsOnly, start@, end@),
    ensures
        res == signed_bdays(Calendar::WeekendsOnly, start@, end@),
{
    let d0 = chrono::NaiveDate::from_num_days_from_ce_opt(start.num_days_from_ce()).unwrap();
    let d1 = chrono::NaiveDate::from_num_days_from_ce_opt(end.num_days_from_ce()).unwrap();
    bdays::calendars::WeekendsOnly.bdays(d0, d1)
}

/// Calls `HolidayCalendar::advance_bdays` of `bdays::calendars::WeekendsOnly` and returns the day number of
/// its result. Claims that it is a business day of the calendar and that `count` business
/// days lie from `date` to it, as `bdays` counts them.
#[verifier::external_body]
fn weekends_only_advance_bdays(date: Date, count: i32) -> (res: i32)
    requires
        advance_safe(Calendar::WeekendsOnly, date@, count as int),
    ensures
        MIN_DAY_NUMBER <= res <= MAX_DAY_NUMBER,
        calendar_is_bday(Calendar::WeekendsOnly, res as int),
        signed_bdays(Calendar::WeekendsOnly, date@, res as int) == count,
{
    let d = chrono::NaiveDate::from_num_days_from_ce_opt(date.num_days_from_ce()).unwrap();
    bdays::calendars::WeekendsOnly.advance_bdays(d, count).num_days_from_ce()
}

/// Calls `HolidayCalendar::is_bday` of `bdays::calendars::brazil::BRSettlement`. Claims its answer is the one named by
/// `br_settlement_is_bday_of`, and that a Saturday or a Sunday is no business day.
#[verifier::external_body]
fn br_settlement_is_bday(date: Date) -> (res: bool)
    requires
        calendar_safe(Calendar::BRSettlement, date@),
    ensures
        res == br_settlement_is_bday_of(date@),
        weekday_of(date@) >= 5 ==> !res,
{
    let d = chrono::NaiveDate::from_num_days_from_ce_opt(date.num_days_from_ce()).unwrap();
    bdays::calendars::brazil::BRSettlement.is_bday(d)
}

/// Calls `HolidayCalendar::bdays` of `bdays::calendars::brazil::BRSettlement`. Claims that it counts the days from the
/// earlier date (included) to the later one (excluded) that the calendar takes for business
/// days, negated when `end` comes first.
#[verifier::external_body]
fn br_settlement_bdays(start: Date, end: Date) -> (res: i32)
    requires
        bdays_safe(Calendar::BRSettlement, start@, end@),
    ensures
        res == signed_bdays(Calendar::BRSettlement, start@, end@),
{
    let d0 = chrono::NaiveDate::from_num_days_from_ce_opt(start.num_days_from_ce()).unwrap();
    let d1 = chrono::NaiveDate::from_num_days_from_ce_opt(end.num_days_from_ce()).unwrap();
    bdays::calendars::brazil::BRSettlement.bdays(d0, d1)
}

/// Calls `HolidayCalendar::advance_bdays` of `bdays::calendars::brazil::BRSettlement` and returns the day number of
/// its result. Claims that it is a business day of the calendar and that `count` business
/// days lie from `date` to it, as `bdays` counts them.
#[verifier::external_body]
fn br_settlement_advance_bdays(date: Date, count: i32) -> (res: i32)
    requires
        advance_safe(Calendar::BRSettlement, date@, count as int),
    ensures
        MIN_DAY_NUMBER <= res <= MAX_DAY_NUMBER,
        calendar_is_bday(Calendar::BRSettlement, res as int),
        signed_bdays(Calendar::BRSettlement, date@, res as int) == count,
{
    let d = chrono::NaiveDate::from_num_days_from_ce_opt(date.num_days_from_ce()).unwrap();
    bdays::calendars::brazil::BRSettlement.advance_bdays(d, count).num_days_from_ce()
}

/// Calls `HolidayCalendar::is_bday` of `bdays::calendars::brazil::BrazilExchange`. Claims its answer is the one named by
/// `brazil_exchange_is_bday_of`, and that a Saturday or a Sunday is no business day.
#[verifier::external_body]
fn brazil_exchange_is_bday(date: Date) -> (res: bool)
    requires
        calendar_safe(Calendar::BrazilExchange, date@),
    ensures
        res == brazil_exchange_is_bday_of(date@),
        weekday_of(date@) >= 5 ==> !res,
{
    let d = chrono::NaiveDate::from_num_days_from_ce_opt(date.num_days_from_ce()).unwrap();
    bdays::calendars::brazil::BrazilExchange.is_bday(d)
}

/// Calls `HolidayCalendar::bdays` of `bdays::calendars::brazil::BrazilExchange`. Claims that it counts the days from the
/// earlier date (included) to the later one (excluded) that the calendar takes for business
/// days, negated when `end` comes first.
#[verifier::external_body]
fn brazil_exchange_bdays(start: Date, end: Date) -> (res: i32)
    requires
        bdays_safe(Calendar::BrazilExchange, start@, end@),
    ensures
        res == signed_bdays(Calendar::BrazilExchange, start@, end@),
{
    let d0 = chrono::NaiveDate::from_num_days_from_ce_opt(start.num_days_from_ce()).unwrap();
    let d1 = chrono::NaiveDate::from_num_days_from_ce_opt(end.num_days_from_ce()).unwrap();
    bdays::calendars::brazil::BrazilExchange.bdays(d0, d1)
}

/// Calls `HolidayCalendar::advance_bdays` of `bdays::calendars::brazil::BrazilExchange` and returns the day number of
/// its result. Claims that it is a business day of the calendar and that `count` business
/// days lie from `date` to it, as `bdays` counts them.
#[verifier::external_body]
fn brazil_exchange_advance_bdays(date: Date, count: i32) -> (res: i32)
    requires
        advance_safe(Calendar::BrazilExchange, date@, count as int),
    ensures
        MIN_DAY_NUMBER <= res <= MAX_DAY_NUMBER,
        calendar_is_bday(Calendar::BrazilExchange, res as int),
        signed_bdays(Calendar::BrazilExchange, date@, res as int) == count,
{
    let d = chrono::NaiveDate::from_num_days_from_ce_opt(date.num_days_from_ce()).unwrap();
    bdays::calendars::brazil::BrazilExchange.advance_bdays(d, count).num_days_from_ce()
}

/// Calls `HolidayCalendar::is_bday` of `bdays::calendars::us::USSettlement`. Claims its answer is the one named by
/// `us_settlement_is_bday_of`, and that a Saturday or a Sunday is no business day.
#[verifier::external_body]
fn us_settlement_is_bday(date: Date) -> (res: bool)
    requires
        calendar_safe(Calendar::USSettlement, date@),
    ensures
        res == us_settlement_is_bday_of(date@),
        weekday_of(date@) >= 5 ==> !res,
{
    let d = chrono::NaiveDate::from_num_days_from_ce_opt(date.num_days_from_ce()).unwrap();
    bdays::calendars::us::USSettlement.is_bday(d)
}

/// Calls `HolidayCalendar::bdays` of `bdays::calendars::us::USSettlement`. Claims that it counts the days from the
/// earlier date (included) to the later one (excluded) that the calendar takes for business
/// days, negated when `end` comes first.
#[verifier::external_body]
fn us_settlement_bdays(start: Date, end: Date) -> (res: i32)
    requires
        bdays_safe(Calendar::USSettlement, start@, end@),
    ensures
        res == signed_bdays(Calendar::USSettlement, start@, end@),
{
    let d0 = chrono::NaiveDate::from_num_days_from_ce_opt(start.num_days_from_ce()).unwrap();
    let d1 = chrono::NaiveDate::from_num_days_from_ce_opt(end.num_days_from_ce()).unwrap();
    bdays::calendars::us::USSettlement.bdays(d0, d1)
}

/// Calls `HolidayCalendar::advance_bdays` of `bdays::calendars::us::USSettlement` and returns the day number of
/// its result. Claims that it is a business day of the calendar and that `count` business
/// days lie from `date` to it, as `bdays` counts them.
#[verifier::external_body]
fn us_settlement_advance_bdays(date: Date, count: i32) -> (res: i32)
    requires
        advance_safe(Calendar::USSettlement, date@, count as int),
    ensures
        MIN_DAY_NUMBER <= res <= MAX_DAY_NUMBER,
        calendar_is_bday(Calendar::USSettlement, res as int),
        signed_bdays(Calendar::USSettlement, date@, res as int) == count,
{
    let d = chrono::NaiveDate::from_num_days_from_ce_opt(date.num_days_from_ce()).unwrap();
    bdays::calendars::us::USSettlement.advance_bdays(d, count).num_days_from_ce()
}

} // verus!
