use bdays::HolidayCalendar;
use chrono::{Datelike, NaiveDate};
use curves::calendar::Calendar;
use curves::date::Date;
use curves::daycount::{DayCount, YearFraction};

fn ymd(y: i32, m: u32, d: u32) -> Date {
    Date::from_ymd(y, m, d).unwrap()
}

fn naive(d: Date) -> NaiveDate {
    NaiveDate::from_num_days_from_ce_opt(d.num_days_from_ce()).unwrap()
}

#[test]
fn actual_days() {
    let start = ymd(2015, 8, 7);
    let end = ymd(2015, 8, 18);
    assert_eq!(DayCount::Actual365.days(start, end), 11);
    assert_eq!(DayCount::Actual360.days(start, end), 11);
    assert_eq!(DayCount::Actual360.days(end, start), -11);
    assert_eq!(DayCount::Actual365.days(start, start), 0);
}

#[test]
fn thirty360_days() {
    let dc = DayCount::Thirty360;
    assert_eq!(dc.days(ymd(2015, 1, 15), ymd(2015, 3, 15)), 60);
    assert_eq!(dc.days(ymd(2015, 1, 31), ymd(2015, 3, 31)), 60);
    assert_eq!(dc.days(ymd(2015, 1, 15), ymd(2015, 3, 31)), 76);
    assert_eq!(dc.days(ymd(2015, 3, 31), ymd(2015, 1, 15)), -75);
    assert_eq!(dc.days(ymd(2015, 1, 30), ymd(2016, 2, 28)), 388);
    assert_eq!(dc.days(ymd(2014, 12, 31), ymd(2014, 12, 31)), 0);
}

#[test]
fn days_per_year() {
    assert_eq!(DayCount::Actual360.days_per_year(), 360);
    assert_eq!(DayCount::Actual365.days_per_year(), 365);
    assert_eq!(DayCount::Thirty360.days_per_year(), 360);
    assert_eq!(DayCount::BDays252(Calendar::BRSettlement).days_per_year(), 252);
}

#[test]
fn business_days_match_bdays() {
    let dc = DayCount::BDays252(Calendar::BRSettlement);
    let asof = ymd(2015, 8, 3);
    for n in [0, 1, 7, 11, 13, 14, 21, 27, -5] {
        let m = dc.advance_days(asof, n);
        let expected = bdays::calendars::brazil::BRSettlement.advance_bdays(naive(asof), n);
        assert_eq!(m.num_days_from_ce(), expected.num_days_from_ce());
        assert_eq!(dc.days(asof, m), n);
        assert_eq!(dc.days(m, asof), -n);
    }
    let m13 = dc.advance_days(asof, 13);
    assert_ne!(m13, asof);
}

#[test]
fn business_days_of_each_calendar() {
    // 2015-11-20 (Fri) to 2015-11-30 (Mon): Brazil 2015 has 2015-11-20 as a holiday only
    // at the exchange; the US has Thanksgiving on 2015-11-26.
    let start = ymd(2015, 11, 19);
    let end = ymd(2015, 11, 30);
    let w = Calendar::WeekendsOnly.bdays(start, end);
    let br = Calendar::BRSettlement.bdays(start, end);
    let bx = Calendar::BrazilExchange.bdays(start, end);
    let us = Calendar::USSettlement.bdays(start, end);
    assert_eq!(w, bdays::calendars::WeekendsOnly.bdays(naive(start), naive(end)));
    assert_eq!(br, bdays::calendars::brazil::BRSettlement.bdays(naive(start), naive(end)));
    assert_eq!(bx, bdays::calendars::brazil::BrazilExchange.bdays(naive(start), naive(end)));
    assert_eq!(us, bdays::calendars::us::USSettlement.bdays(naive(start), naive(end)));
    assert_eq!(w, 7);
    assert_eq!(us, 6);
    assert_eq!(bx, 6);
    assert!(!Calendar::USSettlement.is_bday(ymd(2015, 11, 26)));
    assert!(Calendar::BRSettlement.is_bday(ymd(2015, 11, 26)));
    assert!(!Calendar::WeekendsOnly.is_bday(ymd(2015, 11, 21)));
    assert!(Calendar::WeekendsOnly.is_bday(ymd(2015, 11, 20)));
    assert!(!Calendar::BrazilExchange.is_bday(ymd(2015, 11, 20)));
}

#[test]
fn advance_bdays_of_each_calendar() {
    let start = ymd(2015, 12, 23);
    for cal in [Calendar::WeekendsOnly, Calendar::BRSettlement, Calendar::BrazilExchange, Calendar::USSettlement] {
        let r = cal.advance_bdays(start, 3);
        assert!(cal.is_bday(r));
        assert_eq!(cal.bdays(start, r), 3);
        assert!(r.num_days_from_ce() > start.num_days_from_ce());
    }
    let r = Calendar::USSettlement.advance_bdays(start, 3);
    let expected = bdays::calendars::us::USSettlement.advance_bdays(naive(start), 3);
    assert_eq!(naive(r), expected);
    assert_eq!((expected.year(), expected.month(), expected.day()), (2015, 12, 29));
}

#[test]
fn calendar_day_advance() {
    let asof = ymd(2015, 8, 3);
    let m = DayCount::Actual360.advance_days(asof, 30);
    assert_eq!(m.to_ymd(), (2015, 9, 2));
    assert_eq!(DayCount::Actual360.days(asof, m), 30);
    let t = DayCount::Thirty360.advance_days(ymd(2015, 1, 31), 30);
    assert_eq!(t.to_ymd(), (2015, 3, 2));
}

#[test]
fn year_fractions() {
    let asof = ymd(2015, 8, 7);
    let yf = YearFraction::from_dates(DayCount::Actual365, asof, ymd(2015, 8, 18));
    assert_eq!(yf.dtm(), 11);
    assert_eq!(*yf.daycount(), DayCount::Actual365);
    assert_eq!(yf.days_per_year(), 365);

    let a = YearFraction::from_days(DayCount::Actual360, 23);
    let b = YearFraction::from_days(DayCount::Actual365, 19);
    let d = &a - &b;
    assert_eq!(d.dtm(), 4);
    assert_eq!(*d.daycount(), DayCount::Actual360);
    assert_eq!((&b - &a).dtm(), -4);
    assert_eq!((&a - &a).dtm(), 0);
}

#[test]
fn calendar_coverage() {
    let br = Calendar::BRSettlement;
    let bx = Calendar::BrazilExchange;
    // a Friday in March 1500 needs Easter, which bdays does not find before 1582
    assert!(!br.covers(ymd(1500, 3, 2)));
    assert!(!bx.covers(ymd(1500, 3, 2)));
    assert!(br.covers(ymd(1500, 3, 3)));
    assert!(br.covers(ymd(1500, 8, 6)));
    assert!(br.covers(ymd(1500, 1, 1)));
    assert!(!br.covers(ymd(1500, 1, 25)));
    assert!(bx.covers(ymd(1500, 1, 25)));
    assert!(!br.covers(ymd(1500, 7, 9)));
    assert!(bx.covers(ymd(1500, 7, 9)));
    assert!(br.covers(ymd(1581, 12, 31)));
    assert!(!br.covers(ymd(1581, 7, 31)));
    assert!(Calendar::USSettlement.covers(ymd(1500, 3, 2)));
    assert!(Calendar::WeekendsOnly.covers(ymd(262142, 12, 31)));
    assert!(Calendar::USSettlement.covers(ymd(-262143, 1, 1)));

    assert_eq!(br.is_bday(ymd(1500, 8, 6)), bdays::calendars::brazil::BRSettlement.is_bday(naive(ymd(1500, 8, 6))));
    assert!(!bx.is_bday(ymd(1500, 1, 25)));
    assert!(!br.is_bday(ymd(1500, 1, 1)));
    assert!(Calendar::USSettlement.is_bday(ymd(1500, 3, 2)) == bdays::calendars::us::USSettlement.is_bday(naive(ymd(1500, 3, 2))));
}

#[test]
fn calendar_spans() {
    let br = Calendar::BRSettlement;
    assert!(br.can_count(ymd(1581, 8, 1), ymd(1581, 12, 20)));
    assert!(br.can_count(ymd(1581, 12, 20), ymd(1581, 8, 1)));
    assert!(!br.can_count(ymd(1581, 7, 31), ymd(1581, 8, 10)));
    assert!(br.can_count(ymd(2015, 1, 1), ymd(2016, 1, 1)));
    assert_eq!(br.bdays(ymd(1581, 8, 1), ymd(1581, 12, 20)),
        bdays::calendars::brazil::BRSettlement.bdays(naive(ymd(1581, 8, 1)), naive(ymd(1581, 12, 20))));
    let max = ymd(262142, 12, 31);
    assert!(Calendar::WeekendsOnly.can_count(ymd(-262143, 1, 1), max));
    assert_eq!(Calendar::WeekendsOnly.bdays(max, max.advance_days(-7)), -5);
    // 262142-12-31 is a Monday and a US business day: the count needs no later day
    assert!(Calendar::USSettlement.can_count(max.advance_days(-3), max));
    assert_eq!(Calendar::USSettlement.bdays(max.advance_days(-3), max),
        bdays::calendars::us::USSettlement.bdays(naive(max.advance_days(-3)), naive(max)));
    // at the exchange the last day of the year is a holiday: no business day follows it
    assert!(!Calendar::BrazilExchange.can_count(max.advance_days(-3), max));
    assert!(Calendar::BrazilExchange.checked_bdays(max.advance_days(-3), max).is_none());
    assert_eq!(Calendar::USSettlement.checked_bdays(max.advance_days(-3), max), Some(1));
    assert!(br.can_advance(ymd(1581, 11, 1), 10));
    assert!(br.can_advance(ymd(1581, 8, 1), 10));
    assert!(!br.can_advance(ymd(1581, 8, 1), -10));
    assert!(!br.can_advance(ymd(1581, 7, 1), 10));
    assert!(Calendar::WeekendsOnly.can_advance(max.advance_days(-100), 5));
    assert!(!Calendar::WeekendsOnly.can_advance(max.advance_days(-10), 5));
    assert!(Calendar::WeekendsOnly.can_advance(max.advance_days(-10), -5));
    let r = br.advance_bdays(ymd(1581, 8, 1), 10);
    assert_eq!(naive(r), bdays::calendars::brazil::BRSettlement.advance_bdays(naive(ymd(1581, 8, 1)), 10));
    let r = br.advance_bdays(ymd(1581, 11, 1), 10);
    assert_eq!(naive(r), bdays::calendars::brazil::BRSettlement.advance_bdays(naive(ymd(1581, 11, 1)), 10));
}

#[test]
fn weekends_only_business_days_are_weekdays() {
    let monday = ymd(2015, 8, 3);
    for k in 0..14 {
        let d = monday.advance_days(k);
        assert_eq!(Calendar::WeekendsOnly.is_bday(d), d.weekday() < 5);
    }
}

#[test]
fn advance_from_a_holiday_counts_back() {
    // 2015-08-01 is a Saturday
    let sat = ymd(2015, 8, 1);
    let dc = DayCount::BDays252(Calendar::BRSettlement);
    let r = dc.advance_days(sat, 1);
    assert_eq!(r.to_ymd(), (2015, 8, 4));
    assert_eq!(dc.days(sat, r), 1);
    let r0 = dc.advance_days(sat, 0);
    assert_eq!(r0.to_ymd(), (2015, 8, 3));
    assert_eq!(dc.days(sat, r0), 0);
    let back = dc.advance_days(sat, -2);
    assert_eq!(dc.days(sat, back), -2);
}

#[test]
fn actual_days_add_up_and_forward_days() {
    let dc = DayCount::Actual360;
    let asof = ymd(2015, 8, 3);
    let fwd = ymd(2015, 8, 14);
    let mat = ymd(2015, 8, 26);
    assert_eq!(dc.days(asof, fwd) + dc.days(fwd, mat), dc.days(asof, mat));
    let a = YearFraction::from_dates(dc, asof, mat);
    let b = YearFraction::from_dates(dc, asof, fwd);
    assert_eq!((&a - &b).dtm(), dc.days(fwd, mat));
    assert_eq!((&a - &b).dtm(), 12);
}

#[test]
fn checked_day_counts() {
    let bx = DayCount::BDays252(Calendar::BrazilExchange);
    let max = ymd(262142, 12, 31);
    assert!(bx.checked_days(max.advance_days(-3), max).is_none());
    assert!(YearFraction::checked_from_dates(bx, max.advance_days(-3), max).is_none());
    let asof = ymd(2015, 8, 3);
    let end = ymd(2015, 8, 20);
    assert_eq!(bx.checked_days(asof, end), Some(bx.days(asof, end)));
    let yf = YearFraction::checked_from_dates(DayCount::Actual360, asof, end).unwrap();
    assert_eq!(yf.dtm(), 17);
    assert_eq!(DayCount::Thirty360.checked_days(asof, end), Some(17));
}
