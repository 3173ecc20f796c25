use curves::date::{Date, MAX_DAY_NUMBER, MIN_DAY_NUMBER};

#[test]
fn from_ymd_gives_chrono_day_number() {
    let d = Date::from_ymd(2015, 8, 3).unwrap();
    assert_eq!(d.num_days_from_ce(), 735813);
    let first = Date::from_ymd(1, 1, 1).unwrap();
    assert_eq!(first.num_days_from_ce(), 1);
}

#[test]
fn from_ymd_refuses_invalid_dates() {
    assert!(Date::from_ymd(2015, 2, 29).is_none());
    assert!(Date::from_ymd(2016, 2, 29).is_some());
    assert!(Date::from_ymd(1900, 2, 29).is_none());
    assert!(Date::from_ymd(2000, 2, 29).is_some());
    assert!(Date::from_ymd(2015, 13, 1).is_none());
    assert!(Date::from_ymd(2015, 0, 1).is_none());
    assert!(Date::from_ymd(2015, 4, 31).is_none());
    assert!(Date::from_ymd(2015, 4, 0).is_none());
    assert!(Date::from_ymd(262143, 1, 1).is_none());
    assert!(Date::from_ymd(-262144, 12, 31).is_none());
}

#[test]
fn range_of_dates() {
    let min = Date::from_ymd(-262143, 1, 1).unwrap();
    let max = Date::from_ymd(262142, 12, 31).unwrap();
    assert_eq!(min.num_days_from_ce(), MIN_DAY_NUMBER);
    assert_eq!(max.num_days_from_ce(), MAX_DAY_NUMBER);
    assert!(Date::from_num_days_from_ce(MIN_DAY_NUMBER - 1).is_none());
    assert!(Date::from_num_days_from_ce(MAX_DAY_NUMBER + 1).is_none());
    assert_eq!(min.to_ymd(), (-262143, 1, 1));
    assert_eq!(max.to_ymd(), (262142, 12, 31));
}

#[test]
fn to_ymd_round_trip() {
    for &(y, m, d) in &[(2015, 8, 3), (2016, 2, 29), (1, 1, 1), (0, 12, 31), (-1, 3, 1), (2024, 12, 31)] {
        let date = Date::from_ymd(y, m, d).unwrap();
        assert_eq!(date.to_ymd(), (y, m, d));
        let again = Date::from_num_days_from_ce(date.num_days_from_ce()).unwrap();
        assert_eq!(again, date);
    }
}

#[test]
fn advance_and_days_since() {
    let d = Date::from_ymd(2015, 8, 3).unwrap();
    let e = d.advance_days(30);
    assert_eq!(e.to_ymd(), (2015, 9, 2));
    assert_eq!(e.days_since(d), 30);
    assert_eq!(d.days_since(e), -30);
    assert_eq!(d.advance_days(-3).to_ymd(), (2015, 7, 31));
}

#[test]
fn weekday_of_dates() {
    // 2015-08-03 was a Monday
    let d = Date::from_ymd(2015, 8, 3).unwrap();
    assert_eq!(d.weekday(), 0);
    assert_eq!(d.advance_days(5).weekday(), 5);
    assert_eq!(d.advance_days(6).weekday(), 6);
    assert_eq!(d.advance_days(-1).weekday(), 6);
    assert_eq!(Date::from_ymd(1, 1, 1).unwrap().weekday(), 0);
}
