use ktu_timetable::calendar::is_weekend;
use ktu_timetable::calendar::Date;
use ktu_timetable::calendar::IsoWeek;
use ktu_timetable::calendar::TimeOfDay;
use ktu_timetable::calendar::Weekday;
use ktu_timetable::calendar::MAX_YEAR;
use ktu_timetable::calendar::MIN_YEAR;

fn date(year: i32, month: u32, day: u32) -> Date {
    Date::from_ymd_opt(year, month, day).unwrap()
}

fn time(hour: u32, minute: u32, second: u32) -> TimeOfDay {
    TimeOfDay::from_hms_opt(hour, minute, second).unwrap()
}

#[test]
fn a_date_holds_its_year_month_and_day() {
    let d = date(2024, 1, 29);
    assert_eq!(d.year(), 2024);
    assert_eq!(d.month(), 1);
    assert_eq!(d.day(), 29);
}

#[test]
fn a_day_that_does_not_exist_is_no_date() {
    assert!(Date::from_ymd_opt(2023, 2, 29).is_none());
    assert!(Date::from_ymd_opt(2024, 2, 29).is_some());
    assert!(Date::from_ymd_opt(1900, 2, 29).is_none());
    assert!(Date::from_ymd_opt(2000, 2, 29).is_some());
    assert!(Date::from_ymd_opt(2024, 4, 31).is_none());
    assert!(Date::from_ymd_opt(2024, 0, 1).is_none());
    assert!(Date::from_ymd_opt(2024, 13, 1).is_none());
    assert!(Date::from_ymd_opt(2024, 1, 0).is_none());
    assert!(Date::from_ymd_opt(2024, 12, 31).is_some());
}

#[test]
fn the_years_of_a_date_are_those_of_the_calendar_library() {
    assert!(Date::from_ymd_opt(MAX_YEAR, 12, 31).is_some());
    assert!(Date::from_ymd_opt(MAX_YEAR + 1, 1, 1).is_none());
    assert!(Date::from_ymd_opt(MIN_YEAR, 1, 1).is_some());
    assert!(Date::from_ymd_opt(MIN_YEAR - 1, 12, 31).is_none());
    assert!(chrono::NaiveDate::from_ymd_opt(MAX_YEAR, 12, 31).is_some());
    assert!(chrono::NaiveDate::from_ymd_opt(MAX_YEAR + 1, 1, 1).is_none());
    assert!(chrono::NaiveDate::from_ymd_opt(MIN_YEAR, 1, 1).is_some());
    assert!(chrono::NaiveDate::from_ymd_opt(MIN_YEAR - 1, 12, 31).is_none());
}

#[test]
fn every_date_of_some_years_is_a_date_of_the_calendar_library() {
    for year in [-4, 0, 1, 1900, 2000, 2023, 2024, 2100] {
        for month in 0..14u32 {
            for day in 0..33u32 {
                assert_eq!(
                    Date::from_ymd_opt(year, month, day).is_some(),
                    chrono::NaiveDate::from_ymd_opt(year, month, day).is_some()
                );
            }
        }
    }
}

#[test]
fn dates_are_ordered_by_year_month_and_day() {
    assert!(date(2023, 12, 31).is_before(&date(2024, 1, 1)));
    assert!(date(2024, 1, 31).is_before(&date(2024, 2, 1)));
    assert!(date(2024, 2, 1).is_before(&date(2024, 2, 2)));
    assert!(!date(2024, 2, 2).is_before(&date(2024, 2, 2)));
    assert!(!date(2024, 2, 3).is_before(&date(2024, 2, 2)));
    assert!(date(2024, 2, 2).is_same(&date(2024, 2, 2)));
    assert!(!date(2024, 2, 2).is_same(&date(2024, 2, 3)));
}

#[test]
fn the_weekday_of_a_date() {
    assert_eq!(date(2024, 1, 29).weekday(), Weekday::Mon);
    assert_eq!(date(2024, 1, 30).weekday(), Weekday::Tue);
    assert_eq!(date(2024, 1, 31).weekday(), Weekday::Wed);
    assert_eq!(date(2024, 2, 1).weekday(), Weekday::Thu);
    assert_eq!(date(2024, 2, 2).weekday(), Weekday::Fri);
    assert_eq!(date(2024, 2, 3).weekday(), Weekday::Sat);
    assert_eq!(date(2024, 2, 4).weekday(), Weekday::Sun);
    assert_eq!(date(2015, 9, 8).weekday(), Weekday::Tue);
    assert_eq!(date(-308, 3, 14).weekday(), Weekday::Fri);
}

#[test]
fn weekdays_count_from_monday() {
    assert_eq!(Weekday::Mon.num_days_from_monday(), 0);
    assert_eq!(Weekday::Fri.num_days_from_monday(), 4);
    assert_eq!(Weekday::Sun.num_days_from_monday(), 6);
    assert_eq!(Weekday::from_days_from_monday(5), Some(Weekday::Sat));
    assert_eq!(Weekday::from_days_from_monday(7), None);
    for n in 0..7 {
        assert_eq!(Weekday::from_days_from_monday(n).unwrap().num_days_from_monday(), n);
    }
}

#[test]
fn saturday_and_sunday_are_the_weekend() {
    assert!(!Weekday::Fri.is_weekend());
    assert!(Weekday::Sat.is_weekend());
    assert!(Weekday::Sun.is_weekend());
    assert!(!is_weekend(date(2024, 2, 2)));
    assert!(is_weekend(date(2024, 2, 3)));
    assert!(is_weekend(date(2024, 2, 4)));
    assert!(!is_weekend(date(2024, 2, 5)));
}

#[test]
fn the_iso_week_of_a_date() {
    assert_eq!(date(2024, 1, 29).iso_week(), IsoWeek { year: 2024, week: 5 });
    assert_eq!(date(2024, 2, 4).iso_week(), IsoWeek { year: 2024, week: 5 });
    assert_eq!(date(2024, 2, 5).iso_week(), IsoWeek { year: 2024, week: 6 });
    assert_eq!(date(2014, 12, 29).iso_week(), IsoWeek { year: 2015, week: 1 });
    assert_eq!(date(2016, 1, 3).iso_week(), IsoWeek { year: 2015, week: 53 });
    assert_eq!(date(2015, 9, 5).iso_week(), IsoWeek { year: 2015, week: 36 });
}

#[test]
fn iso_weeks_are_ordered_by_year_and_week() {
    let w = IsoWeek { year: 2024, week: 5 };
    assert!(w.is_before(&IsoWeek { year: 2024, week: 6 }));
    assert!(w.is_before(&IsoWeek { year: 2025, week: 1 }));
    assert!(!w.is_before(&w));
    assert!(!w.is_before(&IsoWeek { year: 2024, week: 4 }));
    assert!(!w.is_before(&IsoWeek { year: 2023, week: 52 }));
}

#[test]
fn the_monday_of_an_iso_week() {
    assert_eq!(IsoWeek { year: 2024, week: 5 }.monday(), Some(date(2024, 1, 29)));
    assert_eq!(IsoWeek { year: 2015, week: 1 }.monday(), Some(date(2014, 12, 29)));
    assert_eq!(IsoWeek { year: 2015, week: 53 }.monday(), Some(date(2015, 12, 28)));
    assert_eq!(IsoWeek { year: 2014, week: 53 }.monday(), None);
    assert_eq!(IsoWeek { year: 2024, week: 0 }.monday(), None);
    assert_eq!(IsoWeek { year: 400000, week: 10 }.monday(), None);
    assert_eq!(IsoWeek { year: i32::MAX, week: 1 }.monday(), None);
    assert_eq!(IsoWeek { year: i32::MIN, week: 1 }.monday(), None);
}

#[test]
fn the_monday_of_a_week_is_a_monday_of_that_week() {
    for year in [1999, 2015, 2020, 2024, 2025] {
        for week in 1..54 {
            let asked = IsoWeek { year, week };
            if let Some(monday) = asked.monday() {
                assert_eq!(monday.weekday(), Weekday::Mon);
                assert_eq!(monday.iso_week(), asked);
            }
        }
    }
}

#[test]
fn days_later_and_days_earlier() {
    assert_eq!(date(2022, 2, 20).checked_add_days(9), Some(date(2022, 3, 1)));
    assert_eq!(date(2022, 7, 31).checked_add_days(2), Some(date(2022, 8, 2)));
    assert_eq!(date(2022, 7, 31).checked_add_days(1000000000000), None);
    assert_eq!(date(2022, 2, 20).checked_sub_days(6), Some(date(2022, 2, 14)));
    assert_eq!(date(2022, 2, 20).checked_sub_days(1000000000000), None);
    assert_eq!(date(2024, 1, 29).checked_add_days(0), Some(date(2024, 1, 29)));
    assert_eq!(date(2024, 1, 29).checked_add_days(7), Some(date(2024, 2, 5)));
    assert_eq!(date(2024, 1, 29).checked_sub_days(7), Some(date(2024, 1, 22)));
    assert_eq!(date(MAX_YEAR, 12, 31).checked_add_days(1), None);
    assert_eq!(date(MIN_YEAR, 1, 1).checked_sub_days(1), None);
}

#[test]
fn a_time_holds_its_hour_minute_and_second() {
    let t = time(10, 30, 15);
    assert_eq!(t.hour(), 10);
    assert_eq!(t.minute(), 30);
    assert_eq!(t.second(), 15);
    assert_eq!(t.minute_of_day(), 630);
    assert_eq!(t.second_of_day(), 37815);
    assert_eq!(time(23, 59, 59).minute_of_day(), 1439);
    assert_eq!(time(0, 0, 0).second_of_day(), 0);
}

#[test]
fn a_time_that_does_not_exist_is_no_time() {
    assert!(TimeOfDay::from_hms_opt(24, 0, 0).is_none());
    assert!(TimeOfDay::from_hms_opt(0, 60, 0).is_none());
    assert!(TimeOfDay::from_hms_opt(0, 0, 60).is_none());
    assert!(TimeOfDay::from_hms_opt(23, 59, 59).is_some());
}

#[test]
fn times_are_ordered_by_the_second_of_the_day() {
    assert!(time(9, 0, 0).is_before(&time(9, 0, 1)));
    assert!(time(9, 59, 59).is_before(&time(10, 0, 0)));
    assert!(!time(10, 0, 0).is_before(&time(10, 0, 0)));
    assert!(!time(10, 0, 1).is_before(&time(10, 0, 0)));
    assert!(time(10, 0, 0).is_same(&time(10, 0, 0)));
    assert!(!time(10, 0, 0).is_same(&time(10, 0, 1)));
}

#[test]
fn the_minutes_between_two_times_are_rounded_towards_zero() {
    assert_eq!(time(9, 0, 0).minutes_until(&time(10, 30, 0)), 90);
    assert_eq!(time(9, 0, 0).minutes_until(&time(10, 30, 59)), 90);
    assert_eq!(time(9, 0, 30).minutes_until(&time(10, 30, 0)), 89);
    assert_eq!(time(10, 30, 0).minutes_until(&time(9, 0, 0)), -90);
    assert_eq!(time(10, 30, 59).minutes_until(&time(9, 0, 0)), -90);
    assert_eq!(time(9, 0, 0).minutes_until(&time(9, 0, 0)), 0);
    assert_eq!(time(0, 0, 0).minutes_until(&time(23, 59, 59)), 1439);
    assert_eq!(time(23, 59, 59).minutes_until(&time(0, 0, 0)), -1439);
}

#[test]
fn the_minutes_between_two_times_are_those_of_the_calendar_library() {
    let stamps = [(0, 0, 0), (9, 0, 0), (9, 0, 30), (10, 30, 0), (10, 30, 59), (23, 59, 59)];
    for a in stamps {
        for b in stamps {
            let ours = time(a.0, a.1, a.2).minutes_until(&time(b.0, b.1, b.2));
            let from = chrono::NaiveTime::from_hms_opt(a.0, a.1, a.2).unwrap();
            let to = chrono::NaiveTime::from_hms_opt(b.0, b.1, b.2).unwrap();
            assert_eq!(ours, (to - from).num_minutes());
        }
    }
}
