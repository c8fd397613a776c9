use ktu_timetable::axis::count_minutes;
use ktu_timetable::axis::period_boundaries;
use ktu_timetable::text::clone_text;
use ktu_timetable::text::parse_number;
use ktu_timetable::text::push_two_digits;

#[test]
fn a_number_is_written_in_digits() {
    assert_eq!(parse_number("0"), Some(0));
    assert_eq!(parse_number("9"), Some(9));
    assert_eq!(parse_number("00"), Some(0));
    assert_eq!(parse_number("007"), Some(7));
    assert_eq!(parse_number("1020"), Some(1020));
    assert_eq!(parse_number("4294967295"), Some(4294967295));
    assert_eq!(parse_number("+17"), Some(17));
}

#[test]
fn what_is_not_written_in_digits_is_no_number() {
    assert_eq!(parse_number(""), None);
    assert_eq!(parse_number("+"), None);
    assert_eq!(parse_number("-1"), None);
    assert_eq!(parse_number("++1"), None);
    assert_eq!(parse_number("1+"), None);
    assert_eq!(parse_number(" 1"), None);
    assert_eq!(parse_number("1 "), None);
    assert_eq!(parse_number("12a"), None);
    assert_eq!(parse_number("a12"), None);
    assert_eq!(parse_number("1.5"), None);
    assert_eq!(parse_number("٣"), None);
    assert_eq!(parse_number("4294967296"), None);
    assert_eq!(parse_number("99999999999999999999999999"), None);
}

#[test]
fn numbers_are_read_as_the_standard_library_reads_them() {
    let texts = [
        "", "0", "+0", "-0", "+", "12", "012", "+12", "1 2", "12 ", " 12", "4294967295",
        "4294967296", "42949672950", "0x10", "1e3", "１２", "+-1", "00000000000000000001",
    ];
    for text in texts {
        assert_eq!(parse_number(text), text.parse::<u32>().ok());
    }
}

#[test]
fn a_clock_time_counts_its_minutes() {
    assert_eq!(count_minutes("9:00"), 540);
    assert_eq!(count_minutes("10:30"), 630);
    assert_eq!(count_minutes("17:00"), 1020);
    assert_eq!(count_minutes("0:00"), 0);
    assert_eq!(count_minutes("09:05"), 545);
    assert_eq!(count_minutes("1:90"), 150);
    assert_eq!(count_minutes("25:00"), 1500);
    assert_eq!(count_minutes("+9:+5"), 545);
    assert_eq!(count_minutes("71582788:15"), 4294967295);
}

#[test]
fn a_later_clock_time_counts_more_minutes() {
    let mut last = None;
    for hours in ["0", "1", "09", "10", "23"] {
        for minutes in ["00", "01", "30", "59"] {
            let now = count_minutes(&format!("{}:{}", hours, minutes));
            assert_eq!(
                now,
                60 * hours.parse::<u32>().unwrap() + minutes.parse::<u32>().unwrap()
            );
            if let Some(before) = last {
                assert!(before < now);
            }
            last = Some(now);
        }
    }
}

#[test]
fn the_period_boundaries_of_the_day() {
    assert_eq!(period_boundaries(), vec![540, 630, 660, 750, 810, 900, 930, 1020]);
}

#[test]
fn two_digits_are_written_with_a_leading_zero() {
    let mut text = String::from(">");
    push_two_digits(&mut text, 0);
    push_two_digits(&mut text, 7);
    push_two_digits(&mut text, 10);
    push_two_digits(&mut text, 99);
    push_two_digits(&mut text, 100);
    push_two_digits(&mut text, 2024);
    assert_eq!(text, ">000710990024");
}

#[test]
fn a_copy_of_a_text_that_may_be_absent() {
    assert_eq!(clone_text(&Some("text".to_string())), Some("text".to_string()));
    assert_eq!(clone_text(&None), None);
}
