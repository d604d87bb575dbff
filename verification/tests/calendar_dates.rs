use zonetime::calendar::leap_year;
use zonetime::civil::{CalendarDate, ClockTime, NaiveTimestamp, ShownTimestamp};

/// The last day of the month that is a date.
fn month_length(year: u16, month: u8) -> u8 {
    let mut day: u8 = 31;
    while CalendarDate::new(year, month, day).is_none() {
        day -= 1;
    }
    day
}

fn stamp(year: u16, month: u8, day: u8, hour: u8, minute: u8, second: u8) -> NaiveTimestamp {
    NaiveTimestamp::from_parts(year, month, day, hour, minute, second).unwrap()
}

#[test]
fn leap_years_follow_the_gregorian_rule() {
    assert!(leap_year(2000));
    assert!(leap_year(2024));
    assert!(leap_year(0));
    assert!(!leap_year(1900));
    assert!(!leap_year(2021));
    assert!(!leap_year(2100));
}

#[test]
fn the_months_have_their_lengths() {
    let lengths: Vec<u8> = (1u8..=12).map(|m| month_length(2021, m)).collect();
    assert_eq!(lengths, vec![31, 28, 31, 30, 31, 30, 31, 31, 30, 31, 30, 31]);
    assert_eq!(month_length(2024, 2), 29);
    assert_eq!(month_length(1900, 2), 28);
    assert_eq!(month_length(2000, 2), 29);
}

#[test]
fn a_date_keeps_its_fields() {
    let date = CalendarDate::new(2021, 10, 31).unwrap();
    assert_eq!(date.year(), 2021);
    assert_eq!(date.month(), 10);
    assert_eq!(date.day(), 31);
}

#[test]
fn days_that_do_not_exist_are_no_dates() {
    assert!(CalendarDate::new(2021, 2, 29).is_none());
    assert!(CalendarDate::new(2021, 2, 30).is_none());
    assert!(CalendarDate::new(2024, 2, 30).is_none());
    assert!(CalendarDate::new(1900, 2, 29).is_none());
    assert!(CalendarDate::new(2021, 4, 31).is_none());
    assert!(CalendarDate::new(2021, 13, 1).is_none());
    assert!(CalendarDate::new(2021, 0, 1).is_none());
    assert!(CalendarDate::new(2021, 1, 0).is_none());
    assert!(CalendarDate::new(2021, 1, 32).is_none());
    assert!(CalendarDate::new(10000, 1, 1).is_none());
}

#[test]
fn days_at_the_edges_of_the_calendar_are_dates() {
    assert!(CalendarDate::new(0, 1, 1).is_some());
    assert!(CalendarDate::new(9999, 12, 31).is_some());
    assert!(CalendarDate::new(2024, 2, 29).is_some());
    assert!(CalendarDate::new(2000, 2, 29).is_some());
}

#[test]
fn a_time_keeps_its_fields() {
    let time = ClockTime::new(23, 59, 58).unwrap();
    assert_eq!(time.hour(), 23);
    assert_eq!(time.minute(), 59);
    assert_eq!(time.second(), 58);
}

#[test]
fn times_that_the_clock_never_shows_are_no_times() {
    assert!(ClockTime::new(24, 0, 0).is_none());
    assert!(ClockTime::new(25, 0, 0).is_none());
    assert!(ClockTime::new(0, 60, 0).is_none());
    assert!(ClockTime::new(23, 59, 60).is_none());
    assert!(ClockTime::new(0, 0, 0).is_some());
    assert!(ClockTime::new(23, 59, 59).is_some());
}

#[test]
fn a_timestamp_is_its_date_and_its_time() {
    let date = CalendarDate::new(2021, 10, 31).unwrap();
    let time = ClockTime::new(1, 30, 0).unwrap();
    let both = NaiveTimestamp::new(date, time);
    assert_eq!(both.date(), date);
    assert_eq!(both.time(), time);
    assert_eq!(both, stamp(2021, 10, 31, 1, 30, 0));
    assert!(NaiveTimestamp::from_parts(2021, 2, 29, 0, 0, 0).is_none());
    assert!(NaiveTimestamp::from_parts(2021, 2, 28, 24, 0, 0).is_none());
}

#[test]
fn seconds_counts_of_known_timestamps() {
    assert_eq!(stamp(1970, 1, 1, 0, 0, 0).seconds(), 0);
    assert_eq!(stamp(1970, 1, 1, 0, 0, 1).seconds(), 1);
    assert_eq!(stamp(1969, 12, 31, 23, 59, 59).seconds(), -1);
    assert_eq!(stamp(2021, 10, 31, 1, 30, 0).seconds(), 1_635_643_800);
    assert_eq!(stamp(2000, 3, 1, 0, 0, 0).seconds(), 951_868_800);
    assert_eq!(stamp(0, 1, 1, 0, 0, 0).seconds(), -62_167_219_200);
    assert_eq!(stamp(9999, 12, 31, 23, 59, 59).seconds(), 253_402_300_799);
}

#[test]
fn timestamps_at_known_seconds_counts() {
    assert_eq!(NaiveTimestamp::at_seconds(0), Some(stamp(1970, 1, 1, 0, 0, 0)));
    assert_eq!(NaiveTimestamp::at_seconds(-1), Some(stamp(1969, 12, 31, 23, 59, 59)));
    assert_eq!(NaiveTimestamp::at_seconds(1_635_643_800), Some(stamp(2021, 10, 31, 1, 30, 0)));
    assert_eq!(NaiveTimestamp::at_seconds(-62_167_219_200), Some(stamp(0, 1, 1, 0, 0, 0)));
    assert_eq!(
        NaiveTimestamp::at_seconds(253_402_300_799),
        Some(stamp(9999, 12, 31, 23, 59, 59))
    );
    assert_eq!(NaiveTimestamp::at_seconds(-62_167_219_201), None);
    assert_eq!(NaiveTimestamp::at_seconds(253_402_300_800), None);
    assert_eq!(NaiveTimestamp::at_seconds(i64::MIN), None);
    assert_eq!(NaiveTimestamp::at_seconds(i64::MAX), None);
}

#[test]
fn every_day_of_the_calendar_is_found_at_its_seconds_count() {
    let mut seconds: i64 = -62_167_219_200;
    let mut year: u16 = 0;
    let mut month: u8 = 1;
    let mut day: u8 = 1;
    let mut days: u32 = 0;
    loop {
        let here = stamp(year, month, day, 0, 0, 0);
        assert_eq!(here.seconds(), seconds);
        assert_eq!(NaiveTimestamp::at_seconds(seconds), Some(here));
        assert_eq!(
            NaiveTimestamp::at_seconds(seconds + 86_399),
            Some(stamp(year, month, day, 23, 59, 59))
        );
        days += 1;
        seconds += 86_400;
        if day < month_length(year, month) {
            day += 1;
        } else if month < 12 {
            month += 1;
            day = 1;
        } else if year < 9999 {
            year += 1;
            month = 1;
            day = 1;
        } else {
            break;
        }
    }
    assert_eq!(days, 3_652_425);
    assert_eq!(seconds, 253_402_300_800);
}

#[test]
fn seconds_counts_agree_with_chrono() {
    let mut seconds: i64 = -62_167_219_200;
    while seconds <= 253_402_300_799 {
        let ours = NaiveTimestamp::at_seconds(seconds).unwrap();
        let theirs = chrono::DateTime::from_timestamp(seconds, 0).unwrap().naive_utc();
        assert_eq!(i32::from(ours.date().year()), chrono::Datelike::year(&theirs));
        assert_eq!(u32::from(ours.date().month()), chrono::Datelike::month(&theirs));
        assert_eq!(u32::from(ours.date().day()), chrono::Datelike::day(&theirs));
        assert_eq!(u32::from(ours.time().hour()), chrono::Timelike::hour(&theirs));
        assert_eq!(u32::from(ours.time().minute()), chrono::Timelike::minute(&theirs));
        assert_eq!(u32::from(ours.time().second()), chrono::Timelike::second(&theirs));
        assert_eq!(ours.seconds(), seconds);
        seconds += 7_654_321;
    }
}

#[test]
fn a_calendar_can_show_two_days_on_either_side_of_the_years_0000_to_9999() {
    let noon = ClockTime::new(12, 0, 0).unwrap();
    assert!(ShownTimestamp::new(-1, 12, 30, noon).is_some());
    assert!(ShownTimestamp::new(-1, 12, 31, noon).is_some());
    assert!(ShownTimestamp::new(10000, 1, 1, noon).is_some());
    assert!(ShownTimestamp::new(10000, 1, 2, noon).is_some());
    assert!(ShownTimestamp::new(-1, 12, 29, noon).is_none());
    assert!(ShownTimestamp::new(-1, 11, 30, noon).is_none());
    assert!(ShownTimestamp::new(-2, 12, 31, noon).is_none());
    assert!(ShownTimestamp::new(10000, 1, 3, noon).is_none());
    assert!(ShownTimestamp::new(10000, 2, 1, noon).is_none());
    assert!(ShownTimestamp::new(10001, 1, 1, noon).is_none());
    assert!(ShownTimestamp::new(2021, 2, 29, noon).is_none());
    assert!(ShownTimestamp::new(2024, 2, 29, noon).is_some());
    assert!(ShownTimestamp::new(i32::MIN, 1, 1, noon).is_none());
    assert!(ShownTimestamp::new(i32::MAX, 1, 1, noon).is_none());
}

#[test]
fn what_a_calendar_shows_has_its_seconds_count() {
    let noon = ClockTime::new(12, 0, 0).unwrap();
    let shown = |y: i32, m: u8, d: u8| ShownTimestamp::new(y, m, d, noon).unwrap();
    assert_eq!(shown(1970, 1, 1).seconds(), 43_200);
    assert_eq!(shown(0, 1, 1).seconds(), -62_167_219_200 + 43_200);
    assert_eq!(shown(-1, 12, 31).seconds(), -62_167_219_200 - 43_200);
    assert_eq!(shown(-1, 12, 30).seconds(), -62_167_219_200 - 86_400 - 43_200);
    assert_eq!(shown(9999, 12, 31).seconds(), 253_402_257_600);
    assert_eq!(shown(10000, 1, 1).seconds(), 253_402_257_600 + 86_400);
    assert_eq!(shown(10000, 1, 2).seconds(), 253_402_257_600 + 2 * 86_400);
    for y in [-1i32, 10000] {
        for d in [1u8, 2, 30, 31] {
            for m in [1u8, 12] {
                if let Some(here) = ShownTimestamp::new(y, m, d, noon) {
                    let theirs = chrono::NaiveDate::from_ymd_opt(y, u32::from(m), u32::from(d))
                        .unwrap()
                        .and_hms_opt(12, 0, 0)
                        .unwrap();
                    assert_eq!(here.seconds(), theirs.and_utc().timestamp());
                }
            }
        }
    }
}

#[test]
fn a_timestamp_of_the_calendar_is_shown_as_itself() {
    let stamp = NaiveTimestamp::from_parts(2021, 10, 31, 1, 30, 0).unwrap();
    let shown = ShownTimestamp::from_naive(&stamp);
    assert_eq!((shown.year(), shown.month(), shown.day()), (2021, 10, 31));
    assert_eq!(shown.time(), stamp.time());
    assert_eq!(shown.naive(), Some(stamp));
    assert_eq!(shown.seconds(), stamp.seconds());
    assert_eq!(shown.date_text(), "2021-10-31");
    let noon = ClockTime::new(12, 0, 0).unwrap();
    assert_eq!(ShownTimestamp::new(10000, 1, 1, noon).unwrap().naive(), None);
    assert_eq!(ShownTimestamp::new(-1, 12, 31, noon).unwrap().naive(), None);
}
