use gtfs_gridforge::clock::{clock_string, SECONDS_PER_DAY, SECONDS_PER_HOUR, SECONDS_PER_MINUTE};
use gtfs_gridforge::TimeOfDay;

#[test]
fn midnight_is_second_zero() {
    let time = TimeOfDay::from_hms(0, 0, 0).unwrap();
    assert_eq!(time.seconds_from_midnight(), 0);
    assert_eq!((time.hour(), time.minute(), time.second()), (0, 0, 0));
}

#[test]
fn seconds_weigh_hours_and_minutes() {
    let time = TimeOfDay::from_hms(5, 30, 7).unwrap();
    assert_eq!(time.seconds_from_midnight(), 5 * 3600 + 30 * 60 + 7);
    assert_eq!((time.hour(), time.minute(), time.second()), (5, 30, 7));
}

#[test]
fn last_second_of_the_day_is_a_time() {
    let time = TimeOfDay::from_hms(23, 59, 59).unwrap();
    assert_eq!(time.seconds_from_midnight(), 86399);
    assert_eq!((time.hour(), time.minute(), time.second()), (23, 59, 59));
}

#[test]
fn parts_out_of_range_are_no_time() {
    assert!(TimeOfDay::from_hms(24, 0, 0).is_none());
    assert!(TimeOfDay::from_hms(23, 60, 0).is_none());
    assert!(TimeOfDay::from_hms(23, 59, 60).is_none());
    assert!(TimeOfDay::from_hms(u32::MAX, 0, 0).is_none());
    assert!(TimeOfDay::from_hms(0, u32::MAX, u32::MAX).is_none());
}

#[test]
fn clock_constants_are_those_of_the_day() {
    assert_eq!(SECONDS_PER_MINUTE, 60);
    assert_eq!(SECONDS_PER_HOUR, 3600);
    assert_eq!(SECONDS_PER_DAY, 86400);
}

#[test]
fn clock_text_has_two_digits_in_each_part() {
    assert_eq!(clock_string(0), "00:00:00");
    assert_eq!(clock_string(28800), "08:00:00");
    assert_eq!(clock_string(5 * 3600 + 7 * 60 + 9), "05:07:09");
    assert_eq!(clock_string(86399), "23:59:59");
}

#[test]
fn clock_text_runs_past_midnight() {
    assert_eq!(clock_string(86400), "24:00:00");
    assert_eq!(clock_string(86400 + 10 * 60), "24:10:00");
    assert_eq!(clock_string(27 * 3600 + 15 * 60 + 1), "27:15:01");
}

#[test]
fn clock_text_keeps_long_hours_whole() {
    assert_eq!(clock_string(100 * 3600), "100:00:00");
    assert_eq!(clock_string(12345 * 3600 + 59 * 60 + 59), "12345:59:59");
}

#[test]
fn clock_text_orders_as_the_times() {
    let earlier = clock_string(23 * 3600 + 50 * 60);
    let later = clock_string(24 * 3600 + 5 * 60);
    assert!(earlier < later);
}
