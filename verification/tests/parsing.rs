use chrono::{Local, Timelike};
use countdown::argument::target_seconds;
use countdown::clock::{parse_time, seconds_until, NotATime, Reading};
use countdown::duration::{parse_duration, DurationError};

#[test]
fn format_below_an_hour() {
    assert_eq!(countdown::clock_face::format(0), "00:00");
    assert_eq!(countdown::clock_face::format(59), "00:59");
    assert_eq!(countdown::clock_face::format(60), "01:00");
    assert_eq!(countdown::clock_face::format(61), "01:01");
    assert_eq!(countdown::clock_face::format(600), "10:00");
    assert_eq!(countdown::clock_face::format(3599), "59:59");
}

#[test]
fn format_from_an_hour_on() {
    assert_eq!(countdown::clock_face::format(3600), "1:00:00");
    assert_eq!(countdown::clock_face::format(3661), "1:01:01");
    assert_eq!(countdown::clock_face::format(36000), "10:00:00");
    assert_eq!(countdown::clock_face::format(86399), "23:59:59");
    assert_eq!(countdown::clock_face::format(360000), "100:00:00");
    assert_eq!(countdown::clock_face::format(4_294_967_295), "1193046:28:15");
}

#[test]
fn format_agrees_with_padding_for_every_second_of_two_hours() {
    for s in 0..7200usize {
        let expected = if s < 3600 {
            format!("{:02}:{:02}", s / 60, s % 60)
        } else {
            format!("{}:{:02}:{:02}", s / 3600, s % 3600 / 60, s % 60)
        };
        assert_eq!(countdown::clock_face::format(s), expected);
    }
}

#[test]
fn duration_of_segments() {
    assert_eq!(parse_duration("1h30m10s"), Ok(5410));
    assert_eq!(parse_duration("1h30m"), Ok(5400));
    assert_eq!(parse_duration("1h"), Ok(3600));
    assert_eq!(parse_duration("2m"), Ok(120));
    assert_eq!(parse_duration("45s"), Ok(45));
    assert_eq!(parse_duration("0h0m0s"), Ok(0));
    assert_eq!(parse_duration("007s"), Ok(7));
}

#[test]
fn duration_with_trailing_seconds() {
    assert_eq!(parse_duration("90"), Ok(90));
    assert_eq!(parse_duration("1h30"), Ok(3630));
    assert_eq!(parse_duration("1m5"), Ok(65));
    assert_eq!(parse_duration("0"), Ok(0));
}

#[test]
fn duration_of_nothing_is_zero() {
    assert_eq!(parse_duration(""), Ok(0));
}

#[test]
fn duration_units_in_any_order_and_number() {
    assert_eq!(parse_duration("5s3m"), Ok(185));
    assert_eq!(parse_duration("1h1h"), Ok(7200));
    assert_eq!(parse_duration("10s1h10s"), Ok(3620));
}

#[test]
fn duration_unit_without_number() {
    assert_eq!(parse_duration("h"), Err(DurationError::MissingNumber));
    assert_eq!(parse_duration("1hm"), Err(DurationError::MissingNumber));
    assert_eq!(parse_duration("s5"), Err(DurationError::MissingNumber));
}

#[test]
fn duration_with_a_foreign_character() {
    assert_eq!(parse_duration("1x"), Err(DurationError::UnexpectedCharacter));
    assert_eq!(parse_duration("1h 30m"), Err(DurationError::UnexpectedCharacter));
    assert_eq!(parse_duration("-5s"), Err(DurationError::UnexpectedCharacter));
    assert_eq!(parse_duration("1H"), Err(DurationError::UnexpectedCharacter));
    assert_eq!(parse_duration("13:30"), Err(DurationError::UnexpectedCharacter));
    assert_eq!(parse_duration("\u{0663}s"), Err(DurationError::UnexpectedCharacter));
}

#[test]
fn duration_number_beyond_64_bits() {
    assert_eq!(parse_duration("18446744073709551615"), Ok(u64::MAX));
    assert_eq!(parse_duration("18446744073709551615s"), Ok(u64::MAX));
    assert_eq!(parse_duration("18446744073709551616"), Err(DurationError::NumberTooLarge));
    assert_eq!(parse_duration("18446744073709551616s"), Err(DurationError::NumberTooLarge));
    assert_eq!(parse_duration("99999999999999999999999h"), Err(DurationError::NumberTooLarge));
    assert_eq!(parse_duration("000018446744073709551615"), Ok(u64::MAX));
}

#[test]
fn duration_sum_beyond_64_bits() {
    assert_eq!(parse_duration("18446744073709551615h"), Err(DurationError::TooLong));
    assert_eq!(parse_duration("18446744073709551615s1s"), Err(DurationError::TooLong));
    assert_eq!(parse_duration("18446744073709551615s1"), Err(DurationError::TooLong));
    assert_eq!(parse_duration("5124095576030431h"), Ok(5124095576030431 * 3600));
    assert_eq!(parse_duration("5124095576030432h"), Err(DurationError::TooLong));
}

#[test]
fn duration_reports_the_first_error() {
    assert_eq!(parse_duration("99999999999999999999999x"), Err(DurationError::UnexpectedCharacter));
    assert_eq!(parse_duration("hx"), Err(DurationError::MissingNumber));
    assert_eq!(parse_duration("xh"), Err(DurationError::UnexpectedCharacter));
}

#[test]
fn seconds_until_a_later_time_today() {
    assert_eq!(seconds_until(3600, Reading { second: 0, nanosecond: 0 }), 3600);
    assert_eq!(seconds_until(36000, Reading { second: 35999, nanosecond: 0 }), 1);
    assert_eq!(seconds_until(86399, Reading { second: 0, nanosecond: 0 }), 86399);
}

#[test]
fn seconds_until_drops_the_second_that_has_begun() {
    assert_eq!(seconds_until(36000, Reading { second: 35999, nanosecond: 500_000_000 }), 0);
    assert_eq!(seconds_until(36000, Reading { second: 35990, nanosecond: 1 }), 9);
}

#[test]
fn seconds_until_the_present_moment_is_zero() {
    assert_eq!(seconds_until(36000, Reading { second: 36000, nanosecond: 0 }), 0);
    assert_eq!(seconds_until(0, Reading { second: 0, nanosecond: 0 }), 0);
}

#[test]
fn seconds_until_a_time_that_has_passed_is_tomorrow() {
    assert_eq!(seconds_until(36000, Reading { second: 36000, nanosecond: 1 }), 86399);
    assert_eq!(seconds_until(36000, Reading { second: 36001, nanosecond: 0 }), 86399);
    assert_eq!(seconds_until(0, Reading { second: 86399, nanosecond: 0 }), 1);
    assert_eq!(seconds_until(0, Reading { second: 86399, nanosecond: 5 }), 0);
    assert_eq!(seconds_until(0, Reading { second: 1, nanosecond: 0 }), 86399);
}

fn close(a: i64, b: i64) -> bool {
    let gap = (a - b).rem_euclid(86_400);
    gap <= 2 || gap >= 86_398
}

fn from_now_until(hour: u32, minute: u32) -> i64 {
    let now = Local::now().naive_local().time();
    let target = (hour * 3600 + minute * 60) as i64;
    (target - now.num_seconds_from_midnight() as i64).rem_euclid(86_400)
}

#[test]
fn parse_time_reads_twenty_four_hour_times() {
    for (text, hour, minute) in
        [("13:30", 13, 30), ("0:00", 0, 0), ("7:05", 7, 5), ("23:59", 23, 59)]
    {
        let seconds = parse_time(text).unwrap();
        assert!((0..86_400).contains(&seconds));
        assert!(close(seconds, from_now_until(hour, minute)), "{text}: {seconds}");
    }
}

#[test]
fn parse_time_reads_twelve_hour_times() {
    for (text, hour, minute) in
        [("1:30 pm", 13, 30), ("1:30 am", 1, 30), ("12:00 am", 0, 0), ("12:15 PM", 12, 15)]
    {
        let seconds = parse_time(text).unwrap();
        assert!((0..86_400).contains(&seconds));
        assert!(close(seconds, from_now_until(hour, minute)), "{text}: {seconds}");
    }
}

#[test]
fn parse_time_refuses_what_is_no_time() {
    assert_eq!(parse_time(""), Err(NotATime));
    assert_eq!(parse_time("90"), Err(NotATime));
    assert_eq!(parse_time("1h30m"), Err(NotATime));
    assert_eq!(parse_time("25:00"), Err(NotATime));
    assert_eq!(parse_time("12:60"), Err(NotATime));
    assert_eq!(parse_time("13:30 pm"), Err(NotATime));
    assert_eq!(parse_time("noon"), Err(NotATime));
}

#[test]
fn target_seconds_of_a_duration() {
    assert_eq!(target_seconds("90"), Ok(90));
    assert_eq!(target_seconds("1h30m10s"), Ok(5410));
    assert_eq!(target_seconds(""), Ok(0));
}

#[test]
fn target_seconds_of_a_time_of_day() {
    let seconds = target_seconds("13:30").unwrap();
    assert!(seconds < 86_400);
    assert!(close(seconds as i64, from_now_until(13, 30)));
    let seconds = target_seconds("1:30 pm").unwrap();
    assert!(close(seconds as i64, from_now_until(13, 30)));
}

#[test]
fn target_seconds_refuses_what_is_neither() {
    assert_eq!(target_seconds("soon"), Err(DurationError::MissingNumber));
    assert_eq!(target_seconds("1d"), Err(DurationError::UnexpectedCharacter));
    assert_eq!(target_seconds("25:00"), Err(DurationError::UnexpectedCharacter));
    assert_eq!(target_seconds("99999999999999999999999"), Err(DurationError::NumberTooLarge));
}
