use zenohui::time::{LocalDateTime, Time};

#[test]
fn new_now_local() {
    let result = Time::new_now();
    assert!(matches!(result, Time::Local(_)));
}

#[test]
fn optional_unknown() {
    let time = Time::Unknown;
    assert_eq!(time.as_optional(), None);
}

#[test]
fn optional_time() {
    let date = Time::datetime_example();
    let time = Time::Local(date);
    assert_eq!(time.as_optional(), Some(&date));
}

#[test]
fn local_to_string() {
    let date = Time::datetime_example();
    let time = Time::Local(date);
    assert_eq!(time.to_string(), "16:39:57.000");
}

#[test]
fn unknown_to_string() {
    let time = Time::Unknown;
    assert_eq!(time.to_string(), "UNKNOWN");
}

#[test]
fn unknown_fmt_width() {
    let time = Time::Unknown;
    let time = format!("{:12}", time.to_string());
    assert_eq!(time, "UNKNOWN     ");
}

#[test]
fn single_digit_hour_is_space_padded() {
    let date = LocalDateTime { year: 2024, month: 1, day: 2, hour: 7, minute: 5, second: 9, nanosecond: 42_000_000 };
    assert_eq!(Time::Local(date).to_string(), " 7:05:09.042");
}

#[test]
fn leap_second_shows_sixty() {
    let date = LocalDateTime { year: 2016, month: 12, day: 31, hour: 23, minute: 59, second: 59, nanosecond: 1_500_000_000 };
    assert_eq!(Time::Local(date).to_string(), "23:59:60.500");
}
