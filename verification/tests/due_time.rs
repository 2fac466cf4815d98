use chrono::{Duration, Local, Timelike};
use todo_tracker::clock::Time;
use todo_tracker::due_time::{interpret_time_token, parse_due_time};

fn time_of(hour: u32, minute: u32) -> Time {
    Time::new(hour, minute).unwrap()
}

#[test]
fn parseduetime_test_parse_due_time_numeric() {
    let now = time_of(9, 30);
    assert_eq!(parse_due_time("12".to_string(), now), "12:00");
    assert_eq!(parse_due_time("1240".to_string(), now), "12:40");
    assert_eq!(parse_due_time("14:39".to_string(), now), "14:39");
}

#[test]
fn parseduetime_test_parse_due_time_relative_hours() {
    let current_time = Local::now().naive_local();
    let now = time_of(current_time.hour(), current_time.minute());
    let three_hours_later = current_time + Duration::hours(3);
    let expected_three_hours_time = format!(
        "{:02}:{:02}",
        three_hours_later.hour(),
        three_hours_later.minute()
    );

    assert_eq!(
        parse_due_time("in 3 hours".to_string(), now),
        expected_three_hours_time
    );
    assert_eq!(parse_due_time("in 3".to_string(), now), expected_three_hours_time);
}

#[test]
fn parseduetime_test_parse_due_time_relative_minutes() {
    let current_time = Local::now().naive_local();
    let now = time_of(current_time.hour(), current_time.minute());
    let thirty_minutes_later = current_time + Duration::minutes(30);
    let expected_thirty_minutes_time = format!(
        "{:02}:{:02}",
        thirty_minutes_later.hour(),
        thirty_minutes_later.minute()
    );

    assert_eq!(
        parse_due_time("in 30 min".to_string(), now),
        expected_thirty_minutes_time
    );
    assert_eq!(
        parse_due_time("in 30 minutes".to_string(), now),
        expected_thirty_minutes_time
    );
}

#[test]
fn parseduetime_test_parse_due_time_erroneous_inputs() {
    let current_time = Local::now().naive_local();
    let now = time_of(current_time.hour(), current_time.minute());
    let three_hours_later = current_time + Duration::hours(3);
    let thirty_minutes_later = current_time + Duration::minutes(30);
    let expected_three_hours_time = format!(
        "{:02}:{:02}",
        three_hours_later.hour(),
        three_hours_later.minute()
    );
    let expected_thirty_minutes_time = format!(
        "{:02}:{:02}",
        thirty_minutes_later.hour(),
        thirty_minutes_later.minute()
    );

    assert_eq!(parse_due_time("12d".to_string(), now), "12:00");
    assert_eq!(parse_due_time("1240d".to_string(), now), "12:40");
    assert_eq!(
        parse_due_time("in 3 hoursz".to_string(), now),
        expected_three_hours_time
    );
    assert_eq!(parse_due_time("in 3d".to_string(), now), expected_three_hours_time);
    assert_eq!(
        parse_due_time("in 30 minz".to_string(), now),
        expected_thirty_minutes_time
    );
    assert_eq!(
        parse_due_time("in 30 minutesz".to_string(), now),
        expected_thirty_minutes_time
    );
}

#[test]
fn parseduetime_test_parse_due_time_invalid_inputs() {
    let now = time_of(9, 30);
    assert_eq!(parse_due_time("invalid".to_string(), now), "invalid");
    assert_eq!(parse_due_time("".to_string(), now), "");
    assert_eq!(parse_due_time("in hours".to_string(), now), "in hours");
}

#[test]
fn brain_test_parse_due_time_numeric() {
    let now = time_of(21, 5);
    assert_eq!(parse_due_time("12".to_string(), now), "12:00");
    assert_eq!(parse_due_time("1240".to_string(), now), "12:40");
    assert_eq!(parse_due_time("14:39".to_string(), now), "14:39");
}

#[test]
fn brain_test_parse_due_time_relative_hours() {
    let current_time = Local::now().naive_local();
    let now = time_of(current_time.hour(), current_time.minute());
    let three_hours_later = current_time + Duration::hours(3);
    let expected_three_hours_time = format!(
        "{:02}:{:02}",
        three_hours_later.hour(),
        three_hours_later.minute()
    );

    assert_eq!(
        parse_due_time("in 3 hours".to_string(), now),
        expected_three_hours_time
    );
    assert_eq!(parse_due_time("in 3".to_string(), now), expected_three_hours_time);
}

#[test]
fn brain_test_parse_due_time_relative_minutes() {
    let current_time = Local::now().naive_local();
    let now = time_of(current_time.hour(), current_time.minute());
    let thirty_minutes_later = current_time + Duration::minutes(30);
    let expected_thirty_minutes_time = format!(
        "{:02}:{:02}",
        thirty_minutes_later.hour(),
        thirty_minutes_later.minute()
    );

    assert_eq!(
        parse_due_time("in 30 min".to_string(), now),
        expected_thirty_minutes_time
    );
    assert_eq!(
        parse_due_time("in 30 minutes".to_string(), now),
        expected_thirty_minutes_time
    );
}

#[test]
fn brain_test_parse_due_time_erroneous_inputs() {
    let current_time = Local::now().naive_local();
    let now = time_of(current_time.hour(), current_time.minute());
    let three_hours_later = current_time + Duration::hours(3);
    let thirty_minutes_later = current_time + Duration::minutes(30);
    let expected_three_hours_time = format!(
        "{:02}:{:02}",
        three_hours_later.hour(),
        three_hours_later.minute()
    );
    let expected_thirty_minutes_time = format!(
        "{:02}:{:02}",
        thirty_minutes_later.hour(),
        thirty_minutes_later.minute()
    );

    assert_eq!(parse_due_time("12d".to_string(), now), "12:00");
    assert_eq!(parse_due_time("1240d".to_string(), now), "12:40");
    assert_eq!(
        parse_due_time("in 3 hoursz".to_string(), now),
        expected_three_hours_time
    );
    assert_eq!(parse_due_time("in 3d".to_string(), now), expected_three_hours_time);
    assert_eq!(
        parse_due_time("in 30 minz".to_string(), now),
        expected_thirty_minutes_time
    );
    assert_eq!(
        parse_due_time("in 30 minutesz".to_string(), now),
        expected_thirty_minutes_time
    );
}

#[test]
fn brain_test_parse_due_time_invalid_inputs() {
    let now = time_of(21, 5);
    assert_eq!(parse_due_time("invalid".to_string(), now), "invalid");
    assert_eq!(parse_due_time("".to_string(), now), "");
    assert_eq!(parse_due_time("in hours".to_string(), now), "in hours");
}

#[test]
fn hours_and_minutes_in_one_number() {
    let now = time_of(9, 30);
    assert_eq!(parse_due_time("0".to_string(), now), "00:00");
    assert_eq!(parse_due_time("7".to_string(), now), "07:00");
    assert_eq!(parse_due_time("23".to_string(), now), "23:00");
    assert_eq!(parse_due_time("24".to_string(), now), "00:24");
    assert_eq!(parse_due_time("0930".to_string(), now), "09:30");
    assert_eq!(parse_due_time("930".to_string(), now), "09:30");
    assert_eq!(parse_due_time("99".to_string(), now), "00:99");
    assert_eq!(parse_due_time("1299".to_string(), now), "12:99");
    assert_eq!(parse_due_time("2359".to_string(), now), "23:59");
    assert_eq!(parse_due_time("2400".to_string(), now), "2400");
    assert_eq!(parse_due_time("9999".to_string(), now), "9999");
    assert_eq!(parse_due_time("0007".to_string(), now), "07:00");
    assert_eq!(parse_due_time("12345".to_string(), now), "12345");
}

#[test]
fn times_with_a_colon() {
    let now = time_of(9, 30);
    assert_eq!(parse_due_time("7:05".to_string(), now), "7:05");
    assert_eq!(parse_due_time("1234:56".to_string(), now), "1234:56");
    assert_eq!(parse_due_time("14:39 Uhr".to_string(), now), "14:39");
    assert_eq!(parse_due_time("14:3".to_string(), now), "14:3");
    assert_eq!(parse_due_time("14:39:10".to_string(), now), "14:39:10");
    assert_eq!(parse_due_time("12:".to_string(), now), "12:00");
}

#[test]
fn relative_times_wrap_around_midnight() {
    let now = time_of(22, 45);
    assert_eq!(parse_due_time("in 3 hours".to_string(), now), "01:45");
    assert_eq!(parse_due_time("in 1 hour".to_string(), now), "23:45");
    assert_eq!(parse_due_time("in 24".to_string(), now), "22:45");
    assert_eq!(parse_due_time("in 30 min".to_string(), now), "23:15");
    assert_eq!(parse_due_time("in 75 minute".to_string(), now), "00:00");
    assert_eq!(parse_due_time("in 1440 minutes".to_string(), now), "22:45");
    assert_eq!(parse_due_time("in 0".to_string(), now), "22:45");
    assert_eq!(
        parse_due_time("in 9223372036854775807 hours".to_string(), now),
        "05:45"
    );
    assert_eq!(
        parse_due_time("in 9223372036854775807 min".to_string(), now),
        "16:52"
    );
    assert_eq!(
        parse_due_time("in 9223372036854775808 min".to_string(), now),
        "in 9223372036854775808 min"
    );
}

#[test]
fn relative_times_as_the_pattern_cuts_them() {
    let now = time_of(10, 0);
    assert_eq!(parse_due_time("in 2 days".to_string(), now), "12:00");
    assert_eq!(parse_due_time("in 2 hourly".to_string(), now), "12:00");
    assert_eq!(parse_due_time("in 2 minimal".to_string(), now), "10:02");
    assert_eq!(parse_due_time("in 2 hours 30".to_string(), now), "in 2 hours 30");
    assert_eq!(parse_due_time("in  2".to_string(), now), "in  2");
    assert_eq!(parse_due_time("In 2".to_string(), now), "In 2");
    assert_eq!(parse_due_time(" 12".to_string(), now), " 12");
    assert_eq!(parse_due_time("in -2".to_string(), now), "in -2");
    assert_eq!(parse_due_time("in \u{662}".to_string(), now), "in \u{662}");
    assert_eq!(parse_due_time("\u{661}\u{662}:\u{663}\u{664}x".to_string(), now), "\u{661}\u{662}:\u{663}\u{664}");
}

#[test]
fn tokens_read_on_their_own() {
    let now = time_of(10, 0);
    assert_eq!(interpret_time_token("12", "x".to_string(), now), "12:00");
    assert_eq!(interpret_time_token("1240", "x".to_string(), now), "12:40");
    assert_eq!(interpret_time_token("14:39", "x".to_string(), now), "14:39");
    assert_eq!(interpret_time_token("in 3 hours", "x".to_string(), now), "13:00");
    assert_eq!(interpret_time_token("in 30 min", "x".to_string(), now), "10:30");
    assert_eq!(interpret_time_token("+5", "x".to_string(), now), "05:00");
    assert_eq!(interpret_time_token("-5", "x".to_string(), now), "x");
    assert_eq!(interpret_time_token("in -2", "x".to_string(), now), "08:00");
    assert_eq!(interpret_time_token("in -90 min", "x".to_string(), now), "08:30");
    assert_eq!(interpret_time_token("in +2 hours", "x".to_string(), now), "12:00");
    assert_eq!(interpret_time_token("in 2 3", "x".to_string(), now), "x");
    assert_eq!(interpret_time_token("in 2 hours 3", "x".to_string(), now), "x");
    assert_eq!(interpret_time_token("in x", "x".to_string(), now), "x");
    assert_eq!(interpret_time_token("in ", "x".to_string(), now), "x");
    assert_eq!(interpret_time_token("in :", "x".to_string(), now), "x");
    assert_eq!(interpret_time_token("a:b", "x".to_string(), now), "a:b");
    assert_eq!(interpret_time_token("", "x".to_string(), now), "x");
    assert_eq!(interpret_time_token("4294967296", "x".to_string(), now), "x");
    assert_eq!(interpret_time_token("4294967295", "x".to_string(), now), "x");
    assert_eq!(interpret_time_token("in\t3", "x".to_string(), now), "x");
    assert_eq!(interpret_time_token("in \t3", "x".to_string(), now), "13:00");
}
