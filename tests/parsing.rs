use task_reminder::clock::{local_hour_minute, next_at_fire, next_daily_fire, second_of_day, LocalTime};
use task_reminder::comm::{clock_after, clock_at, clock_per};
use task_reminder::task::ClockType;
use task_reminder::text::{parse_at_from, parse_duration, read_digits, ParseError};

// 2024-01-01 12:00:37 UTC
const NOON_37: i64 = 1704110437;

#[test]
fn duration_all_units() {
    assert_eq!(parse_duration("1d1h1m1s"), Ok(90061));
}

#[test]
fn duration_single_units() {
    assert_eq!(parse_duration("2h"), Ok(7200));
    assert_eq!(parse_duration("30s"), Ok(30));
    assert_eq!(parse_duration("55m"), Ok(3300));
    assert_eq!(parse_duration("3d"), Ok(259200));
}

#[test]
fn duration_empty_is_zero() {
    assert_eq!(parse_duration(""), Ok(0));
}

#[test]
fn duration_bad_forms() {
    assert_eq!(parse_duration("1h1d"), Err(ParseError::InvalidFormat));
    assert_eq!(parse_duration("1h1h"), Err(ParseError::InvalidFormat));
    assert_eq!(parse_duration("abc"), Err(ParseError::InvalidFormat));
    assert_eq!(parse_duration("10"), Err(ParseError::InvalidFormat));
    assert_eq!(parse_duration("h"), Err(ParseError::InvalidFormat));
    assert_eq!(parse_duration("1x"), Err(ParseError::InvalidFormat));
    assert_eq!(parse_duration(" 1s"), Err(ParseError::InvalidFormat));
}

#[test]
fn duration_too_large() {
    assert_eq!(parse_duration("99999999999999999999s"), Err(ParseError::OutOfRange));
    assert_eq!(parse_duration("999999999999999d"), Err(ParseError::OutOfRange));
    assert_eq!(parse_duration("18446744073709551615s"), Ok(u64::MAX));
}

#[test]
fn duration_overflow_yields_to_bad_form() {
    assert_eq!(parse_duration("99999999999999999999sx"), Err(ParseError::InvalidFormat));
}

#[test]
fn digits_run_and_limit() {
    assert_eq!(read_digits(b"ab123c", 2, 1000), (5, Some(123)));
    assert_eq!(read_digits(b"ab123c", 2, 100), (5, None));
    assert_eq!(read_digits(b"abc", 0, 9), (0, Some(0)));
}

#[test]
fn at_later_today_keeps_seconds() {
    let now = LocalTime { unix: NOON_37, offset: 0 };
    assert_eq!(
        parse_at_from("13:05", now),
        Ok(LocalTime { unix: 1704114337, offset: 0 })
    );
}

#[test]
fn at_earlier_moves_to_tomorrow() {
    let now = LocalTime { unix: NOON_37, offset: 0 };
    assert_eq!(
        parse_at_from("11:00", now),
        Ok(LocalTime { unix: 1704193237, offset: 0 })
    );
}

#[test]
fn at_with_seconds_text() {
    let now = LocalTime { unix: NOON_37, offset: 0 };
    assert_eq!(
        parse_at_from("13:11:04", now),
        Ok(LocalTime { unix: 1704114697, offset: 0 })
    );
}

#[test]
fn at_errors() {
    let now = LocalTime { unix: NOON_37, offset: 0 };
    assert_eq!(parse_at_from("25:00", now), Err(ParseError::OutOfRange));
    assert_eq!(parse_at_from("12:60", now), Err(ParseError::OutOfRange));
    assert_eq!(parse_at_from("12", now), Err(ParseError::InvalidFormat));
    assert_eq!(parse_at_from("12:", now), Err(ParseError::InvalidFormat));
    assert_eq!(parse_at_from(":30", now), Err(ParseError::InvalidFormat));
    assert_eq!(parse_at_from("", now), Err(ParseError::InvalidFormat));
    assert_eq!(parse_at_from("300:10", now), Err(ParseError::OutOfRange));
}

#[test]
fn at_takes_first_match_anywhere() {
    let now = LocalTime { unix: NOON_37, offset: 0 };
    let at_13_05 = Ok(LocalTime { unix: 1704114337, offset: 0 });
    assert_eq!(parse_at_from("at 13:05", now), at_13_05);
    assert_eq!(parse_at_from("13:05pm", now), at_13_05);
    assert_eq!(parse_at_from("x:1 13:05 14:00", now), at_13_05);
    assert_eq!(parse_at_from("12:30:", now), Ok(LocalTime { unix: 1704112237, offset: 0 }));
    // 01:05:37 of the next day
    assert_eq!(parse_at_from("a1:05", now), Ok(LocalTime { unix: 1704157537, offset: 0 }));
}

#[test]
fn local_fields_wrap_below_midnight() {
    // 2024-01-01 00:00 UTC is 23:00 the day before at UTC-1.
    assert_eq!(local_hour_minute(1704067200, -3600), (23, 0));
    assert_eq!(second_of_day(1704067200, -3600), 82800);
    assert_eq!(local_hour_minute(NOON_37, 5 * 3600 + 30 * 60), (17, 30));
}

#[test]
fn local_fields_before_epoch() {
    assert_eq!(second_of_day(-1, 0), 86399);
}

#[test]
fn daily_next_minute_today() {
    // local 13:00:37 at UTC+1; 13:01 comes 23 seconds later
    assert_eq!(next_daily_fire(NOON_37, 3600, 13, 1), 1704110460);
}

#[test]
fn daily_passed_minute_tomorrow() {
    assert_eq!(next_daily_fire(NOON_37, 3600, 13, 0), 1704196800);
}

#[test]
fn at_fire_keeps_seconds() {
    assert_eq!(next_at_fire(NOON_37, 0, 13, 5), 1704114337);
}

#[test]
fn after_builds_once_rule() {
    let now = LocalTime { unix: NOON_37, offset: 0 };
    assert_eq!(clock_after("2s", now), Ok(ClockType::Once(NOON_37 + 2)));
    assert_eq!(clock_after("0s", now), Err(ParseError::ZeroDuration));
    assert_eq!(clock_after("", now), Err(ParseError::ZeroDuration));
    assert_eq!(clock_after("2q", now), Err(ParseError::InvalidFormat));
}

#[test]
fn per_builds_period_rule() {
    assert_eq!(clock_per("1m"), Ok(ClockType::Period(60)));
    assert_eq!(clock_per("0m"), Err(ParseError::ZeroDuration));
}

#[test]
fn at_builds_daily_or_once_rule() {
    let now = LocalTime { unix: NOON_37, offset: 3600 };
    assert_eq!(clock_at("14:10", true, now), Ok(ClockType::OncePerDay(14, 10)));
    // local 14:10:37 at UTC+1 is 13:10:37 UTC
    assert_eq!(clock_at("14:10", false, now), Ok(ClockType::Once(1704114637)));
}
