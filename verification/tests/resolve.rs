use caffeinator::resolve::{
    clock_deadline, get_duration, read_time_spec, resolve, resolve_reading, seconds_until,
    span_deadline, ClockTime, LocalInstant, ResolveError, Span, TimeSpec,
};

// 1 January 2024 is day 19723 counted from 1 January 1970.
const NEW_YEAR_2024: i32 = 19_723;

fn at(day: i32, hour: u32, minute: u32) -> LocalInstant {
    LocalInstant { day, second: hour * 3600 + minute * 60, nano: 0 }
}

#[test]
fn day_number_matches_the_calendar() {
    let date = chrono::NaiveDate::from_ymd_opt(2024, 1, 1).unwrap();
    let epoch = chrono::NaiveDate::from_ymd_opt(1970, 1, 1).unwrap();
    assert_eq!((date - epoch).num_days(), i64::from(NEW_YEAR_2024));
}

#[test]
fn clock_time_already_passed_rolls_to_next_day() {
    let now = at(NEW_YEAR_2024, 20, 0);
    assert_eq!(resolve("18:00", now), Ok(at(NEW_YEAR_2024 + 1, 18, 0)));
}

#[test]
fn clock_time_still_ahead_stays_on_same_day() {
    let now = at(NEW_YEAR_2024, 10, 0);
    assert_eq!(resolve("18:00", now), Ok(at(NEW_YEAR_2024, 18, 0)));
}

#[test]
fn clock_time_equal_to_now_rolls_forward() {
    let now = at(NEW_YEAR_2024, 18, 0);
    assert_eq!(resolve("18:00", now), Ok(at(NEW_YEAR_2024 + 1, 18, 0)));
    assert_eq!(get_duration("18:00", now), Ok(86_400));
}

#[test]
fn clock_time_with_seconds() {
    let now = at(NEW_YEAR_2024, 10, 0);
    let want = LocalInstant { day: NEW_YEAR_2024, second: 18 * 3600 + 30 * 60 + 15, nano: 0 };
    assert_eq!(resolve("18:30:15", now), Ok(want));
}

#[test]
fn eight_hours_is_added_exactly() {
    let now = LocalInstant { day: NEW_YEAR_2024, second: 20 * 3600 + 17, nano: 123_456_789 };
    let want = LocalInstant { day: NEW_YEAR_2024 + 1, second: 4 * 3600 + 17, nano: 123_456_789 };
    assert_eq!(resolve("8h", now), Ok(want));
    assert_eq!(get_duration("8h", now), Ok(8 * 3600));
    let morning = at(NEW_YEAR_2024, 9, 30);
    assert_eq!(resolve("8h", morning), Ok(at(NEW_YEAR_2024, 17, 30)));
}

#[test]
fn ninety_minutes() {
    let now = at(NEW_YEAR_2024, 23, 0);
    assert_eq!(resolve("90m", now), Ok(at(NEW_YEAR_2024 + 1, 0, 30)));
    assert_eq!(get_duration("90m", now), Ok(5400));
}

#[test]
fn neither_grammar_is_an_invalid_time_spec() {
    let now = at(NEW_YEAR_2024, 10, 0);
    assert_eq!(resolve("soon", now), Err(ResolveError::InvalidTimeSpec));
    assert_eq!(resolve("", now), Err(ResolveError::InvalidTimeSpec));
    assert_eq!(resolve("25:00", now), Err(ResolveError::InvalidTimeSpec));
    assert_eq!(get_duration("soon", now), Err(ResolveError::InvalidTimeSpec));
    assert_eq!(read_time_spec("soon"), TimeSpec::Unrecognized);
}

#[test]
fn deadline_past_the_last_day_is_out_of_range() {
    let last = at(i32::MAX, 20, 0);
    assert_eq!(resolve("18:00", last), Err(ResolveError::OutOfRange));
    assert_eq!(resolve("8h", last), Err(ResolveError::OutOfRange));
    assert_eq!(resolve("21:00", last), Ok(at(i32::MAX, 21, 0)));
    assert_eq!(resolve("3h", last), Ok(at(i32::MAX, 23, 0)));
    assert_eq!(get_duration("18:00", last), Err(ResolveError::OutOfRange));
}

#[test]
fn readings_of_both_grammars() {
    assert_eq!(read_time_spec("18:00"), TimeSpec::Clock(ClockTime { second: 64_800, nano: 0 }));
    assert_eq!(read_time_spec("00:00:01"), TimeSpec::Clock(ClockTime { second: 1, nano: 0 }));
    assert_eq!(read_time_spec("8h"), TimeSpec::Length(Span { seconds: 28_800, nanos: 0 }));
    assert_eq!(read_time_spec("1500ms"), TimeSpec::Length(Span { seconds: 1, nanos: 500_000_000 }));
}

#[test]
fn leap_second_carries_into_the_next_second() {
    let now = at(NEW_YEAR_2024, 10, 0);
    let leap = ClockTime { second: 86_399, nano: 1_000_000_000 };
    assert_eq!(clock_deadline(leap, now), Ok(at(NEW_YEAR_2024 + 1, 0, 0)));
    let inner = ClockTime { second: 12 * 3600 + 59, nano: 1_500_000_000 };
    let want = LocalInstant { day: NEW_YEAR_2024, second: 12 * 3600 + 60, nano: 500_000_000 };
    assert_eq!(clock_deadline(inner, now), Ok(want));
}

#[test]
fn span_carries_nanoseconds_and_days() {
    let now = LocalInstant { day: 10, second: 86_399, nano: 900_000_000 };
    let span = Span { seconds: 2 * 86_400, nanos: 200_000_000 };
    let want = LocalInstant { day: 13, second: 0, nano: 100_000_000 };
    assert_eq!(span_deadline(span, now), Ok(want));
    assert_eq!(span_deadline(Span { seconds: 0, nanos: 0 }, now), Ok(now));
    assert_eq!(span_deadline(Span { seconds: u64::MAX, nanos: 0 }, now), Err(ResolveError::OutOfRange));
}

#[test]
fn resolve_reading_by_case() {
    let now = at(-5, 12, 0);
    assert_eq!(resolve_reading(TimeSpec::Unrecognized, now), Err(ResolveError::InvalidTimeSpec));
    let clock = TimeSpec::Clock(ClockTime { second: 3600, nano: 0 });
    assert_eq!(resolve_reading(clock, now), Ok(at(-4, 1, 0)));
    let span = TimeSpec::Length(Span { seconds: 43_200, nanos: 0 });
    assert_eq!(resolve_reading(span, now), Ok(at(-4, 0, 0)));
}

#[test]
fn seconds_until_rounds_toward_zero() {
    let now = LocalInstant { day: 100, second: 36_000, nano: 900_000_000 };
    let target = LocalInstant { day: 100, second: 64_800, nano: 0 };
    assert_eq!(seconds_until(now, target), 28_799);
    assert_eq!(seconds_until(target, now), -28_799);
    assert_eq!(seconds_until(now, now), 0);
    let next = LocalInstant { day: 101, second: 36_000, nano: 900_000_000 };
    assert_eq!(seconds_until(now, next), 86_400);
    let first = LocalInstant { day: i32::MIN, second: 0, nano: 0 };
    let last = LocalInstant { day: i32::MAX, second: 86_399, nano: 999_999_999 };
    assert_eq!(seconds_until(first, last), 4_294_967_296 * 86_400 - 1);
}

#[test]
fn new_checks_the_parts() {
    assert_eq!(LocalInstant::new(3, 86_399, 999_999_999), Some(LocalInstant { day: 3, second: 86_399, nano: 999_999_999 }));
    assert_eq!(LocalInstant::new(3, 86_400, 0), None);
    assert_eq!(LocalInstant::new(3, 0, 1_000_000_000), None);
}

#[test]
fn written_leap_second_is_the_start_of_the_next_minute() {
    let now = at(NEW_YEAR_2024, 10, 0);
    assert_eq!(
        read_time_spec("23:59:60"),
        TimeSpec::Clock(ClockTime { second: 86_399, nano: 1_000_000_000 })
    );
    assert_eq!(resolve("23:59:60", now), Ok(at(NEW_YEAR_2024 + 1, 0, 0)));
    assert_eq!(get_duration("23:59:60", now), Ok(14 * 3600));
}

#[test]
fn combined_duration_units() {
    let now = at(NEW_YEAR_2024, 10, 0);
    assert_eq!(resolve("1h30m", now), Ok(at(NEW_YEAR_2024, 11, 30)));
    assert_eq!(resolve("2d", now), Ok(at(NEW_YEAR_2024 + 2, 10, 0)));
    assert_eq!(get_duration("0s", now), Ok(0));
}
