use khal_notify::adapter::build_khal_args;
use khal_notify::adapter::target_civil;
use khal_notify::calendar::civil_from_day_number;
use khal_notify::calendar::day_number_x;
use khal_notify::calendar::is_leap_year_x;
use khal_notify::calendar::render_pattern;
use khal_notify::errors::PatternError;
use khal_notify::errors::QueryError;
use khal_notify::errors::TimeError;
use khal_notify::resolver::resolve_target;
use khal_notify::resolver::TimeTarget;

#[test]
fn relative_token_adds_minutes_to_now() {
    let now: i64 = 1_000_000;
    let t = resolve_target("10", 9, now).unwrap();
    assert_eq!(t.epoch_minutes, now + 10);
    assert_eq!(t.offset_hours, 9);
}

#[test]
fn relative_token_independent_of_offset() {
    let now: i64 = 123_456;
    let a = resolve_target("25", -5, now).unwrap();
    let b = resolve_target("25", 13, now).unwrap();
    assert_eq!(a.epoch_minutes, b.epoch_minutes);
    assert_eq!(a.epoch_minutes, now + 25);
}

#[test]
fn default_minute_offset_applies() {
    let now: i64 = 29_000_000;
    let t = resolve_target("10", 9, now).unwrap();
    assert_eq!(t.epoch_minutes, now + 10);
}

#[test]
fn absolute_token_resolves_exactly() {
    let t = resolve_target("2024-03-05 14:30", 9, 0).unwrap();
    let day = day_number_x(2024, 3, 5) as i64;
    assert_eq!(t.epoch_minutes, day * 1440 + 14 * 60 + 30 - 9 * 60);
}

#[test]
fn absolute_token_is_offset_aware() {
    let a = resolve_target("2024-03-05 14:30", 0, 0).unwrap();
    let b = resolve_target("2024-03-05 14:30", 9, 0).unwrap();
    assert_eq!(a.epoch_minutes - b.epoch_minutes, 9 * 60);
}

#[test]
fn malformed_datetime_is_rejected() {
    assert_eq!(
        resolve_target("2024-13-05 14:30", 9, 0).unwrap_err(),
        TimeError::InvalidDateTime
    );
    assert_eq!(
        resolve_target("2024-02-30 10:00", 9, 0).unwrap_err(),
        TimeError::InvalidDateTime
    );
    assert_eq!(
        resolve_target("soon 10:00", 9, 0).unwrap_err(),
        TimeError::InvalidDateTime
    );
}

#[test]
fn malformed_minutes_are_rejected() {
    assert_eq!(
        resolve_target("ten", 9, 0).unwrap_err(),
        TimeError::InvalidOffsetMinutes
    );
    assert_eq!(
        resolve_target("", 9, 0).unwrap_err(),
        TimeError::InvalidOffsetMinutes
    );
    assert_eq!(
        resolve_target("99999999999999999999999", 9, 0).unwrap_err(),
        TimeError::InvalidOffsetMinutes
    );
}

#[test]
fn out_of_range_offset_is_rejected() {
    assert_eq!(resolve_target("10", 24, 0).unwrap_err(), TimeError::InvalidOffset);
    assert_eq!(resolve_target("10", -25, 0).unwrap_err(), TimeError::InvalidOffset);
    assert!(resolve_target("10", -24, 0).is_ok());
    assert!(resolve_target("10", 23, 0).is_ok());
}

#[test]
fn leap_years_follow_gregorian_rules() {
    assert!(is_leap_year_x(2000));
    assert!(is_leap_year_x(2024));
    assert!(!is_leap_year_x(1900));
    assert!(!is_leap_year_x(2023));
}

#[test]
fn day_number_round_trips() {
    for &(y, m, d) in &[
        (1970u16, 1u8, 1u8),
        (2024, 2, 29),
        (2024, 3, 1),
        (9999, 12, 31),
        (2000, 12, 31),
    ] {
        let z = day_number_x(y, m, d) as u64;
        assert_eq!(civil_from_day_number(z), Some((y, m, d)));
    }
}

#[test]
fn epoch_day_zero_is_nineteen_seventy() {
    assert_eq!(civil_from_day_number(0), Some((1970, 1, 1)));
}

#[test]
fn render_pattern_supports_iso_and_clock_forms() {
    assert_eq!(render_pattern("%F", 2024, 3, 5, 14, 30).unwrap(), "2024-03-05");
    assert_eq!(render_pattern("%R", 2024, 3, 5, 14, 30).unwrap(), "14:30");
    assert_eq!(
        render_pattern("%Y/%m/%d %H:%M", 2024, 3, 5, 9, 5).unwrap(),
        "2024/03/05 09:05"
    );
    assert_eq!(render_pattern("100%%", 2024, 3, 5, 9, 5).unwrap(), "100%");
}

#[test]
fn render_pattern_rejects_malformed_patterns() {
    assert_eq!(
        render_pattern("%q", 2024, 3, 5, 14, 30).unwrap_err(),
        PatternError::InvalidPattern
    );
    assert_eq!(
        render_pattern("trailing%", 2024, 3, 5, 14, 30).unwrap_err(),
        PatternError::InvalidPattern
    );
}

#[test]
fn target_civil_shifts_into_offset() {
    // 2024-03-05 14:30 local at +9 resolves and renders back the same.
    let t = resolve_target("2024-03-05 14:30", 9, 0).unwrap();
    let c = target_civil(&t).unwrap();
    assert_eq!((c.year, c.month, c.day, c.hour, c.minute), (2024, 3, 5, 14, 30));
}

#[test]
fn target_before_epoch_is_out_of_range() {
    let t = TimeTarget { epoch_minutes: -100_000, offset_hours: 0 };
    assert_eq!(target_civil(&t).unwrap_err(), QueryError::TargetOutOfRange);
}

#[test]
fn khal_arguments_are_complete_and_ordered() {
    let t = resolve_target("2024-03-05 14:30", 9, 0).unwrap();
    let c = target_civil(&t).unwrap();
    let args = build_khal_args("/home/u/.config/khal/config", "%F", "%R", &c).unwrap();
    let expected: Vec<String> = [
        "--config",
        "/home/u/.config/khal/config",
        "at",
        "2024-03-05",
        "14:30",
        "--notstarted",
        "--json",
        "title",
        "--json",
        "description",
        "--json",
        "start-end-time-style",
        "--json",
        "repeat-symbol",
        "--json",
        "all-day",
    ]
    .iter()
    .map(|s| s.to_string())
    .collect();
    assert_eq!(args, expected);
}

#[test]
fn bad_display_pattern_fails_query_build() {
    let t = resolve_target("2024-03-05 14:30", 9, 0).unwrap();
    let c = target_civil(&t).unwrap();
    assert_eq!(
        build_khal_args("cfg", "%Z", "%R", &c).unwrap_err(),
        QueryError::InvalidPattern
    );
}

#[test]
fn pre_epoch_datetime_resolves_exactly() {
    let t = resolve_target("1969-12-31 23:00", 0, 0).unwrap();
    assert_eq!(t.epoch_minutes, -60);
    let s = resolve_target("1969-12-31 23:00", 9, 0).unwrap();
    assert_eq!(s.epoch_minutes, -60 - 9 * 60);
    assert!(resolve_target("0000-01-01 00:00", 0, 0).is_ok());
}

#[test]
fn day_numbers_before_epoch_are_negative() {
    assert_eq!(day_number_x(1969, 12, 31), -1);
    assert_eq!(day_number_x(1969, 1, 1), -365);
    assert_eq!(day_number_x(1968, 1, 1), -731);
}

#[test]
fn pre_epoch_target_is_not_renderable() {
    let t = resolve_target("1969-12-31 23:00", 0, 0).unwrap();
    assert_eq!(target_civil(&t).unwrap_err(), QueryError::TargetOutOfRange);
}

#[test]
fn render_pattern_supports_named_and_padded_forms() {
    assert_eq!(render_pattern("%d %b %y", 2024, 3, 5, 14, 30).unwrap(), "05 Mar 24");
    assert_eq!(
        render_pattern("%e %B %Y", 2024, 3, 5, 14, 30).unwrap(),
        " 5 March 2024"
    );
    assert_eq!(render_pattern("%e", 2024, 3, 15, 0, 0).unwrap(), "15");
}
