use eorzea_bot::clock::{parse_hour_minute, time_to_eorzea, try_time_to_eorzea, within_time};

#[test]
fn parses_two_digit_hour_and_minute() {
    assert_eq!(parse_hour_minute("05:30"), Some(5 * 3600 + 30 * 60));
    assert_eq!(parse_hour_minute("00:00"), Some(0));
    assert_eq!(parse_hour_minute("23:59"), Some(23 * 3600 + 59 * 60));
}

#[test]
fn rejects_times_out_of_range_or_malformed() {
    assert_eq!(parse_hour_minute("24:00"), None);
    assert_eq!(parse_hour_minute("12:60"), None);
    assert_eq!(parse_hour_minute("noon"), None);
    assert_eq!(parse_hour_minute("12:00:00"), None);
    assert_eq!(parse_hour_minute(""), None);
}

#[test]
fn within_time_includes_both_ends() {
    let start = 8 * 3600;
    let end = 10 * 3600;
    assert!(within_time(start, end, start));
    assert!(within_time(start, end, end));
    assert!(within_time(start, end, 9 * 3600));
    assert!(!within_time(start, end, start - 1));
    assert!(!within_time(start, end, end + 1));
}

#[test]
fn window_past_midnight_holds_on_both_sides_of_midnight() {
    let start = 22 * 3600;
    let end = 2 * 3600;
    assert!(within_time(start, end, 23 * 3600));
    assert!(within_time(start, end, 3600));
    assert!(within_time(start, end, 0));
    assert!(within_time(start, end, 22 * 3600));
    assert!(within_time(start, end, 2 * 3600));
    assert!(!within_time(start, end, 2 * 3600 + 1));
    assert!(!within_time(start, end, 12 * 3600));
    assert!(!within_time(start, end, 22 * 3600 - 1));
}

#[test]
fn window_and_its_reverse_cover_the_day() {
    let (a, b) = (8 * 3600, 10 * 3600);
    for now in [0u32, a - 1, a, 9 * 3600, b, b + 1, 86399] {
        assert!(within_time(a, b, now) || within_time(b, a, now));
    }
}

#[test]
fn eorzea_clock_values() {
    assert_eq!(time_to_eorzea(0), 0);
    assert_eq!(time_to_eorzea(1), 20);
    assert_eq!(time_to_eorzea(174), 3579);
    assert_eq!(time_to_eorzea(175), 3600);
    assert_eq!(time_to_eorzea(1_700_000_000), 78171);
}

#[test]
fn eorzea_clock_before_the_epoch_rounds_towards_zero() {
    assert_eq!(time_to_eorzea(-1), 86380);
    assert_eq!(time_to_eorzea(-175), 82800);
    assert_eq!(time_to_eorzea(-176), 82780);
}

#[test]
fn eorzea_hour_every_175_seconds() {
    for t in [0i64, 1, 1000, 123_456, 1_700_000_000] {
        assert_eq!(time_to_eorzea(t + 175), (time_to_eorzea(t) + 3600) % 86400);
    }
}

#[test]
fn eorzea_day_is_70_real_minutes() {
    assert_eq!(time_to_eorzea(4200), 0);
    assert_eq!(time_to_eorzea(4200 + 175), 3600);
}

#[test]
fn checked_eorzea_clock() {
    assert_eq!(try_time_to_eorzea(175), Some(3600));
    assert_eq!(try_time_to_eorzea(1_700_000_000), Some(78171));
    assert_eq!(try_time_to_eorzea(i64::MAX), None);
    assert_eq!(try_time_to_eorzea(i64::MIN), None);
    // The last real timestamps whose Eorzean timestamp chrono still holds.
    assert!(try_time_to_eorzea(399110195399).is_some());
    assert_eq!(try_time_to_eorzea(399110195400), None);
    assert!(try_time_to_eorzea(-405154226400).is_some());
    assert_eq!(try_time_to_eorzea(-405154226401), None);
}
