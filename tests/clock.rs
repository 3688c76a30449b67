use rebels::clock::{format_clock, format_date, SystemTimeTick};
use rebels::types::{Tick, DAYS, HOURS, MINUTES, SECONDS};

#[test]
fn test_system_time_conversion() {
    let now = Tick::now();
    let now_as_system_time = now.as_system_time().expect("a present time is representable");
    let now_as_tick = Tick::from_system_time(now_as_system_time);
    assert_eq!(now, now_as_tick);
}

#[test]
fn test_formatted_as_time() {
    let time = 10 * SECONDS;
    let formatted = time.formatted();
    assert_eq!(formatted, "00:00:10");
}

#[test]
fn formatted_zero() {
    assert_eq!((0 as Tick).formatted(), "00:00:00");
}

#[test]
fn formatted_with_days() {
    let time = 2 * DAYS + 3 * HOURS + 4 * MINUTES + 5 * SECONDS + 999;
    assert_eq!(time.formatted(), "2d 03:04:05");
}

#[test]
fn formatted_with_years() {
    // one mean year is 365 days and 5:49:12
    let time = 31_556_952 * SECONDS;
    assert_eq!(time.formatted(), "1y 0d 05:49:12");
    let later = time + 40 * DAYS;
    assert_eq!(later.formatted(), "1y 40d 05:49:12");
}

#[test]
fn formatted_large_hours_wrap() {
    let time = 23 * HOURS + 59 * MINUTES + 59 * SECONDS;
    assert_eq!(time.formatted(), "23:59:59");
    assert_eq!((time + SECONDS).formatted(), "1d 00:00:00");
}

#[test]
fn unit_conversions() {
    let t: Tick = 3 * DAYS + 5 * HOURS + 7 * MINUTES + 11 * SECONDS + 13;
    assert_eq!(t.as_secs(), 3 * 86400 + 5 * 3600 + 7 * 60 + 11);
    assert_eq!(t.as_minutes(), 3 * 1440 + 5 * 60 + 7);
    assert_eq!(t.as_hours(), 3 * 24 + 5);
    assert_eq!(t.as_days(), 3);
}

#[test]
fn clock_is_zero_padded() {
    assert_eq!(format_clock(7, 5, 30), "07:05:30");
    assert_eq!(format_clock(12, 45, 9), "12:45:09");
}

#[test]
fn local_time_has_clock_shape() {
    let text = (1_700_000_000_000 as Tick).formatted_as_time().unwrap();
    let parts: Vec<&str> = text.split(':').collect();
    assert_eq!(parts.len(), 3);
    assert!(parts.iter().all(|p| p.len() == 2));
    assert!(parts[0].parse::<u32>().unwrap() < 24);
    assert!(parts[1].parse::<u32>().unwrap() < 60);
    assert!(parts[2].parse::<u32>().unwrap() < 60);
}

#[test]
fn system_time_round_trip_of_fixed_tick() {
    let t: Tick = 1_234_567_890_123;
    assert_eq!(Tick::from_system_time(t.as_system_time().unwrap()), t);
    assert!((u64::MAX as Tick + 1).as_system_time().is_none());
}

#[test]
fn date_is_day_month_year() {
    assert_eq!(format_date(5, 3, 2024, 7, 8, 9), "5/3/2024 07:08:09");
    assert_eq!(format_date(31, 12, -12, 23, 0, 59), "31/12/-12 23:00:59");
}

#[test]
fn local_date_is_offset_and_shaped() {
    let t: Tick = 1_700_000_000_000;
    let plain = t.formatted_as_date(0).unwrap();
    let shifted = t.formatted_as_date(100).unwrap();
    let year = |text: &str| text.split(' ').next().unwrap().split('/').nth(2).unwrap().parse::<i64>().unwrap();
    assert_eq!(year(&shifted), year(&plain) + 100);
    assert!(year(&plain) == 2023 || year(&plain) == 2024);
}

#[test]
fn ticks_beyond_the_calendar_have_no_date() {
    let far: Tick = u128::MAX;
    assert!(far.formatted_as_time().is_none());
    assert!(far.formatted_as_date(0).is_none());
    let past_chrono: Tick = 9_000_000_000_000_000;
    assert!(past_chrono.formatted_as_time().is_none());
}
