use mpris::extensions::{as_micros, as_millis, from_micros_ext};
use std::time::Duration;

#[test]
fn it_constructs_durations_from_micros() {
    let expected = Duration::new(5, 543_210_000);
    let actual = from_micros_ext(5_543_210);
    assert_eq!(actual, expected);
}

#[test]
fn it_calculates_whole_millis_from_durations() {
    let duration = Duration::new(5, 543_210_000);
    assert_eq!(as_millis(&duration), 5543);
}

#[test]
fn it_calculates_whole_micros_from_durations() {
    let duration = Duration::new(5, 543_210_000);
    assert_eq!(as_micros(&duration), 5_543_210);
}

#[test]
fn no_micros_make_an_empty_duration() {
    assert_eq!(from_micros_ext(0), Duration::new(0, 0));
}

#[test]
fn micros_below_a_second_keep_the_seconds_at_zero() {
    assert_eq!(from_micros_ext(999_999), Duration::new(0, 999_999_000));
}

#[test]
fn a_million_micros_make_a_second() {
    assert_eq!(from_micros_ext(1_000_000), Duration::new(1, 0));
}

#[test]
fn the_largest_count_of_micros_makes_a_duration() {
    let duration = from_micros_ext(u64::MAX);
    assert_eq!(duration, Duration::new(18_446_744_073_709, 551_615_000));
    assert_eq!(as_micros(&duration), u64::MAX);
}

#[test]
fn millis_drop_what_is_below_a_millisecond() {
    assert_eq!(as_millis(&Duration::new(0, 999_999)), 0);
    assert_eq!(as_millis(&Duration::new(0, 1_000_000)), 1);
    assert_eq!(as_millis(&Duration::new(2, 999_999_999)), 2999);
}

#[test]
fn micros_drop_what_is_below_a_microsecond() {
    assert_eq!(as_micros(&Duration::new(0, 999)), 0);
    assert_eq!(as_micros(&Duration::new(0, 1_000)), 1);
    assert_eq!(as_micros(&Duration::new(2, 999_999_999)), 2_999_999);
}

#[test]
fn micros_survive_the_way_there_and_back() {
    assert_eq!(as_micros(&from_micros_ext(86_400_000_001)), 86_400_000_001);
    assert_eq!(as_millis(&from_micros_ext(86_400_000_001)), 86_400_000);
}
