use std::time::Duration;

use kecs::amount::count_of;
use kecs::error::{CliError, CliErrorKind};
use kecs::text::decimal_string;
use kecs::util::{humanize_duration, humanize_seconds};

#[test]
fn a_duration_is_said_in_hours_minutes_and_seconds() {
    assert_eq!(humanize_duration(Duration::from_secs(3723)), "1h 2m 3s");
    assert_eq!(humanize_duration(Duration::from_secs(86399)), "23h 59m 59s");
    assert_eq!(humanize_duration(Duration::from_secs(360000)), "100h");
}

#[test]
fn units_of_which_there_are_none_are_left_out() {
    assert_eq!(humanize_duration(Duration::from_secs(0)), "");
    assert_eq!(humanize_duration(Duration::from_secs(1)), "1s");
    assert_eq!(humanize_duration(Duration::from_secs(59)), "59s");
    assert_eq!(humanize_duration(Duration::from_secs(60)), "1m");
    assert_eq!(humanize_duration(Duration::from_secs(61)), "1m 1s");
    assert_eq!(humanize_duration(Duration::from_secs(3600)), "1h");
    assert_eq!(humanize_duration(Duration::from_secs(3603)), "1h 3s");
    assert_eq!(humanize_duration(Duration::from_secs(3660)), "1h 1m");
}

#[test]
fn a_duration_is_said_to_the_second() {
    assert_eq!(humanize_duration(Duration::from_millis(999)), "");
    assert_eq!(humanize_duration(Duration::from_millis(1999)), "1s");
    assert_eq!(humanize_duration(Duration::new(61, 999_999_999)), "1m 1s");
}

#[test]
fn the_longest_duration_is_said_too() {
    assert_eq!(humanize_seconds(u64::MAX), "5124095576030431h 15s");
    assert_eq!(humanize_duration(Duration::from_secs(u64::MAX)), "5124095576030431h 15s");
}

#[test]
fn numbers_are_written_in_decimal() {
    assert_eq!(decimal_string(0), "0");
    assert_eq!(decimal_string(7), "7");
    assert_eq!(decimal_string(10), "10");
    assert_eq!(decimal_string(1203), "1203");
    assert_eq!(decimal_string(9_999_999_999), "9999999999");
    assert_eq!(decimal_string(u64::MAX), "18446744073709551615");
    for n in [1u64, 9, 11, 99, 100, 101, 65_535, 1 << 40] {
        assert_eq!(decimal_string(n), n.to_string());
    }
}

#[test]
fn counts_stop_at_the_largest_count() {
    assert_eq!(count_of(0), 0);
    assert_eq!(count_of(5), 5);
    assert_eq!(count_of(u32::MAX as usize), u32::MAX);
    if usize::BITS > 32 {
        assert_eq!(count_of(u32::MAX as usize + 1), u32::MAX);
        assert_eq!(count_of(usize::MAX), u32::MAX);
    }
}

#[test]
fn an_error_ends_the_process_with_its_code() {
    assert_eq!(CliErrorKind::Other.exit_code(), 101);
    let e = CliError::other("no such luck".to_string());
    assert_eq!(e.kind, CliErrorKind::Other);
    assert_eq!(e.description, "no such luck");
    assert_eq!(e.kind.exit_code(), 101);
}

#[test]
fn a_file_that_was_not_found_is_named() {
    let e = CliError::file_not_found("/data/set.json");
    assert_eq!(e.kind, CliErrorKind::Other);
    assert_eq!(e.description, "File not found: /data/set.json");
}
