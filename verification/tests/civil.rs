use salesforce_exporter::civil::{days_since_epoch, micros_since_midnight, CivilDate, CivilTime};

fn days(year: i16, month: i8, day: i8) -> i32 {
    days_since_epoch(CivilDate { year, month, day })
}

fn micros(hour: i8, minute: i8, second: i8, subsec_nanosecond: i32) -> i64 {
    micros_since_midnight(CivilTime { hour, minute, second, subsec_nanosecond })
}

#[test]
fn days_count_from_the_epoch() {
    assert_eq!(days(1970, 1, 1), 0);
    assert_eq!(days(1970, 1, 2), 1);
    assert_eq!(days(1969, 12, 31), -1);
    assert_eq!(days(2000, 2, 29), 11_016);
    assert_eq!(days(2024, 3, 1), 19_783);
}

#[test]
fn days_reach_the_ends_of_the_calendar() {
    assert_eq!(days(9999, 12, 31), 2_932_896);
    assert_eq!(days(-9999, 1, 1), -4_371_587);
    assert_eq!(days(0, 1, 1), -719_528);
    assert_eq!(days(0, 3, 1), -719_468);
    assert_eq!(days(-4, 2, 29), -720_930);
}

#[test]
fn each_day_counts_one_more() {
    assert_eq!(days(2023, 3, 1) - days(2023, 2, 28), 1);
    assert_eq!(days(2024, 3, 1) - days(2024, 2, 28), 2);
    assert_eq!(days(1900, 3, 1) - days(1900, 2, 28), 1);
    assert_eq!(days(2025, 1, 1) - days(2024, 12, 31), 1);
}

#[test]
fn earlier_dates_have_smaller_counts() {
    assert!(days(1999, 12, 31) < days(2000, 1, 1));
    assert!(days(-1, 12, 31) < days(0, 1, 1));
    assert!(days(2020, 1, 31) < days(2020, 2, 1));
}

#[test]
fn micros_count_from_midnight() {
    assert_eq!(micros(0, 0, 0, 0), 0);
    assert_eq!(micros(0, 0, 1, 0), 1_000_000);
    assert_eq!(micros(1, 2, 3, 4_005), 3_723_000_004);
    assert_eq!(micros(23, 59, 59, 999_999_999), 86_399_999_999);
}

#[test]
fn later_times_have_no_smaller_counts() {
    assert!(micros(1, 0, 0, 0) > micros(0, 59, 59, 999_999_999));
    assert_eq!(micros(1, 0, 0, 999), micros(1, 0, 0, 0));
}
