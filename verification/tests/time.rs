use observer::time::{Interval, Timestamp, EARLIEST_SEC, LATEST_SEC};

#[test]
fn interval_holds_seconds_and_nanoseconds() {
    let d = Interval::new(3, 250);
    assert_eq!(d.as_secs(), 3);
    assert_eq!(d.subsec_nanos(), 250);
}

#[test]
fn interval_carries_whole_seconds_out_of_the_nanoseconds() {
    let d = Interval::new(1, 2_500_000_000);
    assert_eq!(d.as_secs(), 3);
    assert_eq!(d.subsec_nanos(), 500_000_000);
}

#[test]
fn interval_stops_at_the_longest() {
    let d = Interval::new(u64::MAX, 1_000_000_000);
    assert_eq!(d.as_secs(), u64::MAX);
    assert_eq!(d.subsec_nanos(), 999_999_999);
}

#[test]
fn interval_zero_has_no_length() {
    assert_eq!(Interval::zero(), Interval::new(0, 0));
}

#[test]
fn interval_between_two_moments() {
    let start = Timestamp::new(10, 900_000_000);
    let end = Timestamp::new(12, 100_000_000);
    assert_eq!(Interval::between(start, end), Interval::new(1, 200_000_000));
    assert_eq!(Interval::between(start, start), Interval::zero());
}

#[test]
fn interval_between_is_none_when_the_end_is_earlier() {
    let start = Timestamp::new(12, 0);
    let end = Timestamp::new(11, 999_999_999);
    assert_eq!(Interval::between(start, end), Interval::zero());
}

#[test]
fn interval_between_the_ends_of_the_range() {
    let start = Timestamp::new(i64::MIN, 0);
    let end = Timestamp::new(i64::MAX, 0);
    let d = Interval::between(start, end);
    assert_eq!(d.as_secs(), (LATEST_SEC - EARLIEST_SEC) as u64);
    assert_eq!(d.subsec_nanos(), 999_999_999);
}

#[test]
fn interval_compares_by_length() {
    let short = Interval::new(1, 999_999_999);
    let long = Interval::new(2, 0);
    assert!(long.exceeds(&short));
    assert!(!short.exceeds(&long));
    assert!(!short.exceeds(&short));
    assert_eq!(short.longer(long), long);
    assert_eq!(long.longer(short), long);
}

#[test]
fn timestamp_holds_seconds_and_nanoseconds() {
    let t = Timestamp::new(1_600_000_000, 123);
    assert_eq!(t.secs(), 1_600_000_000);
    assert_eq!(t.subsec_nanos(), 123);
    let before = Timestamp::new(-1, 999_999_999);
    assert_eq!(before.secs(), -1);
    assert_eq!(before.subsec_nanos(), 999_999_999);
}

#[test]
fn timestamp_carries_whole_seconds_out_of_the_nanoseconds() {
    let t = Timestamp::new(59, 1_000_000_001);
    assert_eq!(t.secs(), 60);
    assert_eq!(t.subsec_nanos(), 1);
}

#[test]
fn timestamp_is_moved_into_the_years_it_can_write() {
    let late = Timestamp::new(LATEST_SEC + 1, 0);
    assert_eq!(late.secs(), LATEST_SEC);
    assert_eq!(late.subsec_nanos(), 999_999_999);
    let carried = Timestamp::new(LATEST_SEC, 1_000_000_000);
    assert_eq!(carried, late);
    let early = Timestamp::new(EARLIEST_SEC - 1, 999_999_999);
    assert_eq!(early.secs(), EARLIEST_SEC);
    assert_eq!(early.subsec_nanos(), 0);
    assert_eq!(Timestamp::new(i64::MAX, u32::MAX), late);
    assert_eq!(Timestamp::new(i64::MIN, u32::MAX), early);
}

#[test]
fn timestamp_writes_rfc3339() {
    assert_eq!(Timestamp::new(0, 0).to_rfc3339(), "1970-01-01T00:00:00+00:00");
    assert_eq!(Timestamp::new(1_600_000_000, 0).to_rfc3339(), "2020-09-13T12:26:40+00:00");
    assert_eq!(
        Timestamp::new(1_600_000_000, 120_000_000).to_rfc3339(),
        "2020-09-13T12:26:40.120+00:00"
    );
}

#[test]
fn timestamp_writes_the_ends_of_its_range() {
    assert_eq!(Timestamp::new(EARLIEST_SEC, 0).to_rfc3339(), "0000-01-01T00:00:00+00:00");
    assert_eq!(
        Timestamp::new(LATEST_SEC, 999_999_999).to_rfc3339(),
        "9999-12-31T23:59:59.999999999+00:00"
    );
    assert_eq!(Timestamp::new(i64::MIN, 0).to_rfc3339(), "0000-01-01T00:00:00+00:00");
}

#[test]
fn timestamp_now_is_after_the_year_2020() {
    let now = Timestamp::now();
    assert!(now.secs() > 1_577_836_800);
    assert!(now.subsec_nanos() < 1_000_000_000);
}
