use endbasic_store::text::{push_decimal, push_natural};
use endbasic_store::timestamp::{leap_year, Timestamp, UNIX_SECONDS_SPAN};

#[test]
fn test_leap_year() {
    assert!(!leap_year(1900));
    assert!(leap_year(2000));
    assert!(leap_year(2004));
    assert!(!leap_year(2005));
    assert!(!leap_year(2100));
    assert!(leap_year(0));
    assert!(leap_year(-4));
    assert!(!leap_year(-100));
    assert!(leap_year(-400));
    assert!(!leap_year(-1));
    for year in -2_000..2_000 {
        assert_eq!(time::is_leap_year(year), leap_year(year));
    }
}

#[test]
fn test_timestamp_from_parts() {
    assert_eq!(
        Some(Timestamp { year: 1970, ordinal: 1, second: 1234, nanosecond: 0 }),
        Timestamp::from_parts(1970, 1, 1234, 0)
    );
    assert_eq!(
        Some(Timestamp { year: 2020, ordinal: 366, second: 86_399, nanosecond: 999_999_999 }),
        Timestamp::from_parts(2020, 366, 86_399, 999_999_999)
    );
    assert_eq!(None, Timestamp::from_parts(2021, 366, 0, 0));
    assert_eq!(None, Timestamp::from_parts(2021, 0, 0, 0));
    assert_eq!(None, Timestamp::from_parts(100_001, 1, 0, 0));
    assert_eq!(None, Timestamp::from_parts(-100_001, 1, 0, 0));
    assert!(Timestamp::from_parts(100_000, 366, 0, 0).is_some());
    assert!(Timestamp::from_parts(-100_000, 366, 0, 0).is_some());
}

#[test]
fn test_timestamp_from_parts_wraps_the_time() {
    assert_eq!(
        Some(Timestamp { year: 1970, ordinal: 1, second: 0, nanosecond: 0 }),
        Timestamp::from_parts(1970, 1, 86_400, 0)
    );
    assert_eq!(
        Some(Timestamp { year: 1970, ordinal: 1, second: 2, nanosecond: 5 }),
        Timestamp::from_parts(1970, 1, 86_400, 2_000_000_005)
    );
    assert_eq!(
        Some(Timestamp { year: 1970, ordinal: 1, second: 23_299, nanosecond: 294_967_295 }),
        Timestamp::from_parts(1970, 1, u32::MAX, u32::MAX)
    );
}

#[test]
fn test_timestamp_from_unix_timestamp() {
    assert_eq!(
        Some(Timestamp { year: 1970, ordinal: 1, second: 0, nanosecond: 0 }),
        Timestamp::from_unix_timestamp(0)
    );
    assert_eq!(
        Some(Timestamp { year: 1970, ordinal: 1, second: 1234, nanosecond: 0 }),
        Timestamp::from_unix_timestamp(1234)
    );
    assert_eq!(
        Some(Timestamp { year: 1970, ordinal: 15, second: 24_967, nanosecond: 0 }),
        Timestamp::from_unix_timestamp(1_234_567)
    );
    assert_eq!(
        Some(Timestamp { year: 2001, ordinal: 109, second: 15_921, nanosecond: 0 }),
        Timestamp::from_unix_timestamp(987_654_321)
    );
    assert_eq!(
        Some(Timestamp { year: 1969, ordinal: 365, second: 86_399, nanosecond: 0 }),
        Timestamp::from_unix_timestamp(-1)
    );
}

#[test]
fn test_timestamp_from_unix_timestamp_limits() {
    assert_eq!(None, Timestamp::from_unix_timestamp(UNIX_SECONDS_SPAN + 1));
    assert_eq!(None, Timestamp::from_unix_timestamp(-UNIX_SECONDS_SPAN - 1));
    assert_eq!(None, Timestamp::from_unix_timestamp(i64::MAX));
    assert_eq!(None, Timestamp::from_unix_timestamp(i64::MIN));
    let last = Timestamp::from_unix_timestamp(UNIX_SECONDS_SPAN).unwrap();
    assert_eq!(97_036, last.year);
    let first = Timestamp::from_unix_timestamp(-UNIX_SECONDS_SPAN).unwrap();
    assert_eq!(-93_097, first.year);
}

#[test]
fn test_timestamp_agrees_with_time() {
    for seconds in [0_i64, 59, 86_399, 86_400, 951_782_400, 1_609_459_199, -86_401, 4_102_444_800] {
        let theirs = time::OffsetDateTime::from_unix_timestamp(seconds);
        let ours = Timestamp::from_unix_timestamp(seconds).unwrap();
        assert_eq!(theirs.year(), ours.year);
        assert_eq!(theirs.ordinal(), ours.ordinal);
        assert_eq!(serde_json::to_string(&theirs).unwrap(), format!(
            "[{},{},{},{}]",
            ours.year, ours.ordinal, ours.second, ours.nanosecond
        ));
    }
}

#[test]
fn test_push_decimal() {
    let mut text = String::from("n=");
    push_natural(&mut text, 0);
    push_natural(&mut text, 7);
    push_natural(&mut text, 10);
    push_natural(&mut text, u64::MAX);
    assert_eq!("n=071018446744073709551615", text);

    let mut text = String::new();
    for n in [0, -1, 9, -10, 1970, i64::MAX, i64::MIN] {
        push_decimal(&mut text, n);
        text.push(' ');
    }
    assert_eq!("0 -1 9 -10 1970 9223372036854775807 -9223372036854775808 ", text);
}
