use stream_linker::error::RunError;
use stream_linker::instant::{read_instant, Instant, TimeInterval, NANOS_PER_SECOND};
use stream_linker::link::build_link;

fn at(secs: i64) -> Instant {
    Instant::new(secs, 0)
}

#[test]
fn read_instant_of_a_utc_timestamp() {
    assert_eq!(read_instant("2023-04-01T10:05:00+00:00"), Ok(Instant { secs: 1_680_343_500, nanos: 0 }));
}

#[test]
fn read_instant_takes_the_offset_into_account() {
    assert_eq!(read_instant("2023-04-01T10:05:00+09:00"), Ok(Instant { secs: 1_680_311_100, nanos: 0 }));
    assert_eq!(read_instant("2023-04-01T10:05:00-01:30"), Ok(Instant { secs: 1_680_348_900, nanos: 0 }));
}

#[test]
fn read_instant_accepts_the_letter_z() {
    assert_eq!(read_instant("2023-04-01T10:00:00Z"), Ok(Instant { secs: 1_680_343_200, nanos: 0 }));
}

#[test]
fn read_instant_keeps_the_fraction() {
    assert_eq!(
        read_instant("2023-04-01T10:00:00.001Z"),
        Ok(Instant { secs: 1_680_343_200, nanos: 1_000_000 })
    );
    assert_eq!(
        read_instant("2023-04-01T10:00:00.123456789Z"),
        Ok(Instant { secs: 1_680_343_200, nanos: 123_456_789 })
    );
}

#[test]
fn read_instant_of_the_epoch_and_before() {
    assert_eq!(read_instant("1970-01-01T00:00:00Z"), Ok(Instant { secs: 0, nanos: 0 }));
    assert_eq!(read_instant("1969-12-31T23:59:59Z"), Ok(Instant { secs: -1, nanos: 0 }));
    assert_eq!(
        read_instant("1969-12-31T23:59:59.5Z"),
        Ok(Instant { secs: -1, nanos: 500_000_000 })
    );
}

#[test]
fn read_instant_is_not_the_identity_on_its_text() {
    let read = read_instant("2016-12-31T23:59:59+00:00").unwrap();
    assert_eq!(read.secs, 1_483_228_799);
    assert_eq!(read.nanos, 0);
}

#[test]
fn read_instant_rejects_what_is_no_timestamp() {
    assert_eq!(read_instant(""), Err(RunError::MalformedTimestamp));
    assert_eq!(read_instant("yesterday"), Err(RunError::MalformedTimestamp));
    assert_eq!(read_instant("2023-04-01"), Err(RunError::MalformedTimestamp));
    assert_eq!(read_instant("2023-04-01T10:05:00"), Err(RunError::MalformedTimestamp));
    assert_eq!(read_instant("2023-13-01T10:05:00Z"), Err(RunError::MalformedTimestamp));
    assert_eq!(read_instant("2023-04-01T25:05:00Z"), Err(RunError::MalformedTimestamp));
    assert_eq!(read_instant("2023-04-01T10:05:00Z trailing"), Err(RunError::MalformedTimestamp));
}

#[test]
fn is_before_is_strict() {
    assert!(at(1).is_before(&at(2)));
    assert!(!at(2).is_before(&at(1)));
    assert!(!at(2).is_before(&at(2)));
    assert!(Instant::new(2, 0).is_before(&Instant::new(2, 1)));
}

#[test]
fn is_before_goes_by_seconds_then_nanoseconds() {
    let leap = Instant::new(1, 1_000_000_000);
    let next = Instant::new(2, 0);
    assert!(leap.is_before(&next));
    assert!(!next.is_before(&leap));
    assert!(Instant::new(1, 999_999_999).is_before(&leap));
    assert!(!leap.is_before(&leap));
}

#[test]
fn day_second_counts_from_midnight() {
    assert_eq!(Instant::new(0, 0).day_second(), 0);
    assert_eq!(Instant::new(86_399, 0).day_second(), 86_399);
    assert_eq!(Instant::new(86_400, 0).day_second(), 0);
    assert_eq!(Instant::new(1_680_343_500, 0).day_second(), 10 * 3600 + 5 * 60);
    assert_eq!(Instant::new(-1, 0).day_second(), 86_399);
    assert_eq!(Instant::new(-86_400, 0).day_second(), 0);
    assert_eq!(Instant::new(-86_401, 5).day_second(), 86_399);
    assert_eq!(Instant::new(i64::MAX, 0).day_second(), i64::MAX.rem_euclid(86_400));
    assert_eq!(Instant::new(i64::MIN, 0).day_second(), i64::MIN.rem_euclid(86_400));
}

#[test]
fn seconds_since_counts_whole_seconds() {
    assert_eq!(at(1_680_343_500).seconds_since(&at(1_680_343_200)), 300);
    assert_eq!(at(10).seconds_since(&at(10)), 0);
}

#[test]
fn seconds_since_rounds_towards_zero() {
    let start = Instant::new(100, 0);
    assert_eq!(Instant::new(101, 999_999_999).seconds_since(&start), 1);
    assert_eq!(Instant::new(100, 999_999_999).seconds_since(&start), 0);
    assert_eq!(Instant::new(99, 1).seconds_since(&start), 0);
    assert_eq!(Instant::new(99, 0).seconds_since(&start), -1);
    assert_eq!(Instant::new(98, 500_000_000).seconds_since(&start), -1);
    assert_eq!(Instant::new(98, 0).seconds_since(&start), -2);
}

#[test]
fn seconds_since_over_the_whole_range() {
    let late = Instant::new(i64::MAX, 0);
    let early = Instant::new(i64::MIN, 0);
    assert_eq!(late.seconds_since(&early), (i64::MAX as i128) - (i64::MIN as i128));
    assert_eq!(early.seconds_since(&late), (i64::MIN as i128) - (i64::MAX as i128));
}

#[test]
fn nanos_since_is_signed() {
    assert_eq!(Instant::new(1, 0).nanos_since(&Instant::new(0, 999_999_999)), 1);
    assert_eq!(Instant::new(0, 999_999_999).nanos_since(&Instant::new(1, 0)), -1);
    assert_eq!(Instant::new(3, 5).nanos_since(&Instant::new(1, 2)), 2 * NANOS_PER_SECOND + 3);
}

#[test]
fn a_leap_second_within_the_day_counts_as_a_second() {
    // 03:00:59 with a leap second after it, and 03:01:00 of the same day.
    let before = Instant::new(3 * 3600 + 59, 0);
    let leap = Instant::new(3 * 3600 + 59, 1_000_000_000);
    let after = Instant::new(3 * 3600 + 60, 0);
    assert_eq!(leap.nanos_since(&before), NANOS_PER_SECOND);
    assert_eq!(after.nanos_since(&leap), NANOS_PER_SECOND);
    assert_eq!(after.nanos_since(&before), NANOS_PER_SECOND);
    assert_eq!(leap.nanos_since(&after), -NANOS_PER_SECOND);
    assert_eq!(after.seconds_since(&leap), 1);
    assert_eq!(leap.seconds_since(&after), -1);
}

#[test]
fn a_leap_second_at_the_end_of_the_day_is_not_counted_across_midnight() {
    let leap = Instant::new(86_399, 1_500_000_000);
    let midnight = Instant::new(86_400, 0);
    assert!(leap.is_before(&midnight));
    assert_eq!(midnight.nanos_since(&leap), -500_000_000);
    assert_eq!(leap.nanos_since(&midnight), 500_000_000);
}

const READINGS: [&str; 14] = [
    "2016-12-31T12:00:00Z",
    "2016-12-31T23:59:58.25Z",
    "2016-12-31T23:59:59Z",
    "2016-12-31T23:59:59.999999999Z",
    "2016-12-31T23:59:60Z",
    "2016-12-31T23:59:60.5Z",
    "2017-01-01T00:00:00Z",
    "2017-01-01T00:00:00.75Z",
    "2017-01-01T08:59:60+09:00",
    "2017-01-01T12:00:00Z",
    "2023-04-01T10:00:59Z",
    "2023-04-01T10:00:60Z",
    "2023-04-01T10:00:60.999Z",
    "2023-04-01T19:01:00.5+09:00",
];

#[test]
fn order_agrees_with_chrono_on_every_pair_of_readings() {
    for a in READINGS {
        for b in READINGS {
            let theirs = chrono::DateTime::parse_from_rfc3339(a).unwrap()
                < chrono::DateTime::parse_from_rfc3339(b).unwrap();
            let ours = read_instant(a).unwrap().is_before(&read_instant(b).unwrap());
            assert_eq!(ours, theirs, "{} before {}", a, b);
        }
    }
}

#[test]
fn span_agrees_with_chrono_on_every_pair_of_readings() {
    for a in READINGS {
        for b in READINGS {
            let theirs = chrono::DateTime::parse_from_rfc3339(a).unwrap()
                - chrono::DateTime::parse_from_rfc3339(b).unwrap();
            let later = read_instant(a).unwrap();
            let earlier = read_instant(b).unwrap();
            assert_eq!(
                later.nanos_since(&earlier),
                theirs.num_nanoseconds().unwrap() as i128,
                "{} since {}",
                a,
                b
            );
            assert_eq!(
                later.seconds_since(&earlier),
                theirs.num_seconds() as i128,
                "{} since {}",
                a,
                b
            );
        }
    }
}

#[test]
fn link_agrees_with_chrono_on_every_pair_of_readings() {
    for a in READINGS {
        for b in READINGS {
            let theirs = chrono::DateTime::parse_from_rfc3339(a).unwrap()
                - chrono::DateTime::parse_from_rfc3339(b).unwrap();
            for offset in [-10i64, 0, 10] {
                assert_eq!(
                    build_link("v", &read_instant(b).unwrap(), &read_instant(a).unwrap(), offset),
                    format!("https://youtube.com/watch?v=v&t={}s", theirs.num_seconds() + offset)
                );
            }
        }
    }
}

#[test]
fn interval_needs_its_start_before_its_end() {
    assert!(TimeInterval::new(at(10), at(20)).is_some());
    assert!(TimeInterval::new(at(20), at(10)).is_none());
    assert!(TimeInterval::new(at(10), at(10)).is_none());
}

#[test]
fn interval_keeps_its_bounds() {
    let interval = TimeInterval::new(at(10), at(20)).unwrap();
    assert_eq!(interval.start(), at(10));
    assert_eq!(interval.end(), at(20));
}

#[test]
fn interval_excludes_both_boundaries() {
    let start = read_instant("2023-04-01T10:00:00Z").unwrap();
    let end = read_instant("2023-04-01T10:30:00Z").unwrap();
    let interval = TimeInterval::new(start, end).unwrap();
    assert!(!interval.contains(&start));
    assert!(!interval.contains(&end));
}

#[test]
fn interval_includes_a_millisecond_inside_each_boundary() {
    let start = read_instant("2023-04-01T10:00:00Z").unwrap();
    let end = read_instant("2023-04-01T10:30:00Z").unwrap();
    let interval = TimeInterval::new(start, end).unwrap();
    let just_after_start = read_instant("2023-04-01T10:00:00.001Z").unwrap();
    let just_before_end = read_instant("2023-04-01T10:29:59.999Z").unwrap();
    assert!(interval.contains(&just_after_start));
    assert!(interval.contains(&just_before_end));
}

#[test]
fn interval_excludes_what_lies_outside() {
    let interval = TimeInterval::new(at(10), at(20)).unwrap();
    assert!(!interval.contains(&at(9)));
    assert!(!interval.contains(&at(21)));
    assert!(!interval.contains(&Instant::new(9, 999_999_999)));
    assert!(interval.contains(&Instant::new(10, 1)));
    assert!(interval.contains(&Instant::new(19, 999_999_999)));
}
