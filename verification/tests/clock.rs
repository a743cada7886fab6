use abuelo::clock::{Timestamp, MINUTE_PATTERN};
use chrono::{DateTime, Utc};

#[test]
fn minute_text_of_a_known_instant() {
    let t = Timestamp::new(1431648000, 0).expect("a valid instant");
    assert_eq!(t.minute_text(), "2015-05-15-00-00");
    assert_eq!(t.timestamp(), 1431648000);
    assert_eq!(t.timestamp_subsec_nanos(), 0);
}

#[test]
fn minute_text_drops_seconds_and_nanoseconds() {
    let start = Timestamp::new(1431648000, 0).unwrap();
    let end = Timestamp::new(1431648059, 999_999_999).unwrap();
    let next = Timestamp::new(1431648060, 0).unwrap();
    assert_eq!(start.minute_text(), end.minute_text());
    assert_eq!(next.minute_text(), "2015-05-15-00-01");
}

#[test]
fn minute_text_of_the_epoch_and_before() {
    assert_eq!(Timestamp::new(0, 0).unwrap().minute_text(), "1970-01-01-00-00");
    assert_eq!(Timestamp::new(-1, 0).unwrap().minute_text(), "1969-12-31-23-59");
}

#[test]
fn minute_text_pads_each_field() {
    // 2001-02-03 04:05:06 UTC
    let t = Timestamp::new(981173106, 0).unwrap();
    assert_eq!(t.minute_text(), "2001-02-03-04-05");
}

#[test]
fn instants_out_of_range_are_refused() {
    assert!(Timestamp::new(i64::MAX, 0).is_none());
    assert!(Timestamp::new(i64::MIN, 0).is_none());
    assert!(Timestamp::new(0, 2_000_000_000).is_none());
    // A leap second is written only in the last second of a minute.
    assert!(Timestamp::new(0, 1_500_000_000).is_none());
    assert!(Timestamp::new(59, 1_500_000_000).is_some());
}

#[test]
fn now_is_a_valid_recent_instant() {
    let now = Timestamp::now();
    // After 2020-09-13 and rebuilt from its own parts.
    assert!(now.timestamp() > 1_600_000_000);
    assert!(now.timestamp_subsec_nanos() < 1_000_000_000);
    let again = Timestamp::new(now.timestamp(), now.timestamp_subsec_nanos()).unwrap();
    assert_eq!(again.minute_text(), now.minute_text());
    assert_eq!(now.minute_text().len(), 16);
}

#[test]
fn the_pattern_is_minute_granular() {
    assert_eq!(MINUTE_PATTERN, "%Y-%m-%d-%H-%M");
}

#[test]
fn timestamps_are_the_instants_of_chrono() {
    for (secs, nanos) in [(0i64, 0u32), (1431648000, 5), (-62135596800, 0), (59, 1_999_999_999)] {
        let instant = DateTime::from_timestamp(secs, nanos).unwrap();
        let t = Timestamp::new(instant.timestamp(), instant.timestamp_subsec_nanos()).unwrap();
        assert_eq!(t.timestamp(), secs);
        assert_eq!(t.timestamp_subsec_nanos(), nanos);
        assert_eq!(t.minute_text(), instant.format(MINUTE_PATTERN).to_string());
    }
    let least = DateTime::<Utc>::MIN_UTC;
    let greatest = DateTime::<Utc>::MAX_UTC;
    assert!(Timestamp::new(least.timestamp(), least.timestamp_subsec_nanos()).is_some());
    assert!(Timestamp::new(greatest.timestamp(), greatest.timestamp_subsec_nanos()).is_some());
    assert!(Timestamp::new(least.timestamp() - 1, 0).is_none());
    assert!(Timestamp::new(greatest.timestamp() + 1, 0).is_none());
}
