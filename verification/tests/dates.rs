use arangodb_types::dates::DBDateTime;
use arangodb_types::dates::DBExpiration;
use arangodb_types::dates::DateTimeParts;
use arangodb_types::dates::MAX_TIMESTAMP;
use arangodb_types::dates::MIN_TIMESTAMP;

fn at(secs: i64, nanos: u32) -> DateTimeParts {
    DateTimeParts::from_timestamp_opt(secs, nanos).unwrap()
}

#[test]
fn bounds_are_those_of_chrono() {
    let min = chrono::NaiveDateTime::MIN.and_utc();
    let max = chrono::NaiveDateTime::MAX.and_utc();
    assert_eq!(MIN_TIMESTAMP, min.timestamp());
    assert_eq!(MAX_TIMESTAMP, max.timestamp());
    assert!(DateTimeParts::from_timestamp_opt(MIN_TIMESTAMP, 0).is_some());
    assert!(DateTimeParts::from_timestamp_opt(MAX_TIMESTAMP, 0).is_some());
    assert!(DateTimeParts::from_timestamp_opt(MIN_TIMESTAMP - 1, 0).is_none());
    assert!(DateTimeParts::from_timestamp_opt(MAX_TIMESTAMP + 1, 0).is_none());
    assert!(DateTimeParts::from_timestamp_opt(i64::MIN, 0).is_none());
    assert!(DateTimeParts::from_timestamp_opt(i64::MAX, 0).is_none());
}

#[test]
fn leap_seconds_end_a_minute() {
    assert!(DateTimeParts::from_timestamp_opt(59, 1_999_999_999).is_some());
    assert!(DateTimeParts::from_timestamp_opt(-1, 1_000_000_000).is_some());
    assert!(DateTimeParts::from_timestamp_opt(58, 1_000_000_000).is_none());
    assert!(DateTimeParts::from_timestamp_opt(59, 2_000_000_000).is_none());
    let leap = at(59, 1_500_000_000);
    assert_eq!((leap.timestamp(), leap.nanosecond()), (59, 1_500_000_000));
}

#[test]
fn nanoseconds_can_be_replaced() {
    let changed = at(-7, 3).with_nanosecond(1_333_333_333).unwrap();
    assert_eq!((changed.timestamp(), changed.nanosecond()), (-7, 1_333_333_333));
    assert_eq!(changed.with_nanosecond(5), Some(at(-7, 5)));
    assert_eq!(at(-7, 3).with_nanosecond(2_000_000_000), None);
}

#[test]
fn expiration_drops_the_nanoseconds() {
    let date_time = DBDateTime::new(at(1_431_648_000, 789_000_000));
    let expiration = DBExpiration::from(date_time);
    assert_eq!(expiration, DBExpiration(at(1_431_648_000, 0)));
    assert_eq!(expiration.serialize(), 1_431_648_000);
    assert!(expiration.is_expired_at(&date_time));
    let leap = DBExpiration::from(DBDateTime::new(at(59, 1_000_000_001)));
    assert_eq!(leap, DBExpiration(at(59, 0)));
}

#[test]
fn conversion_goes_back_and_forth() {
    let expiration = DBExpiration(at(-5, 0));
    let date_time = DBDateTime::from(expiration.clone());
    assert_eq!(date_time, DBDateTime(at(-5, 0)));
    assert_eq!(DBExpiration::from(date_time), expiration);
}

#[test]
fn stored_expiration_reads_back() {
    for timestamp in [MIN_TIMESTAMP, -1, 0, 1_431_648_000, MAX_TIMESTAMP] {
        let expiration = DBExpiration::visit_i64(timestamp);
        assert_eq!(expiration.serialize(), timestamp);
        assert_eq!(expiration.nanosecond(), 0);
        assert_eq!(DBExpiration::visit_i64(expiration.serialize()), expiration);
    }
}

#[test]
fn unsigned_timestamps_keep_their_bits() {
    assert_eq!(DBExpiration::visit_u64(17), DBExpiration::visit_i64(17));
    assert_eq!(DBExpiration::visit_u64(u64::MAX), DBExpiration::visit_i64(-1));
    assert_eq!(
        DBExpiration::visit_u64(MIN_TIMESTAMP as u64),
        DBExpiration::visit_i64(MIN_TIMESTAMP)
    );
}

#[test]
fn expiration_counts_from_its_own_instant() {
    let expiration = DBExpiration(at(100, 0));
    assert!(!expiration.is_expired_at(&DBDateTime(at(99, 999_999_999))));
    assert!(expiration.is_expired_at(&DBDateTime(at(100, 0))));
    assert!(expiration.is_expired_at(&DBDateTime(at(100, 1))));
    assert!(expiration.is_expired_at(&DBDateTime(at(101, 0))));
    assert!(!DBExpiration(at(100, 2)).is_expired_at(&DBDateTime(at(100, 1))));
}

#[test]
fn order_is_that_of_chrono() {
    let values = [(-1, 0), (-1, 999_999_999), (0, 0), (59, 5), (59, 1_000_000_005), (60, 0)];
    for a in values {
        for b in values {
            let (x, y) = (chrono_of(a), chrono_of(b));
            assert_eq!(at(a.0, a.1).is_not_after(&at(b.0, b.1)), x <= y);
        }
    }
}

fn chrono_of(parts: (i64, u32)) -> chrono::NaiveDateTime {
    chrono::DateTime::from_timestamp(parts.0, parts.1).unwrap().naive_utc()
}

#[test]
fn expired_is_measured_by_the_clock() {
    assert!(DBExpiration::visit_i64(0).is_expired());
    assert!(DBExpiration::visit_i64(-1).is_expired());
    assert!(!DBExpiration::visit_i64(MAX_TIMESTAMP).is_expired());
    assert!(DBExpiration::default().is_expired());
    assert_eq!(DBExpiration::default().nanosecond(), 0);
}

#[test]
fn now_is_what_chrono_reads() {
    let before = chrono::Utc::now().timestamp();
    let now = DBDateTime::now().0.timestamp();
    let after = chrono::Utc::now().timestamp();
    assert!(before <= now && now <= after);
}
