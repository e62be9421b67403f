use chrono::{NaiveDate, NaiveDateTime};
use pg_wire::calendar::{epoch_days, epoch_micros, date_text_bytes, timestamp_text_bytes, Date, Timestamp};

fn date(y: i32, m: u8, d: u8) -> Date {
    Date::new(y, m, d).unwrap()
}

fn ts(y: i32, m: u8, d: u8, h: u8, mi: u8, s: u8, micro: u32) -> Timestamp {
    Timestamp::new(date(y, m, d), h, mi, s, micro).unwrap()
}

fn chrono_epoch_date() -> NaiveDate {
    NaiveDate::from_ymd_opt(2000, 1, 1).unwrap()
}

fn chrono_epoch_datetime() -> NaiveDateTime {
    chrono_epoch_date().and_hms_opt(0, 0, 0).unwrap()
}

#[test]
fn date_offsets_near_epoch() {
    assert_eq!(epoch_days(&date(2000, 1, 1)), 0);
    assert_eq!(epoch_days(&date(2000, 1, 2)), 1);
    assert_eq!(epoch_days(&date(1999, 12, 31)), -1);
    assert_eq!(epoch_days(&date(2000, 3, 1)), 60);
    assert_eq!(epoch_days(&date(2001, 1, 1)), 366);
    assert_eq!(epoch_days(&date(1970, 1, 1)), -10957);
}

#[test]
fn date_offsets_match_chrono() {
    let samples = [
        (1, 1, 1),
        (1600, 2, 29),
        (1900, 3, 1),
        (1970, 1, 1),
        (1999, 12, 31),
        (2000, 2, 29),
        (2023, 6, 15),
        (2100, 2, 28),
        (9999, 12, 31),
    ];
    for (y, m, d) in samples {
        let ours = epoch_days(&date(y, m as u8, d as u8));
        let theirs = NaiveDate::from_ymd_opt(y, m, d)
            .unwrap()
            .signed_duration_since(chrono_epoch_date())
            .num_days();
        assert_eq!(ours as i64, theirs);
    }
}

#[test]
fn timestamp_offsets_near_epoch() {
    assert_eq!(epoch_micros(&ts(2000, 1, 1, 0, 0, 1, 0)), 1_000_000);
    assert_eq!(epoch_micros(&ts(2000, 1, 1, 0, 0, 0, 1)), 1);
    assert_eq!(epoch_micros(&ts(1999, 12, 31, 23, 59, 59, 0)), -1_000_000);
    assert_eq!(
        epoch_micros(&ts(2000, 1, 2, 0, 0, 0, 0)),
        86_400_000_000
    );
}

#[test]
fn timestamp_offsets_match_chrono() {
    let samples = [
        (1970, 1, 1, 0, 0, 0, 0),
        (1999, 12, 31, 23, 59, 59, 999_999),
        (2016, 7, 8, 9, 10, 11, 0),
        (2024, 2, 29, 12, 30, 45, 5000),
        (9999, 12, 31, 23, 59, 59, 999_999),
    ];
    for (y, m, d, h, mi, s, micro) in samples {
        let ours = epoch_micros(&ts(y, m as u8, d as u8, h, mi, s, micro));
        let theirs = NaiveDate::from_ymd_opt(y, m, d)
            .unwrap()
            .and_hms_micro_opt(h as u32, mi as u32, s as u32, micro)
            .unwrap()
            .signed_duration_since(chrono_epoch_datetime())
            .num_microseconds()
            .unwrap();
        assert_eq!(ours, theirs);
    }
}

#[test]
fn date_text_iso() {
    assert_eq!(date_text_bytes(&date(2024, 3, 9)), b"2024-03-09".to_vec());
    assert_eq!(date_text_bytes(&date(1, 1, 1)), b"0001-01-01".to_vec());
}

#[test]
fn date_text_matches_chrono() {
    for (y, m, d) in [(2000, 1, 1), (1999, 12, 31), (2024, 2, 29), (9999, 12, 31)] {
        let ours = date_text_bytes(&date(y, m as u8, d as u8));
        let theirs = NaiveDate::from_ymd_opt(y, m, d).unwrap().to_string();
        assert_eq!(ours, theirs.into_bytes());
    }
}

#[test]
fn timestamp_text_iso() {
    assert_eq!(
        timestamp_text_bytes(&ts(2016, 7, 8, 9, 10, 11, 0)),
        b"2016-07-08 09:10:11".to_vec()
    );
    assert_eq!(
        timestamp_text_bytes(&ts(2016, 7, 8, 9, 10, 11, 5000)),
        b"2016-07-08 09:10:11.005".to_vec()
    );
    assert_eq!(
        timestamp_text_bytes(&ts(2016, 7, 8, 9, 10, 11, 5001)),
        b"2016-07-08 09:10:11.005001".to_vec()
    );
}

#[test]
fn timestamp_text_matches_chrono() {
    let samples = [
        (2016, 7, 8, 9, 10, 11, 0),
        (2016, 7, 8, 9, 10, 11, 5000),
        (2016, 7, 8, 9, 10, 11, 5001),
        (1999, 12, 31, 23, 59, 59, 999_999),
    ];
    for (y, m, d, h, mi, s, micro) in samples {
        let ours = timestamp_text_bytes(&ts(y, m as u8, d as u8, h, mi, s, micro));
        let theirs = NaiveDate::from_ymd_opt(y, m, d)
            .unwrap()
            .and_hms_micro_opt(h as u32, mi as u32, s as u32, micro)
            .unwrap()
            .to_string();
        assert_eq!(ours, theirs.into_bytes());
    }
}

#[test]
fn date_validity() {
    assert!(Date::new(2000, 2, 29).is_some());
    assert!(Date::new(2001, 2, 29).is_none());
    assert!(Date::new(1900, 2, 29).is_none());
    assert!(Date::new(2000, 13, 1).is_none());
    assert!(Date::new(2000, 0, 1).is_none());
    assert!(Date::new(0, 1, 1).is_none());
    assert!(Date::new(10000, 1, 1).is_none());
    assert!(Date::new(2000, 4, 31).is_none());
}

#[test]
fn timestamp_validity() {
    let d = date(2000, 1, 1);
    assert!(Timestamp::new(d, 23, 59, 59, 999_999).is_some());
    assert!(Timestamp::new(d, 24, 0, 0, 0).is_none());
    assert!(Timestamp::new(d, 0, 60, 0, 0).is_none());
    assert!(Timestamp::new(d, 0, 0, 60, 0).is_none());
    assert!(Timestamp::new(d, 0, 0, 0, 1_000_000).is_none());
}
