use tasklist::timestamp::{
    datetime_to_display_string, datetime_to_sql_string, read_stored_text, sql_string_to_datetime,
    try_sql_string_to_datetime, Timestamp, TimestampError, MAX_LOCAL_SECS, MIN_LOCAL_SECS,
};

fn stamp(secs: i64, nanos: u32, offset: i32) -> Timestamp {
    Timestamp::new(secs, nanos, offset).expect("well-formed timestamp")
}

#[test]
fn storage_text_is_rfc3339_with_offset() {
    let t = stamp(851_042_397, 0, -8 * 3600);
    assert_eq!(datetime_to_sql_string(t), "1996-12-19T16:39:57-08:00");
}

#[test]
fn storage_text_of_utc_writes_plus_zero() {
    let t = stamp(1_714_564_800, 0, 0);
    assert_eq!(datetime_to_sql_string(t), "2024-05-01T12:00:00+00:00");
}

#[test]
fn storage_text_keeps_the_sub_second_part() {
    assert_eq!(
        datetime_to_sql_string(stamp(1_714_564_800, 250_000_000, 3600)),
        "2024-05-01T13:00:00.250+01:00"
    );
    assert_eq!(
        datetime_to_sql_string(stamp(1_714_564_800, 1, 0)),
        "2024-05-01T12:00:00.000000001+00:00"
    );
}

#[test]
fn storage_round_trip_gives_the_same_timestamp() {
    let samples = vec![
        stamp(0, 0, 0),
        stamp(851_042_397, 0, -8 * 3600),
        stamp(1_714_564_800, 123_456_789, 5 * 3600 + 30 * 60),
        stamp(1_714_564_800, 999_999_999, -(23 * 3600 + 59 * 60)),
        stamp(1_714_564_800, 120_000, 23 * 3600 + 59 * 60),
        stamp(-1, 500_000_000, 60),
        stamp(MIN_LOCAL_SECS, 0, 0),
        stamp(MAX_LOCAL_SECS, 999_999_999, 0),
        stamp(MIN_LOCAL_SECS + 3600, 7, -3600),
        stamp(MAX_LOCAL_SECS - 3600, 7, 3600),
    ];
    for t in samples {
        let text = datetime_to_sql_string(t);
        assert_eq!(read_stored_text(&text), Ok(t));
        assert_eq!(try_sql_string_to_datetime(Some(text.clone())), Ok(Some(t)));
        assert_eq!(sql_string_to_datetime(Some(text)), Some(t));
    }
}

#[test]
fn absent_stored_value_stays_absent() {
    assert_eq!(sql_string_to_datetime(None), None);
    assert_eq!(try_sql_string_to_datetime(None), Ok(None));
}

#[test]
fn stored_text_is_read_with_its_offset() {
    assert_eq!(
        read_stored_text("1996-12-19T16:39:57-08:00"),
        Ok(Timestamp { secs: 851_042_397, nanos: 0, offset: -28_800 })
    );
    assert_eq!(
        read_stored_text("2024-05-01T12:00:00Z"),
        Ok(Timestamp { secs: 1_714_564_800, nanos: 0, offset: 0 })
    );
}

#[test]
fn malformed_stored_text_is_reported() {
    assert_eq!(read_stored_text("yesterday"), Err(TimestampError::Malformed));
    assert_eq!(read_stored_text(""), Err(TimestampError::Malformed));
    assert_eq!(read_stored_text("2024-05-01 12:00:00"), Err(TimestampError::Malformed));
    assert_eq!(
        try_sql_string_to_datetime(Some(String::from("2024-13-01T00:00:00Z"))),
        Err(TimestampError::Malformed)
    );
}

#[test]
fn leap_second_text_is_out_of_range() {
    assert_eq!(read_stored_text("2016-12-31T23:59:60Z"), Err(TimestampError::OutOfRange));
}

#[test]
fn new_refuses_parts_that_are_not_well_formed() {
    assert_eq!(Timestamp::new(0, 1_000_000_000, 0), None);
    assert_eq!(Timestamp::new(0, 0, 86_400), None);
    assert_eq!(Timestamp::new(0, 0, -86_400), None);
    assert_eq!(Timestamp::new(0, 0, 61), None);
    assert_eq!(Timestamp::new(MAX_LOCAL_SECS + 1, 0, 0), None);
    assert_eq!(Timestamp::new(MAX_LOCAL_SECS, 0, 60), None);
    assert_eq!(Timestamp::new(MIN_LOCAL_SECS - 1, 0, 0), None);
    assert_eq!(Timestamp::new(MIN_LOCAL_SECS, 0, -60), None);
    assert_eq!(Timestamp::new(i64::MAX, 0, 0), None);
    assert_eq!(Timestamp::new(i64::MIN, 0, 0), None);
    assert!(Timestamp::new(MAX_LOCAL_SECS + 60, 0, -60).is_some());
    assert!(Timestamp { secs: 5, nanos: 6, offset: 120 }.is_valid());
}

#[test]
fn earlier_than_compares_instants_and_ignores_offsets() {
    let a = stamp(100, 5, 3600);
    let b = stamp(100, 6, -3600);
    let c = stamp(101, 0, 0);
    assert!(a.is_earlier_than(&b));
    assert!(b.is_earlier_than(&c));
    assert!(!b.is_earlier_than(&a));
    assert!(!a.is_earlier_than(&a));
    assert!(!stamp(100, 5, 0).is_earlier_than(&a));
}

#[test]
fn display_text_is_rfc2822() {
    let t = stamp(1_057_049_557, 0, 7200);
    assert_eq!(datetime_to_display_string(t), "Tue, 1 Jul 2003 10:52:37 +0200");
}
