use post_migrate::datetime::{derive_timestamp, parse_datetime, SENTINEL_TIMESTAMP};

#[test]
fn parses_epoch_start() {
    assert_eq!(parse_datetime(b"1970-01-01 00:00:00"), Some(0));
}

#[test]
fn parses_second_before_epoch() {
    assert_eq!(parse_datetime(b"1969-12-31 23:59:59"), Some(-1));
}

#[test]
fn parses_known_instant() {
    assert_eq!(parse_datetime(b"2020-05-01 10:00:00"), Some(1588327200));
}

#[test]
fn parses_leap_day() {
    assert_eq!(parse_datetime(b"2000-02-29 12:00:00"), Some(951825600));
}

#[test]
fn parses_earliest_representable() {
    assert_eq!(parse_datetime(b"0000-01-01 00:00:00"), Some(-62167219200));
}

#[test]
fn parses_latest_representable() {
    assert_eq!(parse_datetime(b"9999-12-31 23:59:59"), Some(253402300799));
}

#[test]
fn rejects_century_non_leap_day() {
    assert_eq!(parse_datetime(b"1900-02-29 00:00:00"), None);
    assert_eq!(parse_datetime(b"2021-02-29 00:00:00"), None);
}

#[test]
fn rejects_out_of_range_components() {
    assert_eq!(parse_datetime(b"2020-13-01 00:00:00"), None);
    assert_eq!(parse_datetime(b"2020-00-01 00:00:00"), None);
    assert_eq!(parse_datetime(b"2020-04-31 00:00:00"), None);
    assert_eq!(parse_datetime(b"2020-05-00 00:00:00"), None);
    assert_eq!(parse_datetime(b"2020-05-01 24:00:00"), None);
    assert_eq!(parse_datetime(b"2020-05-01 10:60:00"), None);
    assert_eq!(parse_datetime(b"2020-05-01 10:00:60"), None);
}

#[test]
fn rejects_malformed_shapes() {
    assert_eq!(parse_datetime(b""), None);
    assert_eq!(parse_datetime(b"not-a-date"), None);
    assert_eq!(parse_datetime(b"2020/05/01 10:00:00"), None);
    assert_eq!(parse_datetime(b"2020-05-01T10:00:00"), None);
    assert_eq!(parse_datetime(b"2020-05-01 10:00:00 "), None);
    assert_eq!(parse_datetime(b"20-05-01 10:00:00"), None);
    assert_eq!(parse_datetime(b"2020-5-01 10:00:00"), None);
}

#[test]
fn fallback_is_always_the_sentinel() {
    let malformed: Vec<&[u8]> = vec![
        b"",
        b"not-a-date",
        b"2020/05/01 10:00:00",
        b"2020-13-01 00:00:00",
        b"2021-02-29 00:00:00",
        b"2020-05-01 10:00",
        b"hello world nothing",
    ];
    for text in malformed {
        assert_eq!(derive_timestamp(text), SENTINEL_TIMESTAMP);
        assert_eq!(derive_timestamp(text), 0);
    }
}

#[test]
fn well_formed_text_is_not_sentinel_keyed() {
    assert_eq!(derive_timestamp(b"2020-05-01 10:00:00"), 1588327200);
}
