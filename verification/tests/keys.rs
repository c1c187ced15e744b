use post_migrate::key::{decode_key, encode_key};

#[test]
fn key_is_little_endian_of_timestamp() {
    assert_eq!(encode_key(1588327200), 1588327200i64.to_le_bytes().to_vec());
    assert_eq!(encode_key(0), vec![0u8; 8]);
    assert_eq!(encode_key(-1), vec![0xffu8; 8]);
}

#[test]
fn key_round_trips() {
    for ts in [
        0i64,
        1,
        -1,
        1588327200,
        -62167219200,
        253402300799,
        i64::MIN,
        i64::MAX,
    ] {
        assert_eq!(decode_key(&encode_key(ts)), ts);
    }
}
