use pg_wire::encoding::{
    be_to_u64, i16_be_vec, i32_be_vec, i64_be_vec, i64_from_u64, i64_text, u16_from_i16,
    u32_from_i32,
};

#[test]
fn be_bytes_exact() {
    assert_eq!(i16_be_vec(0x1234), vec![0x12, 0x34]);
    assert_eq!(i16_be_vec(-2), vec![0xFF, 0xFE]);
    assert_eq!(i32_be_vec(-1), vec![0xFF, 0xFF, 0xFF, 0xFF]);
    assert_eq!(i32_be_vec(1), vec![0, 0, 0, 1]);
    assert_eq!(
        i64_be_vec(1_000_000),
        vec![0, 0, 0, 0, 0, 0x0F, 0x42, 0x40]
    );
}

#[test]
fn be_round_trip_i64() {
    for v in [
        0i64,
        1,
        -1,
        42,
        -123_456_789,
        i64::MAX,
        i64::MIN,
        946_684_800_000_000,
    ] {
        let enc = i64_be_vec(v);
        assert_eq!(enc.len(), 8);
        assert_eq!(i64_from_u64(be_to_u64(enc.as_slice())), v);
    }
}

#[test]
fn be_round_trip_i32() {
    for v in [0i32, 1, -1, i32::MAX, i32::MIN, 730_119] {
        let enc = i32_be_vec(v);
        assert_eq!(be_to_u64(enc.as_slice()), u32_from_i32(v) as u64);
    }
}

#[test]
fn be_round_trip_i16() {
    for v in [0i16, 1, -1, i16::MAX, i16::MIN, 1234] {
        let enc = i16_be_vec(v);
        assert_eq!(be_to_u64(enc.as_slice()), u16_from_i16(v) as u64);
    }
}

#[test]
fn decimal_text_exact() {
    assert_eq!(i64_text(0), b"0".to_vec());
    assert_eq!(i64_text(7), b"7".to_vec());
    assert_eq!(i64_text(-42), b"-42".to_vec());
    assert_eq!(i64_text(123_456_789), b"123456789".to_vec());
    assert_eq!(i64_text(i64::MAX), b"9223372036854775807".to_vec());
    assert_eq!(i64_text(i64::MIN), b"-9223372036854775808".to_vec());
}
