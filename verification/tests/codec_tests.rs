use fileid_store::codec::{i32tou8, u8toi32};

#[test]
fn decode_big_endian_positive() {
    assert_eq!(u8toi32([0, 0, 0, 1]), 1);
    assert_eq!(u8toi32([0x12, 0x34, 0x56, 0x78]), 0x1234_5678);
    assert_eq!(u8toi32([0, 0, 0, 0]), 0);
}

#[test]
fn decode_big_endian_negative() {
    assert_eq!(u8toi32([0xff, 0xff, 0xff, 0xff]), -1);
    assert_eq!(u8toi32([0x80, 0, 0, 0]), i32::MIN);
    assert_eq!(u8toi32([0x7f, 0xff, 0xff, 0xff]), i32::MAX);
}

#[test]
fn encode_big_endian() {
    assert_eq!(i32tou8(1), [0, 0, 0, 1]);
    assert_eq!(i32tou8(0x1234_5678), [0x12, 0x34, 0x56, 0x78]);
    assert_eq!(i32tou8(-2), [0xff, 0xff, 0xff, 0xfe]);
    assert_eq!(i32tou8(i32::MIN), [0x80, 0, 0, 0]);
}

#[test]
fn codec_round_trips() {
    for v in [0, 1, -1, 255, 256, 65_535, -65_536, i32::MAX, i32::MIN, 123_456_789] {
        assert_eq!(u8toi32(i32tou8(v)), v);
        assert_eq!(i32tou8(v), v.to_be_bytes());
    }
    for b in [[0u8, 0, 0, 0], [1, 2, 3, 4], [0xff, 0, 0xff, 0], [0x80, 0x7f, 0x01, 0xfe]] {
        assert_eq!(i32tou8(u8toi32(b)), b);
    }
}
