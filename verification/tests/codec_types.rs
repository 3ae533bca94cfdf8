use infrarust::codec::types::decode_string;
use infrarust::codec::{Decode, Encode, VarInt};
use infrarust::error::ProtocolError;
use uuid::Uuid;

#[test]
fn test_bool_round_trip() {
    for &val in &[true, false] {
        let mut buf = Vec::new();
        val.encode(&mut buf).unwrap();
        let mut slice: &[u8] = &buf;
        let decoded = bool::decode(&mut slice).unwrap();
        assert_eq!(val, decoded);
    }
}

#[test]
fn test_bool_invalid_value() {
    let mut slice: &[u8] = &[0x02];
    let err = bool::decode(&mut slice).unwrap_err();
    assert!(err.is_fatal());
}

#[test]
fn test_u8_round_trip() {
    for &val in &[0u8, 128, 255] {
        let mut buf = Vec::new();
        val.encode(&mut buf).unwrap();
        let mut slice: &[u8] = &buf;
        assert_eq!(u8::decode(&mut slice).unwrap(), val);
    }
}

#[test]
fn test_i32_round_trip_big_endian() {
    let mut buf = Vec::new();
    1i32.encode(&mut buf).unwrap();
    assert_eq!(buf, [0, 0, 0, 1], "i32 should be big-endian");
    let mut slice: &[u8] = &buf;
    assert_eq!(i32::decode(&mut slice).unwrap(), 1);
}

#[test]
fn test_i64_round_trip() {
    for &val in &[0i64, -1, i64::MAX, i64::MIN] {
        let mut buf = Vec::new();
        val.encode(&mut buf).unwrap();
        let mut slice: &[u8] = &buf;
        assert_eq!(i64::decode(&mut slice).unwrap(), val);
    }
}

#[test]
fn test_string_round_trip() {
    for s in &["Hello", "", "Héllo 🌍"] {
        let val = s.to_string();
        let mut buf = Vec::new();
        val.encode(&mut buf).unwrap();
        let mut slice: &[u8] = &buf;
        assert_eq!(String::decode(&mut slice).unwrap(), *s);
    }
}

#[test]
fn test_string_length_prefix_is_varint() {
    let val = "AB".to_string();
    let mut buf = Vec::new();
    val.encode(&mut buf).unwrap();
    assert_eq!(buf, [0x02, 0x41, 0x42]);
}

#[test]
fn test_string_too_long() {
    let long_string: String = "x".repeat(40000);
    let mut buf = Vec::new();
    let err = long_string.encode(&mut buf).unwrap_err();
    assert!(matches!(err, ProtocolError::TooLarge { .. }));
}

#[test]
fn test_string_bounded_read() {
    let val = "a]".repeat(20);
    let mut buf = Vec::new();
    val.encode(&mut buf).unwrap();
    let mut slice: &[u8] = &buf;
    let err = decode_string(&mut slice, 10).unwrap_err();
    assert!(err.is_fatal());
}

#[test]
fn test_uuid_round_trip() {
    let uuid = Uuid::from_u128(0x550e8400_e29b_41d4_a716_446655440000);
    let mut buf = Vec::new();
    uuid.as_u128().encode(&mut buf).unwrap();
    assert_eq!(buf.len(), 16);
    let mut slice: &[u8] = &buf;
    assert_eq!(Uuid::from_u128(u128::decode(&mut slice).unwrap()), uuid);
}

#[test]
fn test_uuid_is_big_endian() {
    let uuid = Uuid::from_u128(0xFF00_0000_0000_0000_0000_0000_0000_0000);
    let mut buf = Vec::new();
    uuid.as_u128().encode(&mut buf).unwrap();
    assert_eq!(buf[0], 0xFF, "first byte should be MSB of u128");
}

#[test]
fn test_byte_array_round_trip() {
    let data: Vec<u8> = vec![1, 2, 3, 4, 5];
    let mut buf = Vec::new();
    data.encode(&mut buf).unwrap();
    assert_eq!(buf[0], 0x05);
    let mut slice: &[u8] = &buf;
    assert_eq!(Vec::<u8>::decode(&mut slice).unwrap(), data);
}

#[test]
fn test_byte_array_empty() {
    let data: Vec<u8> = vec![];
    let mut buf = Vec::new();
    data.encode(&mut buf).unwrap();
    assert_eq!(buf, [0x00]);
    let mut slice: &[u8] = &buf;
    assert_eq!(Vec::<u8>::decode(&mut slice).unwrap(), data);
}

#[test]
fn test_option_some_round_trip() {
    let val: Option<i32> = Some(42);
    let mut buf = Vec::new();
    val.encode(&mut buf).unwrap();
    assert_eq!(buf[0], 0x01);
    let mut slice: &[u8] = &buf;
    assert_eq!(Option::<i32>::decode(&mut slice).unwrap(), Some(42));
}

#[test]
fn test_option_none_round_trip() {
    let val: Option<i32> = None;
    let mut buf = Vec::new();
    val.encode(&mut buf).unwrap();
    assert_eq!(buf, [0x00]);
    let mut slice: &[u8] = &buf;
    assert_eq!(Option::<i32>::decode(&mut slice).unwrap(), None);
}

#[test]
fn test_string_decode_invalid_utf8() {
    let data = {
        let mut buf = Vec::new();
        VarInt(2).encode(&mut buf).unwrap();
        buf.extend_from_slice(&[0xFF, 0xFE]);
        buf
    };
    let mut cursor = data.as_slice();
    let result = String::decode(&mut cursor);
    assert!(result.is_err());
    assert!(matches!(result.unwrap_err(), ProtocolError::Invalid { .. }));
}

#[test]
fn test_string_decode_negative_length() {
    let mut buf = Vec::new();
    VarInt(-1).encode(&mut buf).unwrap();
    let mut cursor = buf.as_slice();
    let result = String::decode(&mut cursor);
    assert!(result.is_err());
    assert!(matches!(result.unwrap_err(), ProtocolError::Invalid { .. }));
}

#[test]
fn test_byte_array_decode_negative_length() {
    let mut buf = Vec::new();
    VarInt(-1).encode(&mut buf).unwrap();
    let mut cursor = buf.as_slice();
    let result = Vec::<u8>::decode(&mut cursor);
    assert!(result.is_err());
    assert!(matches!(result.unwrap_err(), ProtocolError::Invalid { .. }));
}

#[test]
fn fixed_width_exact_bytes() {
    let mut buf = Vec::new();
    0x1234u16.encode(&mut buf).unwrap();
    (-2i16).encode(&mut buf).unwrap();
    0xDEAD_BEEFu32.encode(&mut buf).unwrap();
    0x0102_0304_0506_0708u64.encode(&mut buf).unwrap();
    (-1i8).encode(&mut buf).unwrap();
    assert_eq!(
        buf,
        [
            0x12, 0x34, 0xFF, 0xFE, 0xDE, 0xAD, 0xBE, 0xEF, 1, 2, 3, 4, 5, 6, 7, 8, 0xFF
        ]
    );
    let mut s: &[u8] = &buf;
    assert_eq!(u16::decode(&mut s).unwrap(), 0x1234);
    assert_eq!(i16::decode(&mut s).unwrap(), -2);
    assert_eq!(u32::decode(&mut s).unwrap(), 0xDEAD_BEEF);
    assert_eq!(u64::decode(&mut s).unwrap(), 0x0102_0304_0506_0708);
    assert_eq!(i8::decode(&mut s).unwrap(), -1);
    assert!(s.is_empty());
}

#[test]
fn short_input_is_incomplete() {
    let mut s: &[u8] = &[0x00, 0x01, 0x02];
    assert!(u32::decode(&mut s).unwrap_err().is_incomplete());
    let mut s: &[u8] = &[0x05, 0x01];
    assert!(Vec::<u8>::decode(&mut s).unwrap_err().is_incomplete());
    let mut s: &[u8] = &[0x03, b'a'];
    assert!(String::decode(&mut s).unwrap_err().is_incomplete());
}

#[test]
fn string_character_limit_exact() {
    let mut buf = Vec::new();
    "abc".to_string().encode(&mut buf).unwrap();
    let mut s: &[u8] = &buf;
    assert_eq!(decode_string(&mut s, 3).unwrap(), "abc");
    let mut s: &[u8] = &buf;
    assert!(matches!(
        decode_string(&mut s, 2).unwrap_err(),
        ProtocolError::TooLarge { max: 2, actual: 3 }
    ));
}

#[test]
fn string_byte_limit_reports_max_and_length_and_stops_after_prefix() {
    let mut buf = Vec::new();
    VarInt(9).encode(&mut buf).unwrap();
    buf.extend_from_slice(b"abcdefghi");
    let mut s: &[u8] = &buf;
    assert!(matches!(
        decode_string(&mut s, 2).unwrap_err(),
        ProtocolError::TooLarge { max: 8, actual: 9 }
    ));
    assert_eq!(s, b"abcdefghi");
    let mut s: &[u8] = &buf;
    assert!(matches!(
        decode_string(&mut s, 3).unwrap_err(),
        ProtocolError::TooLarge { max: 3, actual: 9 }
    ));
    assert_eq!(s, b"abcdefghi");
}
