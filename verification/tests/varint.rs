use infrarust::codec::{Decode, Encode, VarInt};

#[test]
fn varint_known_encodings() {
    let cases: [(i32, &[u8]); 6] = [
        (0, &[0x00]),
        (1, &[0x01]),
        (127, &[0x7F]),
        (128, &[0x80, 0x01]),
        (25565, &[0xDD, 0xC7, 0x01]),
        (-1, &[0xFF, 0xFF, 0xFF, 0xFF, 0x0F]),
    ];
    for (v, bytes) in cases {
        let mut buf = Vec::new();
        VarInt(v).encode(&mut buf).unwrap();
        assert_eq!(buf, bytes, "encoding of {v}");
        assert_eq!(VarInt(v).written_size(), bytes.len());
        let mut slice: &[u8] = &buf;
        assert_eq!(VarInt::decode(&mut slice).unwrap(), VarInt(v));
        assert!(slice.is_empty());
    }
}

#[test]
fn varint_six_bytes_is_invalid() {
    let mut buf: &[u8] = &[0x80, 0x80, 0x80, 0x80, 0x80, 0x01];
    let err = VarInt::decode(&mut buf).unwrap_err();
    assert!(err.is_fatal());
}

#[test]
fn varint_empty_is_incomplete() {
    let mut buf: &[u8] = &[];
    assert!(VarInt::decode(&mut buf).unwrap_err().is_incomplete());
}

#[test]
fn varint_conversions() {
    assert_eq!(VarInt::from(7).0, 7);
    assert_eq!(i32::from(VarInt(-3)), -3);
}
