use infrarust::codec::{Decode, Encode, VarLong};
use infrarust::error::ProtocolError;

#[test]
fn test_round_trip() {
    for &val in &[0i64, 1, -1, i64::MIN, i64::MAX] {
        let vl = VarLong(val);
        let mut buf = Vec::new();
        vl.encode(&mut buf).unwrap();
        let mut slice: &[u8] = &buf;
        let decoded = VarLong::decode(&mut slice).unwrap();
        assert_eq!(vl, decoded, "round-trip failed for {val}");
        assert!(slice.is_empty(), "trailing bytes for {val}");
    }
}

#[test]
fn test_written_size() {
    for &val in &[0i64, 1, -1, i64::MIN, i64::MAX] {
        let vl = VarLong(val);
        let mut buf = Vec::new();
        vl.encode(&mut buf).unwrap();
        assert_eq!(
            vl.written_size(),
            buf.len(),
            "written_size mismatch for {val}"
        );
    }
}

#[test]
fn test_decode_too_large() {
    let mut buf: &[u8] = &[0x80; 11];
    let err = VarLong::decode(&mut buf).unwrap_err();
    assert!(err.is_fatal());
}

#[test]
fn test_i64_max_is_10_bytes() {
    let mut buf = Vec::new();
    VarLong(i64::MAX).encode(&mut buf).unwrap();
    assert_eq!(buf.len(), 9); // i64::MAX uses 9 bytes (63 bits / 7 = 9)
}

#[test]
fn test_varlong_decode_incomplete() {
    let mut buf: &[u8] = &[0x80, 0x80];
    let err = VarLong::decode(&mut buf).unwrap_err();
    assert!(err.is_incomplete());
}

#[test]
fn test_varlong_round_trip_zero() {
    let vl = VarLong(0);
    let mut buf = Vec::new();
    vl.encode(&mut buf).unwrap();
    assert_eq!(buf, [0x00]);
    let mut slice: &[u8] = &buf;
    assert_eq!(VarLong::decode(&mut slice).unwrap(), vl);
}

#[test]
fn test_varlong_max_is_not_11_bytes() {
    let mut buf = Vec::new();
    VarLong(i64::MIN).encode(&mut buf).unwrap();
    assert_eq!(buf.len(), 10);
    assert_eq!(VarLong(i64::MIN).written_size(), 10);
}

#[test]
fn test_from_i64_conversion() {
    assert_eq!(VarLong::from(42i64).0, 42);
    assert_eq!(i64::from(VarLong(42)), 42);
}

#[test]
fn varlong_exact_bytes_and_rest_kept() {
    let mut buf = Vec::new();
    VarLong(300).encode(&mut buf).unwrap();
    assert_eq!(buf, [0xAC, 0x02]);
    buf.push(0x7F);
    let mut slice: &[u8] = &buf;
    assert_eq!(VarLong::decode(&mut slice).unwrap(), VarLong(300));
    assert_eq!(slice, &[0x7F]);
}

#[test]
fn varlong_errors_report_consumed_bytes_and_context() {
    let bytes = [0x80u8; 11];
    let mut r1: &[u8] = &bytes;
    assert!(matches!(VarLong::decode(&mut r1), Err(ProtocolError::Invalid { .. })));
    assert_eq!(r1, &[0x80]);
    let mut r2: &[u8] = &[0x80, 0x80];
    assert!(matches!(
        VarLong::decode(&mut r2),
        Err(ProtocolError::Incomplete { context: "VarLong" })
    ));
}

#[test]
fn varlong_is_ten_bytes_exactly_when_negative() {
    for v in [-1i64, i64::MIN, -300] {
        assert_eq!(VarLong(v).written_size(), 10, "{v}");
    }
    for v in [0i64, 1, 300, i64::MAX] {
        assert!(VarLong(v).written_size() < 10, "{v}");
    }
}
