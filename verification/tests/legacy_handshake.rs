use infrarust::legacy::handshake::{build_legacy_kick, parse_legacy_handshake};
use infrarust::error::ProtocolError;

fn encode_string16(s: &str) -> Vec<u8> {
    let utf16: Vec<u16> = s.encode_utf16().collect();
    let mut out = Vec::new();
    out.extend_from_slice(&(utf16.len() as u16).to_be_bytes());
    for code_unit in &utf16 {
        out.extend_from_slice(&code_unit.to_be_bytes());
    }
    out
}

fn build_handshake_packet(protocol: u8, username: &str, hostname: &str, port: i32) -> Vec<u8> {
    let mut data = Vec::new();
    data.push(protocol);
    data.extend_from_slice(&encode_string16(username));
    data.extend_from_slice(&encode_string16(hostname));
    data.extend_from_slice(&port.to_be_bytes());
    data
}

fn build_pre_1_3_packet(connection_string: &str) -> Vec<u8> {
    let utf16: Vec<u16> = connection_string.encode_utf16().collect();
    let mut data = Vec::new();
    // Format byte 0x00 (pre-1.3)
    data.push(0x00);
    data.push(utf16.len() as u8);
    for code_unit in &utf16 {
        data.extend_from_slice(&code_unit.to_be_bytes());
    }
    data
}

#[test]
fn test_parse_valid_handshake() {
    let data = build_handshake_packet(78, "Steve", "mc.example.com", 25565);
    let req = parse_legacy_handshake(&data).unwrap();
    assert_eq!(req.protocol_version, 78);
    assert_eq!(req.username, "Steve");
    assert_eq!(req.hostname, "mc.example.com");
    assert_eq!(req.port, 25565);
}

#[test]
fn test_parse_handshake_different_versions() {
    let data = build_handshake_packet(74, "Player", "localhost", 25565);
    let req = parse_legacy_handshake(&data).unwrap();
    assert_eq!(req.protocol_version, 74);
    assert_eq!(req.username, "Player");
    assert_eq!(req.hostname, "localhost");
}

#[test]
fn test_parse_pre_1_3_handshake() {
    let data = build_pre_1_3_packet("Steve;mc.example.com:25565");
    let req = parse_legacy_handshake(&data).unwrap();
    assert_eq!(req.protocol_version, 0);
    assert_eq!(req.username, "Steve");
    assert_eq!(req.hostname, "mc.example.com");
    assert_eq!(req.port, 25565);
}

#[test]
fn test_parse_pre_1_3_no_hostname() {
    let data = build_pre_1_3_packet("Steve");
    let req = parse_legacy_handshake(&data).unwrap();
    assert_eq!(req.protocol_version, 0);
    assert_eq!(req.username, "Steve");
    assert_eq!(req.hostname, "");
    assert_eq!(req.port, 25565);
}

#[test]
fn test_parse_pre_1_3_no_port() {
    let data = build_pre_1_3_packet("Player1;survival.server.net");
    let req = parse_legacy_handshake(&data).unwrap();
    assert_eq!(req.username, "Player1");
    assert_eq!(req.hostname, "survival.server.net");
    assert_eq!(req.port, 25565);
}

#[test]
fn test_parse_empty_data() {
    assert!(parse_legacy_handshake(&[]).is_err());
}

#[test]
fn test_parse_truncated_username() {
    assert!(parse_legacy_handshake(&[78]).is_err());
}

#[test]
fn test_parse_truncated_hostname() {
    let mut data = Vec::new();
    data.push(78);
    data.extend_from_slice(&encode_string16("Steve"));
    assert!(parse_legacy_handshake(&data).is_err());
}

#[test]
fn test_parse_missing_port() {
    let mut data = Vec::new();
    data.push(78);
    data.extend_from_slice(&encode_string16("Steve"));
    data.extend_from_slice(&encode_string16("localhost"));
    assert!(parse_legacy_handshake(&data).is_err());
}

#[test]
fn test_build_legacy_kick() {
    let kick = build_legacy_kick("Server is full").unwrap();
    assert_eq!(kick[0], 0xFF);
    let len = u16::from_be_bytes([kick[1], kick[2]]);
    assert_eq!(len as usize, "Server is full".encode_utf16().count());
}

#[test]
fn legacy_kick_exact_bytes() {
    let kick = build_legacy_kick("Hi").unwrap();
    assert_eq!(kick, vec![0xFF, 0x00, 0x02, 0x00, b'H', 0x00, b'i']);
}

#[test]
fn pre_1_3_port_that_is_not_a_number_falls_back() {
    let data = build_pre_1_3_packet("Steve;host:notaport");
    let req = parse_legacy_handshake(&data).unwrap();
    assert_eq!(req.hostname, "host");
    assert_eq!(req.port, 25565);
}

#[test]
fn legacy_kick_over_u16_units_is_too_large() {
    let reason = "x".repeat(65536);
    assert!(matches!(
        build_legacy_kick(&reason),
        Err(ProtocolError::TooLarge { max: 65535, actual: 65536 })
    ));
    let reason = "x".repeat(65535);
    assert_eq!(build_legacy_kick(&reason).unwrap().len(), 3 + 2 * 65535);
}
