use infrarust::legacy::ping::{parse_legacy_ping, LegacyPingResponse, LegacyPingVariant};
use infrarust::legacy::utf16::decode_utf16be;
use infrarust::legacy::{detect, LegacyDetection};

#[test]
fn test_detect_legacy_ping() {
    assert_eq!(detect(0xFE), LegacyDetection::LegacyPing);
}

#[test]
fn test_detect_legacy_login() {
    assert_eq!(detect(0x02), LegacyDetection::LegacyLogin);
}

#[test]
fn test_detect_modern() {
    assert_eq!(detect(0x00), LegacyDetection::Modern);
    assert_eq!(detect(0x10), LegacyDetection::Modern);
    assert_eq!(detect(0xFF), LegacyDetection::Modern);
}

#[test]
fn test_parse_beta_ping() {
    let req = parse_legacy_ping(&[]).unwrap();
    assert_eq!(req.variant, LegacyPingVariant::Beta);
    assert!(req.hostname.is_none());
    assert!(req.port.is_none());
    assert!(req.protocol_version.is_none());
}

#[test]
fn test_parse_v1_4_ping() {
    let req = parse_legacy_ping(&[0x01]).unwrap();
    assert_eq!(req.variant, LegacyPingVariant::V1_4);
    assert!(req.hostname.is_none());
    assert!(req.port.is_none());
    assert!(req.protocol_version.is_none());
}

#[test]
fn test_parse_v1_4_ping_no_fa() {
    // 0x01 followed by something other than 0xFA
    let req = parse_legacy_ping(&[0x01, 0x00]).unwrap();
    assert_eq!(req.variant, LegacyPingVariant::V1_4);
}

#[test]
fn test_parse_v1_6_ping() {
    let mut data = Vec::new();

    // Channel name "MC|PingHost" in UTF-16BE
    let channel = "MC|PingHost";
    let channel_utf16: Vec<u8> = channel.encode_utf16().flat_map(u16::to_be_bytes).collect();
    let channel_code_units = channel.encode_utf16().count() as u16;
    data.extend_from_slice(&channel_code_units.to_be_bytes());
    data.extend_from_slice(&channel_utf16);

    // Data section
    let hostname = "mc.example.com";
    let hostname_utf16: Vec<u8> = hostname.encode_utf16().flat_map(u16::to_be_bytes).collect();
    let hostname_code_units = hostname.encode_utf16().count() as u16;

    // data_length = 1 (protocol_version) + 2 (hostname_len) + hostname_bytes + 4 (port)
    let data_length = (1 + 2 + hostname_utf16.len() + 4) as u16;
    data.extend_from_slice(&data_length.to_be_bytes());

    // Protocol version
    data.push(73); // 1.6.1

    // Hostname
    data.extend_from_slice(&hostname_code_units.to_be_bytes());
    data.extend_from_slice(&hostname_utf16);

    // Port
    data.extend_from_slice(&25565_i32.to_be_bytes());

    let req = parse_legacy_ping(&[&[0x01, 0xFA], data.as_slice()].concat()).unwrap();
    assert_eq!(req.variant, LegacyPingVariant::V1_6);
    assert_eq!(req.hostname.as_deref(), Some("mc.example.com"));
    assert_eq!(req.port, Some(25565));
    assert_eq!(req.protocol_version, Some(73));
}

#[test]
fn test_parse_v1_6_hostname_extraction() {
    let mut data = Vec::new();

    let channel = "MC|PingHost";
    let channel_utf16: Vec<u8> = channel.encode_utf16().flat_map(u16::to_be_bytes).collect();
    data.extend_from_slice(&(channel.encode_utf16().count() as u16).to_be_bytes());
    data.extend_from_slice(&channel_utf16);

    let hostname = "play.my-server.net";
    let hostname_utf16: Vec<u8> = hostname.encode_utf16().flat_map(u16::to_be_bytes).collect();
    let data_length = (1 + 2 + hostname_utf16.len() + 4) as u16;
    data.extend_from_slice(&data_length.to_be_bytes());
    data.push(78); // protocol version
    data.extend_from_slice(&(hostname.encode_utf16().count() as u16).to_be_bytes());
    data.extend_from_slice(&hostname_utf16);
    data.extend_from_slice(&19132_i32.to_be_bytes());

    let req = parse_legacy_ping(&[&[0x01, 0xFA], data.as_slice()].concat()).unwrap();
    assert_eq!(req.variant, LegacyPingVariant::V1_6);
    assert_eq!(req.hostname.as_deref(), Some("play.my-server.net"));
    assert_eq!(req.port, Some(19132));
}

#[test]
fn test_build_beta_response() {
    let resp = LegacyPingResponse {
        protocol_version: 127,
        server_version: "1.21.4".to_string(),
        motd: "Hello".to_string(),
        online_players: 5,
        max_players: 20,
    };
    let bytes = resp.build_beta_response().unwrap();

    // First byte: 0xFF
    assert_eq!(bytes[0], 0xFF);

    // Decode the UTF-16BE string
    let string_len = u16::from_be_bytes([bytes[1], bytes[2]]) as usize;
    let string_data = &bytes[3..3 + string_len * 2];
    let decoded = decode_utf16be(string_data).unwrap();
    assert_eq!(decoded, "Hello\u{00a7}5\u{00a7}20");
}

#[test]
fn test_build_v1_4_response() {
    let resp = LegacyPingResponse {
        protocol_version: 127,
        server_version: "1.21.4".to_string(),
        motd: "A Minecraft Server".to_string(),
        online_players: 3,
        max_players: 100,
    };
    let bytes = resp.build_v1_4_response().unwrap();

    assert_eq!(bytes[0], 0xFF);

    let string_len = u16::from_be_bytes([bytes[1], bytes[2]]) as usize;
    let string_data = &bytes[3..3 + string_len * 2];
    let decoded = decode_utf16be(string_data).unwrap();
    assert_eq!(
        decoded,
        "\u{00a7}1\x00127\x001.21.4\x00A Minecraft Server\x003\x00100"
    );
}

#[test]
fn test_response_utf16be_encoding() {
    let resp = LegacyPingResponse {
        protocol_version: 127,
        server_version: "1.21.4".to_string(),
        motd: "Bienvenue \u{00e0} tous!".to_string(),
        online_players: 0,
        max_players: 50,
    };
    let bytes = resp.build_v1_4_response().unwrap();

    assert_eq!(bytes[0], 0xFF);
    let string_len = u16::from_be_bytes([bytes[1], bytes[2]]) as usize;
    let string_data = &bytes[3..3 + string_len * 2];
    let decoded = decode_utf16be(string_data).unwrap();
    assert!(decoded.contains("Bienvenue \u{00e0} tous!"));
}

#[test]
fn test_parse_v1_6_truncated_after_fa() {
    let data = [0x01, 0xFA];
    let result = parse_legacy_ping(&data);
    assert!(result.is_err());
}

#[test]
fn test_parse_v1_6_truncated_mid_hostname() {
    let mut data = vec![0x01, 0xFA];
    data.extend_from_slice(&11u16.to_be_bytes());
    data.extend_from_slice(&[0x00, 0x4D, 0x00, 0x43]);
    let result = parse_legacy_ping(&data);
    assert!(result.is_err());
}

#[test]
fn utf16_surrogate_pair_round_trip() {
    let s = "a\u{1F600}b";
    let bytes = infrarust::legacy::utf16::encode_utf16be(s);
    assert_eq!(bytes.len(), 8);
    assert_eq!(decode_utf16be(&bytes).unwrap(), s);
}

#[test]
fn utf16_odd_length_is_invalid() {
    assert!(decode_utf16be(&[0x00]).is_err());
}
