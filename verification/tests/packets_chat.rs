use infrarust::packets::play::chat::{CChatMessageLegacy, CSystemChatMessage, SChatCommand, SChatMessage};
use infrarust::packets::Packet;
use infrarust::version::{ProtocolVersion, V1_16, V1_19, V1_19_4, V1_21, V1_7_2, V1_8};

fn round_trip<P: Packet>(packet: &P, version: ProtocolVersion) -> P {
    let mut buf = Vec::new();
    packet.encode(&mut buf, version).unwrap();
    P::decode(&mut buf.as_slice(), version).unwrap()
}

#[test]
fn test_system_chat_round_trip_json() {
    let pkt = CSystemChatMessage::from_json(r#"{"text":"Hello!"}"#, false);
    let decoded = round_trip(&pkt, ProtocolVersion(V1_19));
    assert_eq!(
        std::str::from_utf8(&decoded.content).unwrap(),
        r#"{"text":"Hello!"}"#
    );
    assert!(!decoded.overlay);
}

#[test]
fn test_system_chat_round_trip_nbt() {
    let nbt_data = vec![0x0A, 0x00, 0x00, 0x08, 0x00, 0x04];
    let pkt = CSystemChatMessage {
        content: nbt_data.clone(),
        overlay: true,
    };
    let decoded = round_trip(&pkt, ProtocolVersion(V1_21));
    assert_eq!(decoded.content, nbt_data);
    assert!(decoded.overlay);
}

#[test]
fn test_system_chat_overlay_flag() {
    let pkt = CSystemChatMessage::from_json(r#"{"text":"Action bar"}"#, true);
    let decoded = round_trip(&pkt, ProtocolVersion(V1_19_4));
    assert!(decoded.overlay);
}

#[test]
fn test_chat_message_round_trip() {
    let pkt = SChatMessage {
        message: "Hello world!".to_string(),
        remaining: vec![],
    };
    let decoded = round_trip(&pkt, ProtocolVersion(V1_19));
    assert_eq!(decoded.message, "Hello world!");
    assert!(decoded.remaining.is_empty());
}

#[test]
fn test_chat_message_with_remaining_bytes() {
    let pkt = SChatMessage {
        message: "test".to_string(),
        remaining: vec![0x01, 0x02, 0x03, 0xAA, 0xBB],
    };
    let decoded = round_trip(&pkt, ProtocolVersion(V1_19_4));
    assert_eq!(decoded.message, "test");
    assert_eq!(decoded.remaining, vec![0x01, 0x02, 0x03, 0xAA, 0xBB]);
}

#[test]
fn test_chat_command_round_trip() {
    let pkt = SChatCommand {
        command: "gamemode creative".to_string(),
        remaining: vec![],
    };
    let decoded = round_trip(&pkt, ProtocolVersion(V1_19));
    assert_eq!(decoded.command, "gamemode creative");
    assert!(decoded.remaining.is_empty());
}

#[test]
fn test_chat_command_with_remaining_bytes() {
    let pkt = SChatCommand {
        command: "tp Player1".to_string(),
        remaining: vec![0xFF, 0x00, 0x42],
    };
    let decoded = round_trip(&pkt, ProtocolVersion(V1_21));
    assert_eq!(decoded.command, "tp Player1");
    assert_eq!(decoded.remaining, vec![0xFF, 0x00, 0x42]);
}

#[test]
fn test_legacy_chat_1_7() {
    let pkt = CChatMessageLegacy {
        content: r#"{"text":"Hello"}"#.to_string(),
        position: 1,
    };
    let decoded = round_trip(&pkt, ProtocolVersion(V1_7_2));
    assert_eq!(decoded.content, r#"{"text":"Hello"}"#);
    assert_eq!(decoded.position, 0);
}

#[test]
fn test_legacy_chat_1_8() {
    let pkt = CChatMessageLegacy {
        content: r#"{"text":"Hello"}"#.to_string(),
        position: 2,
    };
    let decoded = round_trip(&pkt, ProtocolVersion(V1_8));
    assert_eq!(decoded.content, r#"{"text":"Hello"}"#);
    assert_eq!(decoded.position, 2);
}

#[test]
fn test_legacy_chat_1_16() {
    let pkt = CChatMessageLegacy {
        content: r#"{"text":"Hello"}"#.to_string(),
        position: 1,
    };
    let decoded = round_trip(&pkt, ProtocolVersion(V1_16));
    assert_eq!(decoded.content, r#"{"text":"Hello"}"#);
    assert_eq!(decoded.position, 1);
}

#[test]
fn system_chat_from_nbt_keeps_bytes() {
    let pkt = CSystemChatMessage::from_nbt(vec![0x08, 0x00, 0x01, b'x'], false);
    let mut buf = Vec::new();
    pkt.encode(&mut buf, ProtocolVersion(V1_21)).unwrap();
    assert_eq!(buf, vec![0x08, 0x00, 0x01, b'x', 0x00]);
}

#[test]
fn system_chat_json_is_length_prefixed_before_1_20_3() {
    let pkt = CSystemChatMessage::from_json("{}", true);
    let mut buf = Vec::new();
    pkt.encode(&mut buf, ProtocolVersion(V1_19)).unwrap();
    assert_eq!(buf, vec![0x02, b'{', b'}', 0x01]);
}
