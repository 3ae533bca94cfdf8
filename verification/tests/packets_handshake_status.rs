use infrarust::codec::raw::write_u16;
use infrarust::codec::types::encode_string;
use infrarust::codec::VarInt;
use infrarust::packets::{
    CPingResponse, CStatusResponse, ErasedPacket, Packet, SHandshake, SPingRequest, SStatusRequest,
};
use infrarust::registry::{build_default_registry, AnyPacket};
use infrarust::version::{ConnectionState, Direction, ProtocolVersion, V1_21, V1_7_2, V1_8};

fn encode_handshake(hs: &SHandshake) -> Vec<u8> {
    let mut buf = Vec::new();
    hs.encode(&mut buf, ProtocolVersion(V1_21)).unwrap();
    buf
}

fn round_trip<P: Packet>(packet: &P, version: ProtocolVersion) -> P {
    let mut buf = Vec::new();
    packet.encode(&mut buf, version).unwrap();
    P::decode(&mut buf.as_slice(), version).unwrap()
}

#[test]
fn test_handshake_round_trip() {
    let original = SHandshake {
        protocol_version: VarInt(767),
        server_address: "play.example.com".to_string(),
        server_port: 25565,
        next_state: ConnectionState::Login,
    };

    let encoded = encode_handshake(&original);
    let decoded = SHandshake::decode(&mut encoded.as_slice(), ProtocolVersion(V1_21)).unwrap();

    assert_eq!(decoded.protocol_version, VarInt(767));
    assert_eq!(decoded.server_address, "play.example.com");
    assert_eq!(decoded.server_port, 25565);
    assert_eq!(decoded.next_state, ConnectionState::Login);
}

#[test]
fn test_handshake_status_intent() {
    let hs = SHandshake {
        protocol_version: VarInt(767),
        server_address: "mc.server.com".to_string(),
        server_port: 25565,
        next_state: ConnectionState::Status,
    };

    let encoded = encode_handshake(&hs);
    let decoded = SHandshake::decode(&mut encoded.as_slice(), ProtocolVersion(V1_21)).unwrap();
    assert_eq!(decoded.next_state, ConnectionState::Status);
}

#[test]
fn test_handshake_login_intent() {
    let hs = SHandshake {
        protocol_version: VarInt(767),
        server_address: "mc.server.com".to_string(),
        server_port: 25565,
        next_state: ConnectionState::Login,
    };

    let encoded = encode_handshake(&hs);
    let decoded = SHandshake::decode(&mut encoded.as_slice(), ProtocolVersion(V1_21)).unwrap();
    assert_eq!(decoded.next_state, ConnectionState::Login);
}

#[test]
fn test_handshake_transfer_intent() {
    // Transfer (intent 3) maps to Login.
    let mut buf = Vec::new();
    VarInt(767).encode(&mut buf).unwrap();
    encode_string("mc.server.com", &mut buf).unwrap();
    write_u16(&mut buf, 25565);
    VarInt(3).encode(&mut buf).unwrap(); // Transfer intent

    let decoded = SHandshake::decode(&mut buf.as_slice(), ProtocolVersion(V1_21)).unwrap();
    assert_eq!(decoded.next_state, ConnectionState::Login);
}

#[test]
fn test_handshake_invalid_intent() {
    let mut buf = Vec::new();
    VarInt(767).encode(&mut buf).unwrap();
    encode_string("mc.server.com", &mut buf).unwrap();
    write_u16(&mut buf, 25565);
    VarInt(99).encode(&mut buf).unwrap(); // Invalid intent

    let result = SHandshake::decode(&mut buf.as_slice(), ProtocolVersion(V1_21));
    assert!(result.is_err());
}

#[test]
fn test_handshake_fml_marker() {
    let address = "play.example.com\0FML\0";
    let hs = SHandshake {
        protocol_version: VarInt(767),
        server_address: address.to_string(),
        server_port: 25565,
        next_state: ConnectionState::Login,
    };

    let encoded = encode_handshake(&hs);
    let decoded = SHandshake::decode(&mut encoded.as_slice(), ProtocolVersion(V1_21)).unwrap();
    assert_eq!(decoded.server_address, address);
}

#[test]
fn test_handshake_protocol_version() {
    let hs = SHandshake {
        protocol_version: VarInt(767),
        server_address: "mc.server.com".to_string(),
        server_port: 25565,
        next_state: ConnectionState::Login,
    };

    let encoded = encode_handshake(&hs);
    let decoded = SHandshake::decode(&mut encoded.as_slice(), ProtocolVersion(V1_21)).unwrap();
    assert_eq!(decoded.protocol_version, VarInt(767));
}

#[test]
fn test_handshake_erased_packet_downcast() {
    let hs = SHandshake {
        protocol_version: VarInt(767),
        server_address: "play.example.com".to_string(),
        server_port: 25565,
        next_state: ConnectionState::Login,
    };

    let erased: Box<dyn ErasedPacket> = Box::new(hs.clone());
    assert_eq!(erased.packet_name(), "SHandshake");

    let any = AnyPacket::SHandshake(hs);
    match any {
        AnyPacket::SHandshake(downcasted) => {
            assert_eq!(downcasted.protocol_version, VarInt(767));
            assert_eq!(downcasted.server_address, "play.example.com");
            assert_eq!(downcasted.server_port, 25565);
            assert_eq!(downcasted.next_state, ConnectionState::Login);
        }
        _ => panic!("expected SHandshake"),
    }
}

#[test]
fn handshake_bytes_are_exact() {
    let hs = SHandshake {
        protocol_version: VarInt(767),
        server_address: "ab".to_string(),
        server_port: 25565,
        next_state: ConnectionState::Status,
    };
    assert_eq!(encode_handshake(&hs), vec![0xFF, 0x05, 0x02, b'a', b'b', 0x63, 0xDD, 0x01]);
}

#[test]
fn handshake_erased_encoding_matches() {
    let hs = SHandshake {
        protocol_version: VarInt(47),
        server_address: "x".to_string(),
        server_port: 1,
        next_state: ConnectionState::Login,
    };
    let mut a = Vec::new();
    hs.encode_payload(&mut a, ProtocolVersion(V1_21)).unwrap();
    assert_eq!(a, encode_handshake(&hs));
}

#[test]
fn test_status_request_round_trip() {
    let pkt = SStatusRequest;
    let mut buf = Vec::new();
    pkt.encode(&mut buf, ProtocolVersion(V1_21)).unwrap();
    assert!(buf.is_empty());
    let decoded = SStatusRequest::decode(&mut buf.as_slice(), ProtocolVersion(V1_21)).unwrap();
    assert_eq!(
        std::mem::size_of_val(&decoded),
        std::mem::size_of::<SStatusRequest>()
    );
}

#[test]
fn test_status_response_round_trip() {
    let json = r#"{"version":{"name":"1.21","protocol":767},"players":{"max":100,"online":5}}"#;
    let pkt = CStatusResponse {
        json_response: json.to_string(),
    };
    let decoded = round_trip(&pkt, ProtocolVersion(V1_21));
    assert_eq!(decoded.json_response, json);
}

#[test]
fn test_status_response_large_json() {
    let json = "x".repeat(8192);
    let pkt = CStatusResponse {
        json_response: json.clone(),
    };
    let decoded = round_trip(&pkt, ProtocolVersion(V1_21));
    assert_eq!(decoded.json_response, json);
}

#[test]
fn test_ping_request_round_trip() {
    let pkt = SPingRequest {
        payload: 1_234_567_890_123_456_789,
    };
    let decoded = round_trip(&pkt, ProtocolVersion(V1_21));
    assert_eq!(decoded.payload, 1_234_567_890_123_456_789);
}

#[test]
fn test_ping_response_round_trip() {
    let pkt = CPingResponse {
        payload: -9_876_543_210,
    };
    let decoded = round_trip(&pkt, ProtocolVersion(V1_21));
    assert_eq!(decoded.payload, -9_876_543_210);
}

#[test]
fn test_status_packets_in_registry() {
    let registry = build_default_registry();

    for version in [
        ProtocolVersion(V1_7_2),
        ProtocolVersion(V1_8),
        ProtocolVersion(V1_21),
    ] {
        assert!(
            registry.has_decoder(ConnectionState::Status, Direction::Serverbound, version, 0x00),
            "SStatusRequest should be registered for {}",
            version.display()
        );
        assert!(
            registry.has_decoder(ConnectionState::Status, Direction::Clientbound, version, 0x00),
            "CStatusResponse should be registered for {}",
            version.display()
        );
        assert!(
            registry.has_decoder(ConnectionState::Status, Direction::Serverbound, version, 0x01),
            "SPingRequest should be registered for {}",
            version.display()
        );
        assert!(
            registry.has_decoder(ConnectionState::Status, Direction::Clientbound, version, 0x01),
            "CPingResponse should be registered for {}",
            version.display()
        );
    }
}
