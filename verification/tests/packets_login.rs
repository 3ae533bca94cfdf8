use infrarust::codec::VarInt;
use infrarust::packets::{
    CEncryptionRequest, CLoginDisconnect, CLoginPluginRequest, CLoginSuccess, CSetCompression,
    Packet, Property, SEncryptionResponse, SLoginAcknowledged, SLoginPluginResponse, SLoginStart,
};
use infrarust::registry::build_default_registry;
use infrarust::version::{
    ConnectionState, Direction, ProtocolVersion, V1_13, V1_16, V1_19, V1_19_1, V1_20, V1_20_2,
    V1_20_5, V1_21, V1_21_2, V1_7_2, V1_8,
};

fn round_trip<P: Packet>(packet: &P, version: ProtocolVersion) -> P {
    let mut buf = Vec::new();
    packet.encode(&mut buf, version).unwrap();
    P::decode(&mut buf.as_slice(), version).unwrap()
}

fn notch_uuid() -> u128 {
    uuid::Uuid::parse_str("069a79f4-44e9-4726-a5be-fca90e38aaf5").unwrap().as_u128()
}

#[test]
fn test_login_start_v1_8_name_only() {
    let pkt = SLoginStart {
        name: "Notch".to_string(),
        uuid: None,
        signature_data: None,
    };
    let decoded = round_trip(&pkt, ProtocolVersion(V1_8));
    assert_eq!(decoded.name, "Notch");
    assert!(decoded.uuid.is_none());
    assert!(decoded.signature_data.is_none());
}

#[test]
fn test_login_start_v1_20_2_name_and_uuid() {
    let uuid = notch_uuid();
    let pkt = SLoginStart {
        name: "Notch".to_string(),
        uuid: Some(uuid),
        signature_data: None,
    };
    let decoded = round_trip(&pkt, ProtocolVersion(V1_20_2));
    assert_eq!(decoded.name, "Notch");
    assert_eq!(decoded.uuid, Some(uuid));
}

#[test]
fn login_start_empty_name_is_refused() {
    let pkt = SLoginStart { name: String::new(), uuid: None, signature_data: None };
    let mut buf = Vec::new();
    pkt.encode(&mut buf, ProtocolVersion(V1_8)).unwrap();
    assert!(SLoginStart::decode(&mut buf.as_slice(), ProtocolVersion(V1_8)).is_err());
}

#[test]
fn login_start_name_over_16_chars_is_refused() {
    let pkt = SLoginStart { name: "a".repeat(17), uuid: None, signature_data: None };
    let mut buf = Vec::new();
    pkt.encode(&mut buf, ProtocolVersion(V1_8)).unwrap();
    assert!(SLoginStart::decode(&mut buf.as_slice(), ProtocolVersion(V1_8)).is_err());
}

#[test]
fn login_start_1_19_player_key_round_trip() {
    // timestamp, public key [1, 2], signature [3]
    let mut key = 7_i64.to_be_bytes().to_vec();
    key.extend_from_slice(&[2, 1, 2, 1, 3]);
    let pkt = SLoginStart {
        name: "Steve".to_string(),
        uuid: Some(5),
        signature_data: Some(key.clone()),
    };
    let decoded = round_trip(&pkt, ProtocolVersion(V1_19_1));
    assert_eq!(decoded.signature_data, Some(key));
    assert_eq!(decoded.uuid, Some(5));
}

#[test]
fn login_start_1_20_2_without_uuid_sends_nil() {
    let pkt = SLoginStart { name: "Steve".to_string(), uuid: None, signature_data: None };
    let decoded = round_trip(&pkt, ProtocolVersion(V1_20_2));
    assert_eq!(decoded.uuid, Some(0));
}

#[test]
fn test_login_success_v1_8_uuid_string() {
    let uuid = notch_uuid();
    let pkt = CLoginSuccess {
        uuid,
        username: "Notch".to_string(),
        properties: Vec::new(),
        strict_error_handling: false,
    };
    let decoded = round_trip(&pkt, ProtocolVersion(V1_8));
    assert_eq!(decoded.uuid, uuid);
    assert_eq!(decoded.username, "Notch");
    assert!(decoded.properties.is_empty());
}

#[test]
fn login_success_uuid_text_forms() {
    let uuid = notch_uuid();
    let pkt = CLoginSuccess {
        uuid,
        username: "Notch".to_string(),
        properties: Vec::new(),
        strict_error_handling: false,
    };
    let mut buf = Vec::new();
    pkt.encode(&mut buf, ProtocolVersion(V1_8)).unwrap();
    assert_eq!(buf[0], 36);
    assert_eq!(&buf[1..37], b"069a79f4-44e9-4726-a5be-fca90e38aaf5");
    let mut buf = Vec::new();
    pkt.encode(&mut buf, ProtocolVersion(V1_7_2)).unwrap();
    assert_eq!(buf[0], 32);
    assert_eq!(&buf[1..33], b"069a79f444e94726a5befca90e38aaf5");
    let decoded = CLoginSuccess::decode(&mut buf.as_slice(), ProtocolVersion(V1_7_2)).unwrap();
    assert_eq!(decoded.uuid, uuid);
}

#[test]
fn test_login_success_v1_19_binary_uuid_with_properties() {
    let uuid = notch_uuid();
    let pkt = CLoginSuccess {
        uuid,
        username: "Notch".to_string(),
        properties: vec![
            Property {
                name: "textures".to_string(),
                value: "base64data".to_string(),
                signature: Some("sig123".to_string()),
            },
            Property {
                name: "other".to_string(),
                value: "val".to_string(),
                signature: None,
            },
        ],
        strict_error_handling: false,
    };
    let decoded = round_trip(&pkt, ProtocolVersion(V1_19));
    assert_eq!(decoded.uuid, uuid);
    assert_eq!(decoded.username, "Notch");
    assert_eq!(decoded.properties.len(), 2);
    assert_eq!(decoded.properties[0].name, "textures");
    assert_eq!(decoded.properties[0].signature, Some("sig123".to_string()));
    assert!(decoded.properties[1].signature.is_none());
}

#[test]
fn test_login_success_v1_20_5_strict_error_handling() {
    let uuid = notch_uuid();
    let pkt = CLoginSuccess {
        uuid,
        username: "Notch".to_string(),
        properties: Vec::new(),
        strict_error_handling: true,
    };
    let decoded = round_trip(&pkt, ProtocolVersion(V1_20_5));
    assert!(decoded.strict_error_handling);

    // V1_21_2 should NOT have strict_error_handling
    let decoded_new = round_trip(&pkt, ProtocolVersion(V1_21_2));
    assert!(!decoded_new.strict_error_handling);
}

#[test]
fn test_login_success_v1_16_uuid_int_array() {
    let uuid = notch_uuid();
    let pkt = CLoginSuccess {
        uuid,
        username: "Notch".to_string(),
        properties: Vec::new(),
        strict_error_handling: false,
    };
    let decoded = round_trip(&pkt, ProtocolVersion(V1_16));
    assert_eq!(decoded.uuid, uuid);
    assert_eq!(decoded.username, "Notch");
}

#[test]
fn login_success_invalid_uuid_text_is_refused() {
    let mut buf = vec![4u8];
    buf.extend_from_slice(b"nope");
    buf.extend_from_slice(&[1, b'A']);
    assert!(CLoginSuccess::decode(&mut buf.as_slice(), ProtocolVersion(V1_8)).is_err());
}

#[test]
fn test_encryption_request_v1_8() {
    let pkt = CEncryptionRequest {
        server_id: String::new(),
        public_key: vec![1, 2, 3, 4, 5],
        verify_token: vec![10, 20, 30, 40],
        should_authenticate: true,
    };
    let decoded = round_trip(&pkt, ProtocolVersion(V1_8));
    assert!(decoded.server_id.is_empty());
    assert_eq!(decoded.public_key, vec![1, 2, 3, 4, 5]);
    assert_eq!(decoded.verify_token, vec![10, 20, 30, 40]);
    assert!(decoded.should_authenticate); // default true for < 1.20.5
}

#[test]
fn test_encryption_request_v1_20_5_with_should_authenticate() {
    let pkt = CEncryptionRequest {
        server_id: String::new(),
        public_key: vec![1, 2, 3],
        verify_token: vec![4, 5, 6],
        should_authenticate: false,
    };
    let decoded = round_trip(&pkt, ProtocolVersion(V1_20_5));
    assert!(!decoded.should_authenticate);
}

#[test]
fn test_encryption_response_v1_8() {
    let pkt = SEncryptionResponse {
        shared_secret: vec![0xAB; 16],
        verify_token: vec![0xCD; 4],
        salt: None,
    };
    let decoded = round_trip(&pkt, ProtocolVersion(V1_8));
    assert_eq!(decoded.shared_secret, vec![0xAB; 16]);
    assert_eq!(decoded.verify_token, vec![0xCD; 4]);
    assert!(decoded.salt.is_none());
}

#[test]
fn encryption_response_1_19_salt_round_trip() {
    let pkt = SEncryptionResponse {
        shared_secret: vec![1; 16],
        verify_token: vec![2; 4],
        salt: Some(-5),
    };
    let decoded = round_trip(&pkt, ProtocolVersion(V1_19));
    assert_eq!(decoded.salt, Some(-5));
}

#[test]
fn test_set_compression_round_trip() {
    let pkt = CSetCompression {
        threshold: VarInt(256),
    };
    let decoded = round_trip(&pkt, ProtocolVersion(V1_8));
    assert_eq!(decoded.threshold, VarInt(256));

    // Negative threshold = disable compression
    let pkt2 = CSetCompression {
        threshold: VarInt(-1),
    };
    let decoded2 = round_trip(&pkt2, ProtocolVersion(V1_21));
    assert_eq!(decoded2.threshold, VarInt(-1));
}

#[test]
fn test_login_disconnect_round_trip() {
    let reason = r#"{"text":"You are banned!"}"#;
    let pkt = CLoginDisconnect {
        reason: reason.to_string(),
    };
    let decoded = round_trip(&pkt, ProtocolVersion(V1_21));
    assert_eq!(decoded.reason, reason);
}

#[test]
fn test_login_plugin_request_response_round_trip() {
    let req = CLoginPluginRequest {
        message_id: VarInt(42),
        channel: "velocity:player_info".to_string(),
        data: vec![1, 2, 3, 4, 5],
    };
    let decoded_req = round_trip(&req, ProtocolVersion(V1_13));
    assert_eq!(decoded_req.message_id, VarInt(42));
    assert_eq!(decoded_req.channel, "velocity:player_info");
    assert_eq!(decoded_req.data, vec![1, 2, 3, 4, 5]);

    let resp = SLoginPluginResponse {
        message_id: VarInt(42),
        successful: true,
        data: vec![6, 7, 8],
    };
    let decoded_resp = round_trip(&resp, ProtocolVersion(V1_13));
    assert_eq!(decoded_resp.message_id, VarInt(42));
    assert!(decoded_resp.successful);
    assert_eq!(decoded_resp.data, vec![6, 7, 8]);
}

#[test]
fn test_login_acknowledged_round_trip() {
    let pkt = SLoginAcknowledged;
    let mut buf = Vec::new();
    pkt.encode(&mut buf, ProtocolVersion(V1_20_2)).unwrap();
    assert!(buf.is_empty());
    SLoginAcknowledged::decode(&mut buf.as_slice(), ProtocolVersion(V1_20_2)).unwrap();
}

#[test]
fn test_login_acknowledged_only_registered_for_1_20_2_plus() {
    let registry = build_default_registry();

    assert!(
        registry
            .get_packet_id::<SLoginAcknowledged>(
                ConnectionState::Login,
                Direction::Serverbound,
                ProtocolVersion(V1_20),
            )
            .is_none(),
        "SLoginAcknowledged should not be registered for V1_20"
    );

    assert!(
        registry
            .get_packet_id::<SLoginAcknowledged>(
                ConnectionState::Login,
                Direction::Serverbound,
                ProtocolVersion(V1_20_2),
            )
            .is_some(),
        "SLoginAcknowledged should be registered for V1_20_2"
    );
}

#[test]
fn login_start_and_success_registered() {
    let registry = build_default_registry();
    let v = ProtocolVersion(V1_19_1);
    assert_eq!(
        registry.get_packet_id::<SLoginStart>(ConnectionState::Login, Direction::Serverbound, v),
        Some(0x00)
    );
    assert_eq!(
        registry.get_packet_id::<CLoginSuccess>(ConnectionState::Login, Direction::Clientbound, v),
        Some(0x02)
    );
}

#[test]
fn login_success_reads_uppercase_uuid_text() {
    for text in [
        "069A79F4-44E9-4726-A5BE-FCA90E38AAF5",
        "069A79F444E94726A5BEFCA90E38AAF5",
    ] {
        let mut buf = vec![text.len() as u8];
        buf.extend_from_slice(text.as_bytes());
        buf.push(5);
        buf.extend_from_slice(b"Notch");
        let decoded = CLoginSuccess::decode(&mut buf.as_slice(), ProtocolVersion(V1_8)).unwrap();
        assert_eq!(decoded.uuid, notch_uuid(), "{text}");
        assert_eq!(decoded.username, "Notch");
    }
    let text = "{069a79f4-44e9-4726-a5be-fca90e38aaf5}";
    let mut buf = vec![text.len() as u8];
    buf.extend_from_slice(text.as_bytes());
    buf.push(5);
    buf.extend_from_slice(b"Notch");
    assert!(CLoginSuccess::decode(&mut buf.as_slice(), ProtocolVersion(V1_8)).is_err());
}

#[test]
fn login_success_drops_fields_its_version_lacks() {
    let pkt = CLoginSuccess {
        uuid: notch_uuid(),
        username: "Notch".to_string(),
        properties: vec![Property {
            name: "textures".to_string(),
            value: "v".to_string(),
            signature: None,
        }],
        strict_error_handling: true,
    };
    let old = round_trip(&pkt, ProtocolVersion(V1_16));
    assert_eq!(old.uuid, notch_uuid());
    assert_eq!(old.username, "Notch");
    assert!(old.properties.is_empty());
    assert!(!old.strict_error_handling);
    let mid = round_trip(&pkt, ProtocolVersion(V1_20_2));
    assert_eq!(mid.properties.len(), 1);
    assert!(!mid.strict_error_handling);
    let new = round_trip(&pkt, ProtocolVersion(V1_21));
    assert_eq!(new.properties.len(), 1);
    assert!(new.strict_error_handling);
}
