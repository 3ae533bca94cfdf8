use std::sync::Arc;

use infrarust::codec::raw::write_u16;
use infrarust::codec::types::encode_string;
use infrarust::codec::VarInt;
use infrarust::io::{PacketEncoder, PacketFrame};
use infrarust::packets::play::misc::{CKeepAlive, CTransfer, SKeepAlive};
use infrarust::packets::play::{CJoinGame, CRespawn, CSystemChatMessage};
use infrarust::packets::{Packet, SHandshake};
use infrarust::registry::{
    build_default_registry, AnyPacket, DecodedPacket, PacketKind, PacketRegistration,
    PacketRegistry,
};
use infrarust::version::{
    ConnectionState, Direction, ProtocolVersion, V1_12, V1_17, V1_18_2, V1_19, V1_20, V1_20_5,
    V1_21, V1_21_4, V1_7_2, V1_8, V1_9,
};

fn make_handshake_payload(protocol_version: i32, address: &str, port: u16, next_state: i32) -> Vec<u8> {
    let mut buf = Vec::new();
    VarInt(protocol_version).encode(&mut buf).unwrap();
    encode_string(address, &mut buf).unwrap();
    write_u16(&mut buf, port);
    VarInt(next_state).encode(&mut buf).unwrap();
    buf
}

#[test]
fn test_decode_registered_packet_returns_typed() {
    let registry = build_default_registry();
    let payload = make_handshake_payload(767, "mc.example.com", 25565, 2);
    let frame = PacketFrame { id: 0x00, payload };

    let decoded = registry
        .decode_frame(&frame, ConnectionState::Handshake, Direction::Serverbound, ProtocolVersion(V1_21))
        .unwrap();

    match decoded {
        DecodedPacket::Typed { id, packet } => {
            assert_eq!(id, 0x00);
            let hs = match packet {
                AnyPacket::SHandshake(hs) => hs,
                _ => panic!("expected SHandshake"),
            };
            assert_eq!(hs.protocol_version, VarInt(767));
            assert_eq!(hs.server_address, "mc.example.com");
            assert_eq!(hs.server_port, 25565);
            assert_eq!(hs.next_state, ConnectionState::Login);
        }
        DecodedPacket::Opaque { .. } => panic!("expected Typed"),
    }
}

#[test]
fn test_decode_unknown_id_returns_opaque() {
    let registry = build_default_registry();
    let payload = vec![1, 2, 3, 4];
    let frame = PacketFrame { id: 0xFF, payload: payload.clone() };

    let decoded = registry
        .decode_frame(&frame, ConnectionState::Handshake, Direction::Serverbound, ProtocolVersion(V1_21))
        .unwrap();

    match decoded {
        DecodedPacket::Opaque { id, payload: p } => {
            assert_eq!(id, 0xFF);
            assert_eq!(p, payload);
        }
        DecodedPacket::Typed { .. } => panic!("expected Opaque"),
    }
}

#[test]
fn test_decode_unknown_version_returns_opaque() {
    let mut registry = PacketRegistry::new();
    PacketRegistration::<SHandshake>::new(ConnectionState::Handshake, Direction::Serverbound)
        .map(0x00, ProtocolVersion(V1_9), false)
        .register(&mut registry);

    let payload = make_handshake_payload(47, "mc.example.com", 25565, 2);
    let frame = PacketFrame { id: 0x00, payload };

    let decoded = registry
        .decode_frame(&frame, ConnectionState::Handshake, Direction::Serverbound, ProtocolVersion(V1_8))
        .unwrap();

    assert!(matches!(decoded, DecodedPacket::Opaque { .. }));
}

#[test]
fn test_versioned_mapping_different_ids() {
    let mut registry = PacketRegistry::new();
    PacketRegistration::<SHandshake>::new(ConnectionState::Handshake, Direction::Serverbound)
        .map(0x14, ProtocolVersion(V1_7_2), false)
        .map(0x01, ProtocolVersion(V1_9), false)
        .register(&mut registry);

    assert_eq!(
        registry.get_packet_id::<SHandshake>(ConnectionState::Handshake, Direction::Serverbound, ProtocolVersion(V1_8)),
        Some(0x14)
    );
    assert_eq!(
        registry.get_packet_id::<SHandshake>(ConnectionState::Handshake, Direction::Serverbound, ProtocolVersion(V1_9)),
        Some(0x01)
    );
}

#[test]
fn test_version_range_filling() {
    let mut registry = PacketRegistry::new();
    PacketRegistration::<SHandshake>::new(ConnectionState::Handshake, Direction::Serverbound)
        .map(0x00, ProtocolVersion(V1_7_2), false)
        .register(&mut registry);

    for version in [
        ProtocolVersion(V1_7_2),
        ProtocolVersion(V1_8),
        ProtocolVersion(V1_12),
        ProtocolVersion(V1_21),
        ProtocolVersion(V1_21_4),
    ] {
        assert_eq!(
            registry.get_packet_id::<SHandshake>(ConnectionState::Handshake, Direction::Serverbound, version),
            Some(0x00),
            "expected packet id for version {}",
            version.display()
        );
    }
}

#[test]
fn test_mapping_range_stops_at_next_mapping() {
    let mut registry = PacketRegistry::new();
    PacketRegistration::<SHandshake>::new(ConnectionState::Handshake, Direction::Serverbound)
        .map(0x14, ProtocolVersion(V1_7_2), false)
        .map(0x01, ProtocolVersion(V1_9), false)
        .register(&mut registry);

    assert_eq!(
        registry.get_packet_id::<SHandshake>(ConnectionState::Handshake, Direction::Serverbound, ProtocolVersion(V1_8)),
        Some(0x14)
    );
    assert_eq!(
        registry.get_packet_id::<SHandshake>(ConnectionState::Handshake, Direction::Serverbound, ProtocolVersion(V1_9)),
        Some(0x01)
    );
    assert!(!registry.has_decoder(ConnectionState::Handshake, Direction::Serverbound, ProtocolVersion(V1_8), 0x01));
}

#[test]
fn test_explicit_to_range() {
    let mut registry = PacketRegistry::new();
    PacketRegistration::<SHandshake>::new(ConnectionState::Handshake, Direction::Serverbound)
        .map_range(0x0F, ProtocolVersion(V1_17), ProtocolVersion(V1_18_2), false)
        .register(&mut registry);

    assert_eq!(
        registry.get_packet_id::<SHandshake>(ConnectionState::Handshake, Direction::Serverbound, ProtocolVersion(V1_17)),
        Some(0x0F)
    );
    assert_eq!(
        registry.get_packet_id::<SHandshake>(ConnectionState::Handshake, Direction::Serverbound, ProtocolVersion(V1_18_2)),
        Some(0x0F)
    );
    assert_eq!(
        registry.get_packet_id::<SHandshake>(ConnectionState::Handshake, Direction::Serverbound, ProtocolVersion(V1_19)),
        None
    );
}

#[test]
fn test_encode_only_not_in_decoder() {
    let mut registry = PacketRegistry::new();
    PacketRegistration::<SHandshake>::new(ConnectionState::Handshake, Direction::Serverbound)
        .map(0x10, ProtocolVersion(V1_7_2), true)
        .register(&mut registry);

    assert!(!registry.has_decoder(ConnectionState::Handshake, Direction::Serverbound, ProtocolVersion(V1_7_2), 0x10));
    assert_eq!(
        registry.get_packet_id::<SHandshake>(ConnectionState::Handshake, Direction::Serverbound, ProtocolVersion(V1_7_2)),
        Some(0x10)
    );
}

#[test]
fn test_get_packet_id_returns_none_for_unregistered() {
    let registry = PacketRegistry::new();
    assert_eq!(
        registry.get_packet_id::<SHandshake>(ConnectionState::Play, Direction::Clientbound, ProtocolVersion(V1_21)),
        None
    );
}

#[test]
fn test_default_registry_has_handshake() {
    let registry = build_default_registry();
    assert!(registry.has_decoder(ConnectionState::Handshake, Direction::Serverbound, ProtocolVersion(V1_7_2), 0x00));
    assert!(registry.has_decoder(ConnectionState::Handshake, Direction::Serverbound, ProtocolVersion(V1_21), 0x00));
}

#[test]
fn test_decode_frame_with_corrupted_payload_returns_error() {
    let registry = build_default_registry();
    // Truncated payload: the VarInt starts but the string is missing.
    let frame = PacketFrame { id: 0x00, payload: vec![0xFF, 0x05] };
    let result = registry.decode_frame(
        &frame,
        ConnectionState::Handshake,
        Direction::Serverbound,
        ProtocolVersion(V1_21),
    );
    assert!(result.is_err());
}

#[test]
fn test_registry_can_be_shared_via_arc() {
    let registry = Arc::new(build_default_registry());
    let clone = Arc::clone(&registry);
    assert!(clone.has_decoder(ConnectionState::Handshake, Direction::Serverbound, ProtocolVersion(V1_21), 0x00));
}

#[test]
fn test_registry_has_all_play_packets() {
    let registry = build_default_registry();
    let v = ProtocolVersion(V1_21);
    let cb = (ConnectionState::Play, Direction::Clientbound);
    let sb = (ConnectionState::Play, Direction::Serverbound);

    // Clientbound
    assert!(registry.get_packet_id::<CKeepAlive>(cb.0, cb.1, v).is_some());
    assert!(registry.get_kind_id(PacketKind::CDisconnect, cb.0, cb.1, v).is_some());
    assert!(registry.get_packet_id::<CJoinGame>(cb.0, cb.1, v).is_some());
    assert!(registry.get_packet_id::<CRespawn>(cb.0, cb.1, v).is_some());
    assert!(registry.get_kind_id(PacketKind::CPluginMessage, cb.0, cb.1, v).is_some());
    assert!(registry.get_packet_id::<CSystemChatMessage>(cb.0, cb.1, v).is_some());
    assert!(registry.get_packet_id::<CTransfer>(cb.0, cb.1, v).is_some());

    // Serverbound
    assert!(registry.get_packet_id::<SKeepAlive>(sb.0, sb.1, v).is_some());
    assert!(registry.get_kind_id(PacketKind::SPluginMessage, sb.0, sb.1, v).is_some());
}

#[test]
fn test_registry_keepalive_different_ids_by_version() {
    let registry = build_default_registry();
    let id_v1_8 = registry
        .get_packet_id::<CKeepAlive>(ConnectionState::Play, Direction::Clientbound, ProtocolVersion(V1_8))
        .unwrap();
    let id_v1_21 = registry
        .get_packet_id::<CKeepAlive>(ConnectionState::Play, Direction::Clientbound, ProtocolVersion(V1_21))
        .unwrap();
    assert_ne!(id_v1_8, id_v1_21);
    assert_eq!(id_v1_8, 0x00);
}

#[test]
fn test_transfer_not_registered_before_1_20_5() {
    let registry = build_default_registry();
    assert!(
        registry
            .get_packet_id::<CTransfer>(ConnectionState::Play, Direction::Clientbound, ProtocolVersion(V1_20))
            .is_none(),
        "CTransfer should not be registered before V1_20_5"
    );
    assert!(
        registry
            .get_packet_id::<CTransfer>(ConnectionState::Play, Direction::Clientbound, ProtocolVersion(V1_20_5))
            .is_some(),
        "CTransfer should be registered for V1_20_5+"
    );
}

fn read_varint(bytes: &[u8], pos: &mut usize) -> i32 {
    let mut value: u32 = 0;
    let mut shift = 0;
    loop {
        let b = bytes[*pos];
        *pos += 1;
        value |= u32::from(b & 0x7F) << shift;
        if b & 0x80 == 0 {
            return value as i32;
        }
        shift += 7;
    }
}

#[test]
fn test_end_to_end_play_packet() {
    let registry = build_default_registry();
    let version = ProtocolVersion(V1_21);
    let state = ConnectionState::Play;
    let direction = Direction::Clientbound;

    let packet_id = registry
        .get_packet_id::<CKeepAlive>(state, direction, version)
        .expect("CKeepAlive should be registered");

    let pkt = CKeepAlive { id: 0xDEAD_BEEF_CAFE };
    let mut payload = Vec::new();
    pkt.encode(&mut payload, version).unwrap();

    let mut encoder = PacketEncoder::new();
    encoder.append_raw(packet_id, &payload).unwrap();
    let wire_bytes = encoder.take();

    // Unframe: [length] [id] [payload]
    let mut pos = 0;
    let len = read_varint(&wire_bytes, &mut pos) as usize;
    assert_eq!(wire_bytes.len(), pos + len);
    let id = read_varint(&wire_bytes, &mut pos);
    assert_eq!(id, packet_id);
    let frame = PacketFrame { id, payload: wire_bytes[pos..].to_vec() };

    let decoded = registry.decode_frame(&frame, state, direction, version).unwrap();
    match decoded {
        DecodedPacket::Typed { id, packet } => {
            assert_eq!(id, packet_id);
            match packet {
                AnyPacket::CKeepAlive(k) => assert_eq!(k.id, 0xDEAD_BEEF_CAFE),
                _ => panic!("should be CKeepAlive"),
            }
        }
        DecodedPacket::Opaque { .. } => panic!("expected Typed, got Opaque"),
    }
}

#[test]
fn encode_only_packet_decodes_as_opaque() {
    // CJoinGame is registered encode-only: its ID decodes to nothing.
    let registry = build_default_registry();
    let v = ProtocolVersion(V1_21);
    let id = registry.get_packet_id::<CJoinGame>(ConnectionState::Play, Direction::Clientbound, v).unwrap();
    assert_eq!(id, 0x2B);
    assert!(!registry.has_decoder(ConnectionState::Play, Direction::Clientbound, v, id));
}

#[test]
fn later_registration_replaces_decoder() {
    let mut registry = PacketRegistry::new();
    PacketRegistration::<SHandshake>::new(ConnectionState::Play, Direction::Serverbound)
        .map(0x05, ProtocolVersion(V1_21), false)
        .register(&mut registry);
    PacketRegistration::<SKeepAlive>::new(ConnectionState::Play, Direction::Serverbound)
        .map(0x05, ProtocolVersion(V1_21), false)
        .register(&mut registry);
    assert_eq!(
        registry.decoder_kind(ConnectionState::Play, Direction::Serverbound, ProtocolVersion(V1_21), 0x05),
        Some(PacketKind::SKeepAlive)
    );
}

#[test]
fn last_mapping_at_or_below_version_wins() {
    let mut registry = PacketRegistry::new();
    PacketRegistration::<SHandshake>::new(ConnectionState::Handshake, Direction::Serverbound)
        .map(0x10, ProtocolVersion(V1_8), false)
        .map(0x20, ProtocolVersion(V1_12), true)
        .map(0x30, ProtocolVersion(V1_19), false)
        .register(&mut registry);
    let id = |v: i32| {
        registry.get_packet_id::<SHandshake>(ConnectionState::Handshake, Direction::Serverbound, ProtocolVersion(v))
    };
    assert_eq!(id(V1_7_2), None);
    assert_eq!(id(V1_8), Some(0x10));
    assert_eq!(id(V1_9), Some(0x10));
    assert_eq!(id(V1_12), Some(0x20));
    assert_eq!(id(V1_18_2), Some(0x20));
    assert_eq!(id(V1_19), Some(0x30));
    assert_eq!(id(V1_21_4), Some(0x30));
    assert_eq!(id(999), None);
    let hs = ConnectionState::Handshake;
    let sb = Direction::Serverbound;
    assert!(registry.has_decoder(hs, sb, ProtocolVersion(V1_9), 0x10));
    assert!(!registry.has_decoder(hs, sb, ProtocolVersion(V1_12), 0x20));
    assert!(!registry.has_decoder(hs, sb, ProtocolVersion(V1_12), 0x10));
    assert!(registry.has_decoder(hs, sb, ProtocolVersion(V1_20), 0x30));
}

#[test]
fn packets_without_a_typed_form_have_no_decoder_and_pass_through() {
    let registry = build_default_registry();
    let v = ProtocolVersion(V1_20_5);
    let cfg = (ConnectionState::Config, Direction::Clientbound);
    assert_eq!(registry.get_kind_id(PacketKind::CKnownPacks, cfg.0, cfg.1, v), Some(0x0E));
    assert!(!registry.has_decoder(cfg.0, cfg.1, v, 0x0E));
    let frame = PacketFrame { id: 0x0E, payload: vec![1, 2, 3] };
    match registry.decode_frame(&frame, cfg.0, cfg.1, v).unwrap() {
        DecodedPacket::Opaque { id, payload } => {
            assert_eq!(id, 0x0E);
            assert_eq!(payload, vec![1, 2, 3]);
        }
        DecodedPacket::Typed { .. } => panic!("expected Opaque"),
    }
    let play = (ConnectionState::Play, Direction::Clientbound);
    assert_eq!(registry.get_kind_id(PacketKind::CDisconnect, play.0, play.1, v), Some(0x1D));
    assert!(!registry.has_decoder(play.0, play.1, v, 0x1D));
}

#[test]
fn registered_decoder_never_gives_opaque() {
    let registry = build_default_registry();
    let frame = PacketFrame { id: 0x00, payload: vec![0x80] };
    assert!(registry
        .decode_frame(&frame, ConnectionState::Handshake, Direction::Serverbound, ProtocolVersion(V1_21))
        .is_err());
}
