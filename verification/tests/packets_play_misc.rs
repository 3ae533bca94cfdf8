use infrarust::packets::play::misc::{
    CKeepAlive, CSetCenterChunk, CStartConfiguration, CTransfer, SAcknowledgeConfiguration,
    SChatSessionUpdate, SKeepAlive,
};
use infrarust::packets::play::spawn_position::{pack_block_position, CSetDefaultSpawnPosition};
use infrarust::packets::play::{CTabCompleteResponse, STabCompleteRequest, TabCompleteMatch};
use infrarust::packets::Packet;
use infrarust::version::{ProtocolVersion, V1_12_2, V1_21, V1_21_9, V1_7_2, V1_8};

fn round_trip<P: Packet>(packet: &P, version: ProtocolVersion) -> P {
    let mut buf = Vec::new();
    packet.encode(&mut buf, version).unwrap();
    P::decode(&mut buf.as_slice(), version).unwrap()
}

#[test]
fn test_keepalive_round_trip_i64() {
    let pkt = CKeepAlive {
        id: 0x1234_5678_9ABC_DEF0,
    };
    let decoded = round_trip(&pkt, ProtocolVersion(V1_21));
    assert_eq!(decoded.id, 0x1234_5678_9ABC_DEF0);
}

#[test]
fn test_keepalive_round_trip_varint() {
    let pkt = CKeepAlive { id: 42 };
    let decoded = round_trip(&pkt, ProtocolVersion(V1_8));
    assert_eq!(decoded.id, 42);
}

#[test]
fn test_keepalive_round_trip_i32() {
    let pkt = CKeepAlive { id: 12345 };
    let decoded = round_trip(&pkt, ProtocolVersion(V1_7_2));
    assert_eq!(decoded.id, 12345);
}

#[test]
fn test_keepalive_serverbound_matches_clientbound() {
    let client = CKeepAlive { id: 99 };
    let mut buf = Vec::new();
    client.encode(&mut buf, ProtocolVersion(V1_21)).unwrap();

    let server = SKeepAlive::decode(&mut buf.as_slice(), ProtocolVersion(V1_21)).unwrap();
    assert_eq!(server.id, 99);
}

#[test]
fn keepalive_wire_formats() {
    let mut buf = Vec::new();
    CKeepAlive { id: 300 }.encode(&mut buf, ProtocolVersion(V1_8)).unwrap();
    assert_eq!(buf, vec![0xAC, 0x02]);
    let mut buf = Vec::new();
    CKeepAlive { id: 1 }.encode(&mut buf, ProtocolVersion(V1_7_2)).unwrap();
    assert_eq!(buf, vec![0, 0, 0, 1]);
    let mut buf = Vec::new();
    CKeepAlive { id: 1 }.encode(&mut buf, ProtocolVersion(V1_12_2)).unwrap();
    assert_eq!(buf, vec![0, 0, 0, 0, 0, 0, 0, 1]);
}

#[test]
fn test_transfer_round_trip() {
    let pkt = CTransfer {
        host: "play.example.com".to_string(),
        port: 25565,
    };
    let mut buf = Vec::new();
    pkt.encode(&mut buf, ProtocolVersion(V1_21)).unwrap();
    let decoded = CTransfer::decode(&mut buf.as_slice(), ProtocolVersion(V1_21)).unwrap();
    assert_eq!(decoded.host, "play.example.com");
    assert_eq!(decoded.port, 25565);
}

#[test]
fn center_chunk_round_trip() {
    let pkt = CSetCenterChunk {
        chunk_x: 0,
        chunk_z: 0,
    };
    let mut buf = Vec::new();
    pkt.encode(&mut buf, ProtocolVersion(V1_21)).unwrap();
    let decoded = CSetCenterChunk::decode(&mut buf.as_slice(), ProtocolVersion(V1_21)).unwrap();
    assert_eq!(decoded.chunk_x, 0);
    assert_eq!(decoded.chunk_z, 0);
}

#[test]
fn center_chunk_negative_coordinates() {
    let pkt = CSetCenterChunk { chunk_x: -3, chunk_z: 70000 };
    let decoded = round_trip(&pkt, ProtocolVersion(V1_21));
    assert_eq!(decoded.chunk_x, -3);
    assert_eq!(decoded.chunk_z, 70000);
}

#[test]
fn empty_play_packets_have_empty_payloads() {
    let v = ProtocolVersion(V1_21);
    let mut buf = Vec::new();
    CStartConfiguration.encode(&mut buf, v).unwrap();
    SAcknowledgeConfiguration.encode(&mut buf, v).unwrap();
    assert!(buf.is_empty());
    assert!(CStartConfiguration::decode(&mut buf.as_slice(), v).is_ok());
    let mut raw: &[u8] = &[1, 2, 3];
    assert!(SChatSessionUpdate::decode(&mut raw, v).is_err());
}

#[test]
fn pack_origin() {
    let packed = pack_block_position(0, 64, 0);
    // Y=64 → bits 0..11 = 64
    assert_eq!(packed & 0xFFF, 64);
}

#[test]
fn pack_negative_coordinates() {
    let packed = pack_block_position(-1, -1, -1);
    assert_eq!(packed, -1);
    let packed = pack_block_position(1, 2, 3);
    assert_eq!(packed, (1_i64 << 38) | (3_i64 << 12) | 2);
}

#[test]
fn tab_complete_request_round_trip() {
    let pkt = STabCompleteRequest { transaction_id: 7, text: "/gamemode cr".to_string() };
    let decoded = round_trip(&pkt, ProtocolVersion(V1_21));
    assert_eq!(decoded.transaction_id, 7);
    assert_eq!(decoded.text, "/gamemode cr");
}

#[test]
fn tab_complete_response_round_trip() {
    let pkt = CTabCompleteResponse {
        transaction_id: 7,
        start: 10,
        length: 2,
        matches: vec![
            TabCompleteMatch { text: "creative".to_string(), tooltip: None },
            TabCompleteMatch { text: "crash".to_string(), tooltip: Some("{\"text\":\"no\"}".to_string()) },
        ],
    };
    let mut buf = Vec::new();
    pkt.encode(&mut buf, ProtocolVersion(V1_21)).unwrap();
    buf.push(0xEE);
    let mut r: &[u8] = &buf;
    let decoded = CTabCompleteResponse::decode(&mut r, ProtocolVersion(V1_21)).unwrap();
    assert_eq!(r, &[0xEE]);
    assert_eq!((decoded.transaction_id, decoded.start, decoded.length), (7, 10, 2));
    assert_eq!(decoded.matches.len(), 2);
    assert_eq!(decoded.matches[0].text, "creative");
    assert_eq!(decoded.matches[0].tooltip, None);
    assert_eq!(decoded.matches[1].text, "crash");
    assert_eq!(decoded.matches[1].tooltip.as_deref(), Some("{\"text\":\"no\"}"));
}

#[test]
fn spawn_position_round_trip() {
    let pkt = CSetDefaultSpawnPosition::at(0, 64, 0, 0.0f32.to_bits());
    let mut buf = Vec::new();
    pkt.encode(&mut buf, ProtocolVersion(V1_21)).unwrap();
    let decoded = CSetDefaultSpawnPosition::decode(&mut buf.as_slice(), ProtocolVersion(V1_21)).unwrap();
    assert_eq!(decoded.location, pkt.location);
    assert!((f32::from_bits(decoded.yaw) - 0.0).abs() < f32::EPSILON);
}

#[test]
fn spawn_position_wire_formats() {
    let pkt = CSetDefaultSpawnPosition::at_in("minecraft:the_end", 1, 2, 3, 90.0f32.to_bits());
    let mut old = Vec::new();
    pkt.encode(&mut old, ProtocolVersion(V1_21)).unwrap();
    assert_eq!(old.len(), 12);
    assert_eq!(&old[8..], &90.0f32.to_be_bytes());
    let back = CSetDefaultSpawnPosition::decode(&mut old.as_slice(), ProtocolVersion(V1_21)).unwrap();
    assert_eq!(back.dimension_name, "minecraft:overworld");
    assert_eq!(back.pitch, 0);

    let mut new = Vec::new();
    let mut with_pitch = pkt.clone();
    with_pitch.pitch = (-12.5f32).to_bits();
    with_pitch.encode(&mut new, ProtocolVersion(V1_21_9)).unwrap();
    let back = CSetDefaultSpawnPosition::decode(&mut new.as_slice(), ProtocolVersion(V1_21_9)).unwrap();
    assert_eq!(back.dimension_name, "minecraft:the_end");
    assert_eq!(back.location, pack_block_position(1, 2, 3));
    assert_eq!(f32::from_bits(back.yaw), 90.0);
    assert_eq!(f32::from_bits(back.pitch), -12.5);
}
