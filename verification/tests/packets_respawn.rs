use infrarust::packets::play::respawn::CRespawn;
use infrarust::packets::Packet;
use infrarust::version::{ProtocolVersion, V1_19, V1_20_2, V1_20_5, V1_21, V1_21_2};

fn round_trip_version(packet: &CRespawn, version: ProtocolVersion) -> CRespawn {
    let mut buf = Vec::new();
    packet.encode(&mut buf, version).unwrap();
    CRespawn::decode(&mut buf.as_slice(), version).unwrap()
}

#[test]
fn test_respawn_round_trip() {
    let pkt = CRespawn {
        dimension: 1,
        level_name: "minecraft:the_nether".to_string(),
        hashed_seed: 987_654_321,
        gamemode: 0,
        previous_gamemode: 1,
        is_debug: false,
        is_flat: false,
        data_to_keep: 0x03,
        death_dimension: None,
        death_position: None,
        portal_cooldown: 0,
        sea_level: 63,
        raw_payload: None,
    };
    let decoded = round_trip_version(&pkt, ProtocolVersion(V1_21));
    assert_eq!(decoded.dimension, 1);
    assert_eq!(decoded.level_name, "minecraft:the_nether");
    assert_eq!(decoded.hashed_seed, 987_654_321);
    assert_eq!(decoded.gamemode, 0);
    assert_eq!(decoded.previous_gamemode, 1);
    assert_eq!(decoded.data_to_keep, 0x03);
}

#[test]
fn test_respawn_with_death_location() {
    let pkt = CRespawn {
        dimension: 0,
        level_name: "minecraft:overworld".to_string(),
        hashed_seed: 0,
        gamemode: 0,
        previous_gamemode: -1,
        is_debug: false,
        is_flat: false,
        data_to_keep: 0,
        death_dimension: Some("minecraft:overworld".to_string()),
        death_position: Some(12_345_678),
        portal_cooldown: 10,
        sea_level: 63,
        raw_payload: None,
    };
    let decoded = round_trip_version(&pkt, ProtocolVersion(V1_20_5));
    assert_eq!(
        decoded.death_dimension.as_deref(),
        Some("minecraft:overworld")
    );
    assert_eq!(decoded.death_position, Some(12_345_678));
    assert_eq!(decoded.portal_cooldown, 10);
}

#[test]
fn test_respawn_opaque_pre_1_20_2() {
    let raw = vec![0xAA, 0xBB, 0xCC, 0xDD];
    let pkt = CRespawn {
        raw_payload: Some(raw.clone()),
        ..Default::default()
    };

    let mut buf = Vec::new();
    pkt.encode(&mut buf, ProtocolVersion(V1_19)).unwrap();
    let decoded = CRespawn::decode(&mut buf.as_slice(), ProtocolVersion(V1_19)).unwrap();
    assert_eq!(decoded.raw_payload, Some(raw));
}

#[test]
fn respawn_default_round_trip_1_21() {
    let decoded = round_trip_version(&CRespawn::default(), ProtocolVersion(V1_21));
    assert_eq!(decoded.level_name, CRespawn::default().level_name);
    assert_eq!(decoded.sea_level, CRespawn::default().sea_level);
}

#[test]
fn respawn_reads_back_as_far_as_the_version_carries() {
    let pkt = CRespawn {
        dimension: 2,
        level_name: "minecraft:the_end".to_string(),
        hashed_seed: 77,
        gamemode: 3,
        previous_gamemode: -1,
        is_debug: false,
        is_flat: true,
        data_to_keep: 1,
        death_dimension: Some("minecraft:overworld".to_string()),
        death_position: Some(99),
        portal_cooldown: 5,
        sea_level: 40,
        raw_payload: None,
    };
    let old = round_trip_version(&pkt, ProtocolVersion(V1_20_2));
    assert_eq!(old.dimension, 0);
    assert_eq!(old.sea_level, 63);
    assert_eq!(old.death_position, Some(99));
    assert_eq!(old.data_to_keep, 1);
    let new = round_trip_version(&pkt, ProtocolVersion(V1_21_2));
    assert_eq!(new.dimension, 2);
    assert_eq!(new.sea_level, 40);
    assert_eq!(new.level_name, "minecraft:the_end");
    assert_eq!(new.previous_gamemode, -1);
}
