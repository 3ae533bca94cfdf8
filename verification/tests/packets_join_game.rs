use infrarust::packets::play::join_game::CJoinGame;
use infrarust::packets::Packet;
use infrarust::version::{ProtocolVersion, V1_19, V1_20_2, V1_20_5, V1_21, V1_21_2};

fn round_trip_version(packet: &CJoinGame, version: ProtocolVersion) -> CJoinGame {
    let mut buf = Vec::new();
    packet.encode(&mut buf, version).unwrap();
    CJoinGame::decode(&mut buf.as_slice(), version).unwrap()
}

#[test]
fn test_join_game_round_trip_modern() {
    let pkt = CJoinGame {
        entity_id: 42,
        is_hardcore: true,
        gamemode: 1,
        previous_gamemode: 0,
        max_players: 100,
        view_distance: 16,
        simulation_distance: 12,
        reduced_debug_info: false,
        enable_respawn_screen: true,
        do_limited_crafting: false,
        level_names: vec![
            "minecraft:overworld".to_string(),
            "minecraft:the_nether".to_string(),
        ],
        level_name: "minecraft:overworld".to_string(),
        hashed_seed: 123_456_789,
        is_debug: false,
        is_flat: false,
        dimension: 0,
        portal_cooldown: 20,
        sea_level: 63,
        enforces_secure_chat: true,
        death_dimension: None,
        death_position: None,
        raw_payload: None,
    };
    let decoded = round_trip_version(&pkt, ProtocolVersion(V1_21));
    assert_eq!(decoded.entity_id, 42);
    assert!(decoded.is_hardcore);
    assert_eq!(decoded.gamemode, 1);
    assert_eq!(decoded.previous_gamemode, 0);
    assert_eq!(decoded.max_players, 100);
    assert_eq!(decoded.view_distance, 16);
    assert_eq!(decoded.simulation_distance, 12);
    assert!(decoded.enable_respawn_screen);
    assert_eq!(decoded.level_names.len(), 2);
    assert_eq!(decoded.level_name, "minecraft:overworld");
    assert_eq!(decoded.hashed_seed, 123_456_789);
    assert_eq!(decoded.portal_cooldown, 20);
    assert!(decoded.enforces_secure_chat);
    assert!(decoded.raw_payload.is_none());
}

#[test]
fn test_join_game_round_trip_1_20_2() {
    let pkt = CJoinGame {
        entity_id: 42,
        is_hardcore: true,
        gamemode: 1,
        previous_gamemode: 0,
        max_players: 100,
        view_distance: 16,
        simulation_distance: 12,
        reduced_debug_info: false,
        enable_respawn_screen: true,
        do_limited_crafting: false,
        level_names: vec![
            "minecraft:overworld".to_string(),
            "minecraft:the_nether".to_string(),
        ],
        level_name: "minecraft:overworld".to_string(),
        hashed_seed: 123_456_789,
        is_debug: false,
        is_flat: false,
        dimension: 0,
        portal_cooldown: 20,
        sea_level: 63,
        enforces_secure_chat: true, // intentionally true to verify it is NOT encoded
        death_dimension: None,
        death_position: None,
        raw_payload: None,
    };
    let decoded = round_trip_version(&pkt, ProtocolVersion(V1_20_2));
    assert_eq!(decoded.entity_id, 42);
    assert!(decoded.is_hardcore);
    assert_eq!(decoded.gamemode, 1);
    assert_eq!(decoded.previous_gamemode, 0);
    assert_eq!(decoded.max_players, 100);
    assert_eq!(decoded.view_distance, 16);
    assert_eq!(decoded.simulation_distance, 12);
    assert!(decoded.enable_respawn_screen);
    assert_eq!(decoded.level_names.len(), 2);
    assert_eq!(decoded.level_name, "minecraft:overworld");
    assert_eq!(decoded.hashed_seed, 123_456_789);
    assert_eq!(decoded.portal_cooldown, 20);
    assert!(!decoded.enforces_secure_chat);
    assert!(decoded.raw_payload.is_none());
}

#[test]
fn test_join_game_entity_id_preserved() {
    let pkt = CJoinGame {
        entity_id: -12345,
        ..Default::default()
    };
    // Test with modern version
    let decoded = round_trip_version(&pkt, ProtocolVersion(V1_20_5));
    assert_eq!(decoded.entity_id, -12345);
}

#[test]
fn test_join_game_opaque_data_preserved() {
    // For pre-1.20.2, the packet stores raw_payload
    let raw = vec![0x01, 0x02, 0x03, 0x04, 0x05];
    let pkt = CJoinGame {
        entity_id: 99,
        raw_payload: Some(raw.clone()),
        ..Default::default()
    };

    let mut buf = Vec::new();
    pkt.encode(&mut buf, ProtocolVersion(V1_19)).unwrap();
    let decoded = CJoinGame::decode(&mut buf.as_slice(), ProtocolVersion(V1_19)).unwrap();
    assert_eq!(decoded.entity_id, 99);
    assert_eq!(decoded.raw_payload, Some(raw));
}

#[test]
fn test_join_game_death_location() {
    let pkt = CJoinGame {
        entity_id: 1,
        death_dimension: Some("minecraft:the_nether".to_string()),
        death_position: Some(0x0000_0001_0000_0002),
        level_names: vec!["minecraft:overworld".to_string()],
        level_name: "minecraft:overworld".to_string(),
        ..Default::default()
    };
    let decoded = round_trip_version(&pkt, ProtocolVersion(V1_20_5));
    assert_eq!(
        decoded.death_dimension.as_deref(),
        Some("minecraft:the_nether")
    );
    assert_eq!(decoded.death_position, Some(0x0000_0001_0000_0002));
}

#[test]
fn test_join_game_sea_level_v1_21_2() {
    let pkt = CJoinGame {
        entity_id: 1,
        sea_level: 128,
        level_names: vec!["minecraft:overworld".to_string()],
        level_name: "minecraft:overworld".to_string(),
        ..Default::default()
    };
    let decoded = round_trip_version(&pkt, ProtocolVersion(V1_21_2));
    assert_eq!(decoded.sea_level, 128);
}

#[test]
fn join_game_raw_payload_follows_entity_id() {
    let pkt = CJoinGame { entity_id: 5, raw_payload: Some(vec![9, 8]), ..Default::default() };
    let mut buf = Vec::new();
    pkt.encode(&mut buf, ProtocolVersion(V1_19)).unwrap();
    assert_eq!(buf, vec![0, 0, 0, 5, 9, 8]);
}

fn sample_join_game() -> CJoinGame {
    CJoinGame {
        entity_id: 9,
        is_hardcore: false,
        gamemode: 2,
        previous_gamemode: 1,
        max_players: 50,
        view_distance: 8,
        simulation_distance: 6,
        reduced_debug_info: true,
        enable_respawn_screen: false,
        do_limited_crafting: true,
        level_names: vec!["minecraft:overworld".to_string()],
        level_name: "minecraft:overworld".to_string(),
        hashed_seed: -5,
        is_debug: true,
        is_flat: true,
        dimension: 3,
        portal_cooldown: 40,
        sea_level: 80,
        enforces_secure_chat: true,
        death_dimension: Some("minecraft:the_end".to_string()),
        death_position: None,
        raw_payload: None,
    }
}

#[test]
fn join_game_reads_back_as_far_as_the_version_carries() {
    let pkt = sample_join_game();
    let old = round_trip_version(&pkt, ProtocolVersion(V1_20_2));
    assert_eq!(old.dimension, 0);
    assert_eq!(old.sea_level, 63);
    assert!(!old.enforces_secure_chat);
    assert_eq!(old.death_dimension, None);
    assert_eq!(old.level_name, "minecraft:overworld");
    assert_eq!(old.portal_cooldown, 40);

    let new = round_trip_version(&pkt, ProtocolVersion(V1_21_2));
    assert_eq!(new.dimension, 3);
    assert_eq!(new.sea_level, 80);
    assert!(new.enforces_secure_chat);
    assert_eq!(new.death_dimension, None);
    assert_eq!(new.death_position, None);
    assert_eq!(new.hashed_seed, -5);
    assert!(new.do_limited_crafting && new.reduced_debug_info && !new.enable_respawn_screen);
}
