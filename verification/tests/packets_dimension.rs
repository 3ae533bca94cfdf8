use infrarust::codec::types::encode_string;
use infrarust::codec::{Encode, VarInt};
use infrarust::packets::play::dimension::{extract_dimension_from_join_game, DimensionInfo};
use infrarust::version::{ProtocolVersion, V1_15, V1_16_2, V1_19, V1_20_2, V1_8};

/// Builds a pre-1.16 raw payload (after entity_id).
fn build_pre_1_16_payload(gamemode: u8, dimension: i32) -> Vec<u8> {
    let mut buf = Vec::new();
    buf.push(gamemode);
    buf.extend_from_slice(&dimension.to_be_bytes());
    // Remaining fields (max_players, etc.) — not parsed
    buf.extend_from_slice(&[0x00; 10]);
    buf
}

/// Builds a minimal NBT compound with a named root (for test payloads).
fn build_nbt_compound(name: &str) -> Vec<u8> {
    let mut buf = Vec::new();
    buf.push(0x0A); // TAG_Compound
    buf.extend_from_slice(&(name.len() as u16).to_be_bytes());
    buf.extend_from_slice(name.as_bytes());
    buf.push(0x00); // TAG_End
    buf
}

/// Builds a 1.16.2+ raw payload (after entity_id).
fn build_1_16_2_payload(dim_name: &str) -> Vec<u8> {
    let mut buf: Vec<u8> = Vec::new();
    false.encode(&mut buf).unwrap(); // is_hardcore
    buf.push(0); // gamemode
    (-1i8).encode(&mut buf).unwrap(); // previous_gamemode

    // world_count + world_names
    VarInt(2).encode(&mut buf).unwrap();
    encode_string("minecraft:overworld", &mut buf).unwrap();
    encode_string("minecraft:the_nether", &mut buf).unwrap();

    // dimension_codec (NBT compound — minimal)
    buf.extend_from_slice(&build_nbt_compound(""));

    // dimension_type (Identifier for 1.16.2+)
    encode_string("minecraft:overworld", &mut buf).unwrap();

    // dimension_name (what we extract)
    encode_string(dim_name, &mut buf).unwrap();

    // Trailing data (hashed_seed etc.) — not parsed
    buf.extend_from_slice(&[0x00; 10]);
    buf
}

#[test]
fn test_extract_pre_1_16_overworld() {
    let payload = build_pre_1_16_payload(1, 0);
    let dim = extract_dimension_from_join_game(&payload, ProtocolVersion(V1_8)).unwrap();
    assert_eq!(dim, DimensionInfo::Legacy(0));
}

#[test]
fn test_extract_pre_1_16_nether() {
    let payload = build_pre_1_16_payload(0, -1);
    let dim = extract_dimension_from_join_game(&payload, ProtocolVersion(V1_8)).unwrap();
    assert_eq!(dim, DimensionInfo::Legacy(-1));
}

#[test]
fn test_extract_pre_1_16_end() {
    let payload = build_pre_1_16_payload(0, 1);
    let dim = extract_dimension_from_join_game(&payload, ProtocolVersion(V1_15)).unwrap();
    assert_eq!(dim, DimensionInfo::Legacy(1));
}

#[test]
fn test_extract_1_16_2_named() {
    let payload = build_1_16_2_payload("minecraft:the_nether");
    let dim = extract_dimension_from_join_game(&payload, ProtocolVersion(V1_16_2)).unwrap();
    assert_eq!(
        dim,
        DimensionInfo::Named("minecraft:the_nether".to_string())
    );
}

#[test]
fn test_extract_1_16_2_overworld() {
    let payload = build_1_16_2_payload("minecraft:overworld");
    let dim = extract_dimension_from_join_game(&payload, ProtocolVersion(V1_19)).unwrap();
    assert_eq!(dim, DimensionInfo::Named("minecraft:overworld".to_string()));
}

#[test]
fn test_extract_1_20_2_placeholder() {
    let dim = extract_dimension_from_join_game(&[], ProtocolVersion(V1_20_2)).unwrap();
    assert_eq!(dim, DimensionInfo::Named("minecraft:overworld".to_string()));
}

#[test]
fn extract_truncated_legacy_payload_errors() {
    assert!(extract_dimension_from_join_game(&[1, 0, 0], ProtocolVersion(V1_8)).is_err());
}
