use infrarust::packets::play::dimension::DimensionInfo;
use infrarust::packets::play::respawn_switch::{dimension_as_i32, for_switch};
use infrarust::version::{ProtocolVersion, V1_14, V1_15, V1_16_2, V1_19, V1_19_3, V1_19_4, V1_20_2, V1_8};

#[test]
fn test_for_switch_pre_1_14() {
    let dim = DimensionInfo::Legacy(0);
    let respawn = for_switch(&dim, ProtocolVersion(V1_8));
    let raw = respawn.raw_payload.expect("should have raw_payload");
    // dimension(i32=0) + difficulty(u8=2) + gamemode(u8=0) + level_type(String="default")
    assert_eq!(&raw[0..4], &0i32.to_be_bytes()); // dimension
    assert_eq!(raw[4], 2); // difficulty
    assert_eq!(raw[5], 0); // gamemode
}

#[test]
fn test_for_switch_pre_1_14_nether() {
    let dim = DimensionInfo::Legacy(-1);
    let respawn = for_switch(&dim, ProtocolVersion(V1_8));
    let raw = respawn.raw_payload.expect("should have raw_payload");
    assert_eq!(&raw[0..4], &(-1i32).to_be_bytes());
}

#[test]
fn test_for_switch_1_14() {
    let dim = DimensionInfo::Legacy(0);
    let respawn = for_switch(&dim, ProtocolVersion(V1_14));
    let raw = respawn.raw_payload.expect("should have raw_payload");
    // dimension(i32=0) + gamemode(u8=0) + level_type(String="default") — no difficulty
    assert_eq!(&raw[0..4], &0i32.to_be_bytes());
    assert_eq!(raw[4], 0); // gamemode (no difficulty byte)
}

#[test]
fn test_for_switch_1_15() {
    let dim = DimensionInfo::Legacy(1);
    let respawn = for_switch(&dim, ProtocolVersion(V1_15));
    let raw = respawn.raw_payload.expect("should have raw_payload");
    // dimension(i32=1) + hashed_seed(i64=0) + gamemode(u8=0) + level_type(String)
    assert_eq!(&raw[0..4], &1i32.to_be_bytes());
    assert_eq!(&raw[4..12], &0i64.to_be_bytes()); // hashed_seed
    assert_eq!(raw[12], 0); // gamemode
}

#[test]
fn test_for_switch_1_16_2() {
    let dim = DimensionInfo::Named("minecraft:the_nether".to_string());
    let respawn = for_switch(&dim, ProtocolVersion(V1_16_2));
    let raw = respawn.raw_payload.expect("should have raw_payload");
    // Should start with dimension_type as Identifier (String)
    // VarInt length + "minecraft:the_nether"
    assert!(!raw.is_empty());
}

#[test]
fn test_for_switch_1_19() {
    let dim = DimensionInfo::Named("minecraft:overworld".to_string());
    let respawn = for_switch(&dim, ProtocolVersion(V1_19));
    let raw = respawn.raw_payload.expect("should have raw_payload");
    assert!(!raw.is_empty());
}

#[test]
fn test_for_switch_1_19_3() {
    let dim = DimensionInfo::Named("minecraft:overworld".to_string());
    let respawn = for_switch(&dim, ProtocolVersion(V1_19_3));
    let raw = respawn.raw_payload.expect("should have raw_payload");
    assert!(!raw.is_empty());
}

#[test]
fn test_for_switch_1_19_4() {
    let dim = DimensionInfo::Named("minecraft:overworld".to_string());
    let respawn = for_switch(&dim, ProtocolVersion(V1_19_4));
    let raw = respawn.raw_payload.expect("should have raw_payload");
    assert!(!raw.is_empty());
}

#[test]
fn test_for_switch_1_20_2() {
    let dim = DimensionInfo::Named("minecraft:overworld".to_string());
    let respawn = for_switch(&dim, ProtocolVersion(V1_20_2));
    // 1.20.2+ uses struct fields, not raw_payload
    assert!(respawn.raw_payload.is_none());
    assert_eq!(respawn.level_name, "minecraft:overworld");
    assert_eq!(respawn.data_to_keep, 0x01);
}

#[test]
fn test_dimension_as_i32_conversions() {
    assert_eq!(dimension_as_i32(&DimensionInfo::Legacy(0)), 0);
    assert_eq!(dimension_as_i32(&DimensionInfo::Legacy(-1)), -1);
    assert_eq!(
        dimension_as_i32(&DimensionInfo::Named("minecraft:the_nether".to_string())),
        -1
    );
    assert_eq!(
        dimension_as_i32(&DimensionInfo::Named("minecraft:the_end".to_string())),
        1
    );
    assert_eq!(
        dimension_as_i32(&DimensionInfo::Named("minecraft:overworld".to_string())),
        0
    );
}

#[test]
fn for_switch_pre_1_14_exact_bytes() {
    let respawn = for_switch(&DimensionInfo::Legacy(1), ProtocolVersion(V1_8));
    let raw = respawn.raw_payload.unwrap();
    let mut expected = vec![0, 0, 0, 1, 2, 0, 7];
    expected.extend_from_slice(b"default");
    assert_eq!(raw, expected);
}
