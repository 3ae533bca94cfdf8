use infrarust::chunk::{
    build_chunk_data_frame, build_chunk_data_payload, chunk_data_packet_id,
    encode_empty_chunk_sections, encode_empty_heightmaps_nbt, encode_empty_section, write_varint,
};
use infrarust::version::{ProtocolVersion, V1_12, V1_13, V1_19_4, V1_20_2, V1_21, V1_21_5, V1_21_9, V1_7_2, V1_8, V1_9};

#[test]
fn test_empty_section_pre_1_21_5() {
    let mut buf = Vec::new();
    encode_empty_section(&mut buf, ProtocolVersion(V1_21));
    assert_eq!(buf.len(), 8, "pre-1.21.5: empty section should be 8 bytes");
}

#[test]
fn test_empty_section_1_21_5_plus() {
    let mut buf = Vec::new();
    encode_empty_section(&mut buf, ProtocolVersion(V1_21_5));
    assert_eq!(buf.len(), 6, "1.21.5+: empty section should be 6 bytes");
}

#[test]
fn test_empty_chunk_16_sections_end() {
    let data = encode_empty_chunk_sections(16, ProtocolVersion(V1_21));
    assert_eq!(data.len(), 16 * 8, "16 sections * 8 bytes = 128");
}

#[test]
fn test_empty_chunk_16_sections_end_1_21_5() {
    let data = encode_empty_chunk_sections(16, ProtocolVersion(V1_21_5));
    assert_eq!(data.len(), 16 * 6, "16 sections * 6 bytes = 96");
}

#[test]
fn test_heightmap_nbt_network_format_1_20_2() {
    let mut buf = Vec::new();
    encode_empty_heightmaps_nbt(&mut buf, ProtocolVersion(V1_20_2));
    assert_eq!(buf[0], 0x0A, "must start with TAG_Compound");
    assert_eq!(buf[1], 0x0C, "1.20.2+ network NBT: no name bytes after TAG_Compound");
}

#[test]
fn test_heightmap_nbt_standard_format_pre_1_20_2() {
    let mut buf = Vec::new();
    encode_empty_heightmaps_nbt(&mut buf, ProtocolVersion(V1_19_4));
    assert_eq!(buf[0], 0x0A, "must start with TAG_Compound");
    assert_eq!(buf[1], 0x00, "pre-1.20.2 standard NBT: name length high byte");
    assert_eq!(buf[2], 0x00, "pre-1.20.2 standard NBT: name length low byte");
    assert_eq!(buf[3], 0x0C, "first inner tag after name");
}

#[test]
fn test_chunk_data_payload_starts_correctly() {
    let payload = build_chunk_data_payload(3, -7, 16, ProtocolVersion(V1_21));
    assert_eq!(&payload[0..4], &3_i32.to_be_bytes());
    assert_eq!(&payload[4..8], &(-7_i32).to_be_bytes());
}

#[test]
fn test_pre_1_14_empty_chunk_1_8() {
    let frame = build_chunk_data_frame(0, 0, 16, ProtocolVersion(V1_8)).unwrap();
    assert_eq!(frame.id, 0x21);
    assert_eq!(frame.payload.len(), 4 + 4 + 1 + 2 + 2 + 256);
}

#[test]
fn test_pre_1_14_empty_chunk_1_9() {
    let frame = build_chunk_data_frame(0, 0, 16, ProtocolVersion(V1_9)).unwrap();
    assert_eq!(frame.id, 0x20);
    assert_eq!(frame.payload.len(), 4 + 4 + 1 + 1 + 2 + 256 + 1);
}

#[test]
fn test_pre_1_14_empty_chunk_1_12() {
    let frame = build_chunk_data_frame(0, 0, 16, ProtocolVersion(V1_12)).unwrap();
    assert_eq!(frame.id, 0x20);
    assert_eq!(frame.payload.len(), 4 + 4 + 1 + 1 + 2 + 256 + 1);
}

#[test]
fn test_pre_1_14_empty_chunk_1_13() {
    let frame = build_chunk_data_frame(0, 0, 16, ProtocolVersion(V1_13)).unwrap();
    assert_eq!(frame.id, 0x22);
    assert_eq!(frame.payload.len(), 4 + 4 + 1 + 1 + 2 + 256 + 1);
}

#[test]
fn test_pre_1_14_empty_chunk_1_7() {
    let frame = build_chunk_data_frame(0, 0, 16, ProtocolVersion(V1_7_2)).unwrap();
    assert_eq!(frame.id, 0x21);
    let payload = frame.payload.as_slice();
    assert_eq!(&payload[0..4], &0_i32.to_be_bytes()); // chunk_x
    assert_eq!(&payload[4..8], &0_i32.to_be_bytes()); // chunk_z
    assert_eq!(payload[8], 1); // ground_up_continuous
    assert!(payload.len() > 17); // header + compressed data
}

#[test]
fn test_chunk_packet_id_pre_1_14_versions() {
    assert_eq!(chunk_data_packet_id(ProtocolVersion(V1_7_2)), 0x21);
    assert_eq!(chunk_data_packet_id(ProtocolVersion(V1_8)), 0x21);
    assert_eq!(chunk_data_packet_id(ProtocolVersion(V1_9)), 0x20);
    assert_eq!(chunk_data_packet_id(ProtocolVersion(V1_12)), 0x20);
    assert_eq!(chunk_data_packet_id(ProtocolVersion(V1_13)), 0x22);
}

#[test]
fn chunk_packet_id_modern_versions() {
    assert_eq!(chunk_data_packet_id(ProtocolVersion(V1_21)), 0x27);
    assert_eq!(chunk_data_packet_id(ProtocolVersion(V1_21_5)), 0x27);
    assert_eq!(chunk_data_packet_id(ProtocolVersion(V1_21_9)), 0x2C);
}

#[test]
fn chunk_payload_1_21_layout_length() {
    // coordinates 8, heightmaps NBT 1 + 2*(1+2+15/13+4+296) + 1, sections
    // length 2 + 128, block entities 1, light 4*(1+8) + 2.
    let payload = build_chunk_data_payload(0, 0, 16, ProtocolVersion(V1_21));
    let heightmaps = 1 + (1 + 2 + 15 + 4 + 296) + (1 + 2 + 13 + 4 + 296) + 1;
    assert_eq!(payload.len(), 8 + heightmaps + 2 + 128 + 1 + 4 * 9 + 2);
}

#[test]
fn chunk_payload_1_21_5_uses_heightmap_map() {
    let payload = build_chunk_data_payload(0, 0, 16, ProtocolVersion(V1_21_5));
    assert_eq!(payload[8], 3);
    assert_eq!(payload[9], 1);
    assert_eq!(payload[10], 37);
}

#[test]
fn light_mask_marks_all_sections() {
    // 16 sections + 2 edges = 18 bits set.
    let payload = build_chunk_data_payload(0, 0, 16, ProtocolVersion(V1_21));
    let n = payload.len();
    let full_mask = &payload[n - 2 - 8..n - 2];
    assert_eq!(full_mask, &((1u64 << 18) - 1).to_be_bytes());
}

#[test]
fn write_varint_matches_protocol() {
    let mut buf = Vec::new();
    write_varint(&mut buf, 300);
    assert_eq!(buf, vec![0xAC, 0x02]);
    let mut buf = Vec::new();
    write_varint(&mut buf, -1);
    assert_eq!(buf, vec![0xFF, 0xFF, 0xFF, 0xFF, 0x0F]);
}
