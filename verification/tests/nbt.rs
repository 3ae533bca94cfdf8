use infrarust::nbt::{
    _skip_nbt_compound_nameless, skip_nbt_compound, strip_root_name, TAG_BYTE, TAG_BYTE_ARRAY, TAG_COMPOUND, TAG_END, TAG_INT, TAG_INT_ARRAY,
    TAG_LIST, TAG_LONG, TAG_LONG_ARRAY, TAG_SHORT, TAG_STRING,
};

/// Builds an NBT compound with a named root.
fn build_named_compound(name: &str, children: &[u8]) -> Vec<u8> {
    let mut buf = Vec::new();
    buf.push(TAG_COMPOUND); // root type
    buf.extend_from_slice(&(name.len() as u16).to_be_bytes()); // root name len
    buf.extend_from_slice(name.as_bytes()); // root name
    buf.extend_from_slice(children); // compound payload
    buf.push(TAG_END); // end of compound
    buf
}

#[test]
fn test_skip_empty_compound() {
    let data = build_named_compound("", &[]);
    let mut r: &[u8] = &data;
    skip_nbt_compound(&mut r).unwrap();
    assert!(r.is_empty());
}

#[test]
fn test_skip_simple_compound() {
    // Compound with: byte "a"=42, short "b"=1000, int "c"=100000
    let mut children = Vec::new();

    // TAG_Byte "a" = 42
    children.push(TAG_BYTE);
    children.extend_from_slice(&1u16.to_be_bytes());
    children.push(b'a');
    children.push(42);

    // TAG_Short "b" = 1000
    children.push(TAG_SHORT);
    children.extend_from_slice(&1u16.to_be_bytes());
    children.push(b'b');
    children.extend_from_slice(&1000i16.to_be_bytes());

    // TAG_Int "c" = 100000
    children.push(TAG_INT);
    children.extend_from_slice(&1u16.to_be_bytes());
    children.push(b'c');
    children.extend_from_slice(&100_000i32.to_be_bytes());

    let data = build_named_compound("root", &children);
    let mut r: &[u8] = &data;
    skip_nbt_compound(&mut r).unwrap();
    assert!(r.is_empty());
}

#[test]
fn test_skip_nested_compound() {
    let mut inner = Vec::new();

    // Inner compound "inner" with TAG_Long "val" = 12345
    inner.push(TAG_COMPOUND);
    inner.extend_from_slice(&5u16.to_be_bytes());
    inner.extend_from_slice(b"inner");
    // child: TAG_Long "val" = 12345
    inner.push(TAG_LONG);
    inner.extend_from_slice(&3u16.to_be_bytes());
    inner.extend_from_slice(b"val");
    inner.extend_from_slice(&12345i64.to_be_bytes());
    inner.push(TAG_END); // end inner compound

    let data = build_named_compound("root", &inner);
    let mut r: &[u8] = &data;
    skip_nbt_compound(&mut r).unwrap();
    assert!(r.is_empty());
}

#[test]
fn test_skip_compound_with_list() {
    let mut children = Vec::new();

    // TAG_List "nums" of TAG_Int, count=3
    children.push(TAG_LIST);
    children.extend_from_slice(&4u16.to_be_bytes());
    children.extend_from_slice(b"nums");
    children.push(TAG_INT); // element type
    children.extend_from_slice(&3i32.to_be_bytes()); // count
    children.extend_from_slice(&1i32.to_be_bytes());
    children.extend_from_slice(&2i32.to_be_bytes());
    children.extend_from_slice(&3i32.to_be_bytes());

    let data = build_named_compound("root", &children);
    let mut r: &[u8] = &data;
    skip_nbt_compound(&mut r).unwrap();
    assert!(r.is_empty());
}

#[test]
fn test_skip_large_compound() {
    // Simulate a ~2KB dimension_codec with many string and byte array entries
    let mut children = Vec::new();

    for i in 0..50 {
        let name = format!("entry_{i:03}");

        // TAG_String "entry_NNN" = "minecraft:some_long_dimension_type_name_..."
        children.push(TAG_STRING);
        children.extend_from_slice(&(name.len() as u16).to_be_bytes());
        children.extend_from_slice(name.as_bytes());
        let value = format!("minecraft:dimension_type_{i}_with_padding_data_here");
        children.extend_from_slice(&(value.len() as u16).to_be_bytes());
        children.extend_from_slice(value.as_bytes());
    }

    let data = build_named_compound("dimension_codec", &children);
    assert!(
        data.len() > 2000,
        "compound should be ~2KB, got {} bytes",
        data.len()
    );

    let mut r: &[u8] = &data;
    skip_nbt_compound(&mut r).unwrap();
    assert!(r.is_empty());
}

#[test]
fn test_skip_compound_with_byte_array_and_int_array() {
    let mut children = Vec::new();

    // TAG_ByteArray "bytes" = [1, 2, 3, 4, 5]
    children.push(TAG_BYTE_ARRAY);
    children.extend_from_slice(&5u16.to_be_bytes());
    children.extend_from_slice(b"bytes");
    children.extend_from_slice(&5i32.to_be_bytes());
    children.extend_from_slice(&[1, 2, 3, 4, 5]);

    // TAG_IntArray "ints" = [10, 20]
    children.push(TAG_INT_ARRAY);
    children.extend_from_slice(&4u16.to_be_bytes());
    children.extend_from_slice(b"ints");
    children.extend_from_slice(&2i32.to_be_bytes());
    children.extend_from_slice(&10i32.to_be_bytes());
    children.extend_from_slice(&20i32.to_be_bytes());

    // TAG_LongArray "longs" = [100]
    children.push(TAG_LONG_ARRAY);
    children.extend_from_slice(&5u16.to_be_bytes());
    children.extend_from_slice(b"longs");
    children.extend_from_slice(&1i32.to_be_bytes());
    children.extend_from_slice(&100i64.to_be_bytes());

    let data = build_named_compound("root", &children);
    let mut r: &[u8] = &data;
    skip_nbt_compound(&mut r).unwrap();
    assert!(r.is_empty());
}

#[test]
fn test_data_after_compound_preserved() {
    let data = build_named_compound("", &[]);
    let mut full = data.clone();
    full.extend_from_slice(&[0xDE, 0xAD]);

    let mut r: &[u8] = &full;
    skip_nbt_compound(&mut r).unwrap();
    assert_eq!(r, &[0xDE, 0xAD]);
}

#[test]
fn test_wrong_tag_type_errors() {
    let data = [TAG_BYTE]; // Not a compound
    let mut r: &[u8] = &data;
    assert!(skip_nbt_compound(&mut r).is_err());
}

#[test]
fn skip_compound_with_list_of_compounds() {
    let mut children = Vec::new();
    // TAG_List "l" of two compounds, each holding TAG_Byte "x".
    children.push(TAG_LIST);
    children.extend_from_slice(&1u16.to_be_bytes());
    children.push(b'l');
    children.push(TAG_COMPOUND);
    children.extend_from_slice(&2i32.to_be_bytes());
    for v in [7u8, 9u8] {
        children.push(TAG_BYTE);
        children.extend_from_slice(&1u16.to_be_bytes());
        children.push(b'x');
        children.push(v);
        children.push(TAG_END);
    }
    let mut data = build_named_compound("root", &children);
    data.push(0x42);
    let mut r: &[u8] = &data;
    skip_nbt_compound(&mut r).unwrap();
    assert_eq!(r, &[0x42]);
}

#[test]
fn truncated_compound_errors() {
    let data = build_named_compound("root", &[TAG_INT, 0, 1, b'c', 0, 0]);
    let mut r: &[u8] = &data[..data.len() - 1];
    assert!(skip_nbt_compound(&mut r).is_err());
}

#[test]
fn strip_root_name_drops_the_name_length() {
    let standard = vec![TAG_COMPOUND, 0x00, 0x00, TAG_BYTE, 0x00, 0x01, b'a', 0x05, TAG_END];
    let network = strip_root_name(standard.clone());
    assert_eq!(network.len(), standard.len() - 2);
    assert_eq!(network[0], TAG_COMPOUND);
    assert_eq!(&network[1..], &standard[3..]);
}

#[test]
fn strip_root_name_leaves_other_data_alone() {
    assert_eq!(strip_root_name(vec![TAG_COMPOUND, 0x00]), vec![TAG_COMPOUND, 0x00]);
    assert_eq!(strip_root_name(vec![TAG_INT, 0x00, 0x00, 0x01]), vec![TAG_INT, 0x00, 0x00, 0x01]);
    assert_eq!(strip_root_name(vec![]), Vec::<u8>::new());
}

#[test]
fn strip_root_name_on_serialised_compound() {
    let mut map = std::collections::BTreeMap::new();
    map.insert("value".to_string(), 42i32);
    let standard = fastnbt::to_bytes(&map).unwrap();
    assert_eq!(&standard[..3], &[TAG_COMPOUND, 0x00, 0x00]);
    let network = strip_root_name(standard.clone());
    assert_eq!(network[0], TAG_COMPOUND);
    assert_eq!(network.len(), standard.len() - 2);
    assert_eq!(&network[1..], &standard[3..]);
    let mut r: &[u8] = &standard;
    skip_nbt_compound(&mut r).unwrap();
    assert!(r.is_empty());
}

#[test]
fn nameless_compound_is_skipped_up_to_its_end() {
    let data = vec![TAG_COMPOUND, TAG_INT, 0x00, 0x01, b'x', 0, 0, 0, 7, TAG_END, 0xAB];
    let mut r: &[u8] = &data;
    _skip_nbt_compound_nameless(&mut r).unwrap();
    assert_eq!(r, &[0xAB]);
}

#[test]
fn nameless_compound_rejects_other_root_types() {
    let data = vec![TAG_LIST, TAG_END];
    let mut r: &[u8] = &data;
    assert!(_skip_nbt_compound_nameless(&mut r).is_err());
    let mut empty: &[u8] = &[];
    assert!(_skip_nbt_compound_nameless(&mut empty).is_err());
}

#[test]
fn network_form_skips_like_the_standard_form() {
    let standard = build_named_compound("", &[TAG_BYTE, 0x00, 0x01, b'a', 0x05]);
    let mut with_tail = standard.clone();
    with_tail.push(0x77);
    let network = strip_root_name(with_tail.clone());
    let mut a: &[u8] = &with_tail;
    let mut b: &[u8] = &network;
    skip_nbt_compound(&mut a).unwrap();
    _skip_nbt_compound_nameless(&mut b).unwrap();
    assert_eq!(a, b);
    assert_eq!(a, &[0x77]);
}
