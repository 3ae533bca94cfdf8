use infrarust::io::encoder::MAX_PACKET_SIZE;
use infrarust::io::{
    new_compressor, new_decompressor, PacketEncoder, PacketFrame, ZlibCompressor, ZlibDecompressor,
};

#[test]
fn test_compress_decompress_round_trip() {
    let mut compressor = new_compressor(4);
    let mut decompressor = new_decompressor();

    let original = b"Hello, Minecraft protocol compression!";
    let mut compressed = Vec::new();
    compressor.compress(original, &mut compressed).unwrap();

    assert_ne!(&compressed[..], &original[..]);

    let mut decompressed = Vec::new();
    decompressor
        .decompress(&compressed, &mut decompressed, original.len())
        .unwrap();

    assert_eq!(&decompressed[..], &original[..]);
}

#[test]
fn test_compress_decompress_large_data() {
    let mut compressor = new_compressor(4);
    let mut decompressor = new_decompressor();

    let original: Vec<u8> = (0..65536).map(|i: u32| (i % 251) as u8).collect();
    let mut compressed = Vec::new();
    compressor.compress(&original, &mut compressed).unwrap();

    let mut decompressed = Vec::new();
    decompressor
        .decompress(&compressed, &mut decompressed, original.len())
        .unwrap();

    assert_eq!(decompressed, original);
}

#[test]
fn test_decompress_corrupted_data() {
    let mut decompressor = new_decompressor();
    let corrupted = vec![0x78, 0x9C, 0xFF, 0xFF, 0xFF];
    let mut output = Vec::new();
    let result = decompressor.decompress(&corrupted, &mut output, 100);
    assert!(result.is_err());
}

#[test]
fn test_decompress_empty_input() {
    let mut decompressor = new_decompressor();
    let mut output = Vec::new();
    // Empty input with expected_size=0 must not panic.
    let result = decompressor.decompress(&[], &mut output, 0);
    let _ = result;
}

#[test]
fn decompress_rejects_more_data_than_expected() {
    let mut compressor = new_compressor(4);
    let mut decompressor = new_decompressor();
    let mut compressed = Vec::new();
    compressor.compress(b"abcdef", &mut compressed).unwrap();
    let mut out = Vec::new();
    assert!(decompressor.decompress(&compressed, &mut out, 3).is_err());
    assert!(decompressor.decompress(&compressed, &mut out, 7).is_err());
    decompressor.decompress(&compressed, &mut out, 6).unwrap();
    assert_eq!(out, b"abcdef");
}

#[test]
fn encode_raw_uncompressed_bytes() {
    let mut encoder = PacketEncoder::new();
    encoder.append_raw(0x00, b"hello").unwrap();
    assert_eq!(encoder.take(), vec![6, 0x00, b'h', b'e', b'l', b'l', b'o']);
}

#[test]
fn test_encode_frame_shortcut() {
    let frame = PacketFrame { id: 0x0F, payload: b"test".to_vec() };
    let mut enc1 = PacketEncoder::new();
    enc1.append_frame(&frame).unwrap();
    let mut enc2 = PacketEncoder::new();
    enc2.append_raw(0x0F, b"test").unwrap();
    assert_eq!(enc1.take(), enc2.take());
}

#[test]
fn test_take_empties_buffer() {
    let mut encoder = PacketEncoder::new();
    encoder.append_raw(0x00, b"data").unwrap();
    let first = encoder.take();
    assert!(!first.is_empty());
    assert!(encoder.take().is_empty());
}

#[test]
fn test_encode_too_large_packet() {
    let mut encoder = PacketEncoder::new();
    let huge = vec![0u8; MAX_PACKET_SIZE + 1];
    let result = encoder.append_raw(0x00, &huge);
    assert!(result.is_err());
    assert!(encoder.take().is_empty());
}

#[test]
fn compression_below_threshold_uses_zero_marker() {
    let mut encoder = PacketEncoder::new();
    encoder.set_compression(256);
    assert_eq!(encoder.compression_threshold(), Some(256));
    encoder.append_raw(0x01, b"small").unwrap();
    assert_eq!(encoder.take(), vec![7, 0, 0x01, b's', b'm', b'a', b'l', b'l']);
}

fn read_varint(bytes: &[u8], pos: &mut usize) -> usize {
    let mut value = 0usize;
    let mut shift = 0;
    loop {
        let b = bytes[*pos];
        *pos += 1;
        value |= ((b & 0x7F) as usize) << shift;
        if b & 0x80 == 0 {
            return value;
        }
        shift += 7;
    }
}

#[test]
fn compression_above_threshold_round_trips() {
    let mut encoder = PacketEncoder::new();
    encoder.set_compression(256);
    let big = vec![0x42u8; 1024];
    encoder.append_raw(0x01, &big).unwrap();
    let bytes = encoder.take();

    // [packet len] [uncompressed len] [zlib(id, payload)]
    let mut pos = 0;
    let packet_len = read_varint(&bytes, &mut pos);
    assert_eq!(bytes.len(), pos + packet_len);
    let uncompressed = read_varint(&bytes, &mut pos);
    assert_eq!(uncompressed, 1025);
    let mut out = Vec::new();
    new_decompressor().decompress(&bytes[pos..], &mut out, 1025).unwrap();
    assert_eq!(out[0], 0x01);
    assert_eq!(&out[1..], &big[..]);
}

/// Reads back the frames written by the encoder: `[len] [id] [payload]`,
/// or `[len] [data len] [id payload | zlib(id payload)]` once compression
/// is on.
struct FrameReader {
    bytes: Vec<u8>,
    pos: usize,
    compression: bool,
}

impl FrameReader {
    fn new(bytes: Vec<u8>, compression: bool) -> FrameReader {
        FrameReader { bytes, pos: 0, compression }
    }

    fn next_frame(&mut self) -> Option<(i32, Vec<u8>)> {
        if self.pos >= self.bytes.len() {
            return None;
        }
        let len = read_varint(&self.bytes, &mut self.pos);
        let end = self.pos + len;
        let mut body = self.bytes[self.pos..end].to_vec();
        self.pos = end;
        if self.compression {
            let mut p = 0;
            let data_len = read_varint(&body, &mut p);
            if data_len == 0 {
                body = body[p..].to_vec();
            } else {
                let mut out = Vec::new();
                new_decompressor().decompress(&body[p..], &mut out, data_len).unwrap();
                body = out;
            }
        }
        let mut p = 0;
        let id = read_varint(&body, &mut p) as i32;
        Some((id, body[p..].to_vec()))
    }
}

#[test]
fn test_encode_raw_produces_valid_frame() {
    let mut encoder = PacketEncoder::new();
    encoder.append_raw(0x00, b"hello").unwrap();
    let bytes = encoder.take();
    let mut reader = FrameReader::new(bytes, false);
    let (id, payload) = reader.next_frame().unwrap();
    assert_eq!(id, 0x00);
    assert_eq!(&payload[..], b"hello");
}

#[test]
fn test_encode_multiple_then_take() {
    let mut encoder = PacketEncoder::new();
    encoder.append_raw(0x00, b"one").unwrap();
    encoder.append_raw(0x01, b"two").unwrap();
    encoder.append_raw(0x02, b"three").unwrap();
    let bytes = encoder.take();
    let mut reader = FrameReader::new(bytes, false);
    let f1 = reader.next_frame().unwrap();
    assert_eq!(f1.0, 0x00);
    assert_eq!(&f1.1[..], b"one");
    let f2 = reader.next_frame().unwrap();
    assert_eq!(f2.0, 0x01);
    assert_eq!(&f2.1[..], b"two");
    let f3 = reader.next_frame().unwrap();
    assert_eq!(f3.0, 0x02);
    assert_eq!(&f3.1[..], b"three");
}

#[test]
fn test_encode_with_compression_above_threshold() {
    let mut encoder = PacketEncoder::new();
    encoder.set_compression(256);
    let big_payload = vec![0x42u8; 1024];
    encoder.append_raw(0x01, &big_payload).unwrap();
    let bytes = encoder.take();
    let mut reader = FrameReader::new(bytes, true);
    let (id, payload) = reader.next_frame().unwrap();
    assert_eq!(id, 0x01);
    assert_eq!(&payload[..], &big_payload[..]);
}

#[test]
fn test_encode_with_compression_below_threshold() {
    let mut encoder = PacketEncoder::new();
    encoder.set_compression(256);
    encoder.append_raw(0x01, b"small").unwrap();
    let bytes = encoder.take();
    let mut reader = FrameReader::new(bytes, true);
    let (id, payload) = reader.next_frame().unwrap();
    assert_eq!(id, 0x01);
    assert_eq!(&payload[..], b"small");
}

#[test]
fn test_encode_decode_round_trip_no_compression() {
    let mut encoder = PacketEncoder::new();
    let payloads: &[(i32, &[u8])] = &[(0x00, b"hello"), (0x7F, b""), (0x01, &[0xFF; 100])];
    for &(id, payload) in payloads {
        encoder.append_raw(id, payload).unwrap();
    }
    let bytes = encoder.take();
    let mut reader = FrameReader::new(bytes, false);
    for &(id, payload) in payloads {
        let frame = reader.next_frame().unwrap();
        assert_eq!(frame.0, id);
        assert_eq!(&frame.1[..], payload);
    }
    assert!(reader.next_frame().is_none());
}

#[test]
fn test_encode_decode_round_trip_with_compression() {
    let mut encoder = PacketEncoder::new();
    encoder.set_compression(64);
    encoder.append_raw(0x00, b"tiny").unwrap();
    let big = vec![0xAA; 512];
    encoder.append_raw(0x01, &big).unwrap();
    let bytes = encoder.take();
    let mut reader = FrameReader::new(bytes, true);
    let f1 = reader.next_frame().unwrap();
    assert_eq!(f1.0, 0x00);
    assert_eq!(&f1.1[..], b"tiny");
    let f2 = reader.next_frame().unwrap();
    assert_eq!(f2.0, 0x01);
    assert_eq!(&f2.1[..], &big[..]);
}

#[test]
fn test_encode_decode_round_trip_mixed() {
    let mut encoder = PacketEncoder::new();
    encoder.append_raw(0x00, b"before compression").unwrap();
    let bytes = encoder.take();
    let mut reader = FrameReader::new(bytes, false);
    let f = reader.next_frame().unwrap();
    assert_eq!(f.0, 0x00);
    assert_eq!(&f.1[..], b"before compression");

    encoder.set_compression(32);
    encoder.append_raw(0x01, b"small").unwrap();
    let big = vec![0xBB; 256];
    encoder.append_raw(0x02, &big).unwrap();
    let bytes = encoder.take();
    let mut reader = FrameReader::new(bytes, true);
    let f1 = reader.next_frame().unwrap();
    assert_eq!(f1.0, 0x01);
    assert_eq!(&f1.1[..], b"small");
    let f2 = reader.next_frame().unwrap();
    assert_eq!(f2.0, 0x02);
    assert_eq!(&f2.1[..], &big[..]);
}
