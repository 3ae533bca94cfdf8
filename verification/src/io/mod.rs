//! Framing of packets on the wire, and the zlib compression it uses.

pub mod compression;
pub mod encoder;
pub mod frame;

pub use compression::{new_compressor, new_decompressor, Flate2Compressor, Flate2Decompressor, ZlibCompressor, ZlibDecompressor};
pub use encoder::PacketEncoder;
pub use frame::PacketFrame;
