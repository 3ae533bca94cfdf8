//! Zlib compression of packet data, through `flate2`.

use std::io::{Read, Write};

use vstd::prelude::*;

use crate::error::{ProtocolError, ProtocolResult};

verus! {

/// What `flate2`'s zlib encoder at compression `level` writes for `data`.
pub uninterp spec fn zlib_compressed(data: Seq<u8>, level: u32) -> Seq<u8>;

/// The first `n` bytes that `flate2`'s zlib decoder reads from `input`, or
/// `None` when it fails or ends before `n` bytes.
pub uninterp spec fn zlib_prefix(input: Seq<u8>, n: nat) -> Option<Seq<u8>>;

/// What decompressing `input` while expecting `expected` bytes gives: the
/// data when the stream holds exactly that many bytes, `None` (an error)
/// when it holds fewer, is corrupt, or holds more.
pub open spec fn decompressed(input: Seq<u8>, expected: nat) -> Option<Seq<u8>> {
    match zlib_prefix(input, expected) {
        None => None,
        Some(data) => if expected < usize::MAX && zlib_prefix(input, expected + 1) is Some {
            None
        } else {
            Some(data)
        },
    }
}

/// `stream` is a zlib stream holding exactly `data`.
pub open spec fn holds_exactly(stream: Seq<u8>, data: Seq<u8>) -> bool {
    &&& zlib_prefix(stream, data.len()) == Some(data)
    &&& zlib_prefix(stream, data.len() + 1) is None
}

/// Compresses `data` with `flate2::write::ZlibEncoder` at `level` into a
/// fresh `Vec`. Claimed: it succeeds (writing into a `Vec` cannot fail, and
/// the encoder reports an error only when its writer does), its result is
/// `zlib_compressed(data, level)`, and `flate2`'s zlib decoder reads exactly
/// `data` back from it (the encoder is lossless and finishes the stream).
/// Levels above 10 are refused by a debug assertion of the `miniz_oxide`
/// backend, so they are left out.
#[verifier::external_body]
pub(crate) fn zlib_compress(data: &[u8], level: u32) -> (r: Option<Vec<u8>>)
    requires
        level <= 10,
    ensures
        r is Some,
        r matches Some(c) ==> c@ == zlib_compressed(data@, level) && holds_exactly(c@, data@),
{
    let mut encoder = flate2::write::ZlibEncoder::new(Vec::new(), flate2::Compression::new(level));
    match encoder.write_all(data) {
        Ok(()) => encoder.finish().ok(),
        Err(_) => None,
    }
}

/// Reads exactly `n` bytes from `flate2::read::ZlibDecoder` over `input`
/// (`read_exact`). Claimed: the result is `zlib_prefix(input, n)`, and a
/// result it returns holds `n` bytes.
#[verifier::external_body]
fn zlib_read_exact(input: &[u8], n: usize) -> (r: Option<Vec<u8>>)
    ensures
        match r {
            Some(v) => zlib_prefix(input@, n as nat) == Some(v@) && v@.len() == n,
            None => zlib_prefix(input@, n as nat) is None,
        },
{
    let mut out = vec![0u8; n];
    match flate2::read::ZlibDecoder::new(input).read_exact(&mut out) {
        Ok(()) => Some(out),
        Err(_) => None,
    }
}

/// Compresses data in zlib format.
pub trait ZlibCompressor {
    /// Compresses `input` into `output` (zlib format); `output` is cleared
    /// first.
    fn compress(&mut self, input: &[u8], output: &mut Vec<u8>) -> ProtocolResult<()>;
}

/// Decompresses data in zlib format.
pub trait ZlibDecompressor {
    /// Decompresses `input` into `output`, which must come out exactly
    /// `expected_size` bytes long; `output` is cleared first.
    fn decompress(&mut self, input: &[u8], output: &mut Vec<u8>, expected_size: usize) -> ProtocolResult<()>;
}

/// The `flate2` compressor at a fixed level, at most 10.
pub struct Flate2Compressor {
    level: u32,
}

impl Flate2Compressor {
    #[verifier::type_invariant]
    spec fn level_in_range(self) -> bool {
        self.level <= 10
    }

    /// The compression level, typically 0 (none) to 9 (best).
    pub closed spec fn spec_level(&self) -> u32 {
        self.level
    }

    /// A compressor at `level`, 0 (none) to 9 (best); `miniz_oxide` also
    /// has a level 10.
    pub fn new(level: u32) -> (c: Flate2Compressor)
        requires
            level <= 10,
        ensures
            c.spec_level() == level,
    {
        Flate2Compressor { level }
    }
}

impl ZlibCompressor for Flate2Compressor {
    /// Succeeds, with `output` holding the zlib stream of `input` at the
    /// compressor's level.
    fn compress(&mut self, input: &[u8], output: &mut Vec<u8>) -> (res: ProtocolResult<()>)
        ensures
            final(self).spec_level() == old(self).spec_level(),
            res is Ok,
            final(output)@ == zlib_compressed(input@, old(self).spec_level()),
            holds_exactly(final(output)@, input@),
    {
        output.clear();
        proof {
            use_type_invariant(&*self);
        }
        match zlib_compress(input, self.level) {
            Some(c) => {
                *output = c;
                Ok(())
            },
            None => Err(ProtocolError::invalid("zlib compression failed")),
        }
    }
}

/// The `flate2` decompressor.
pub struct Flate2Decompressor;

impl Flate2Decompressor {
    /// A decompressor.
    pub fn new() -> Flate2Decompressor {
        Flate2Decompressor
    }
}

impl ZlibDecompressor for Flate2Decompressor {
    /// Succeeds, with `output` the decompressed data, exactly when `input`
    /// decompresses to `expected_size` bytes and no more. Less data, or
    /// corrupted data, is `Invalid`; more data is `Invalid` too.
    fn decompress(&mut self, input: &[u8], output: &mut Vec<u8>, expected_size: usize) -> (res: ProtocolResult<()>)
        ensures
            match decompressed(input@, expected_size as nat) {
                None => res matches Err(e) && e.class() == crate::error::ErrorClass::Invalid,
                Some(data) => res is Ok && final(output)@ == data,
            },
    {
        output.clear();
        match zlib_read_exact(input, expected_size) {
            None => Err(ProtocolError::invalid("failed to decompress packet data")),
            Some(data) => {
                if expected_size < usize::MAX {
                    if let Some(_) = zlib_read_exact(input, expected_size + 1) {
                        return Err(ProtocolError::invalid("decompressed data larger than expected size"));
                    }
                }
                *output = data;
                Ok(())
            },
        }
    }
}

/// The default compressor, at `level` (0 to 9, or 10).
pub fn new_compressor(level: u32) -> (c: Flate2Compressor)
    requires
        level <= 10,
    ensures
        c.spec_level() == level,
{
    Flate2Compressor::new(level)
}

/// The default decompressor.
pub fn new_decompressor() -> Flate2Decompressor {
    Flate2Decompressor::new()
}

/// What the compressor writes, the decompressor reads back: a stream that
/// holds exactly `data` decompresses to `data` when `data.len()` bytes are
/// expected.
pub proof fn law_compressed_reads_back(stream: Seq<u8>, data: Seq<u8>)
    requires
        holds_exactly(stream, data),
    ensures
        decompressed(stream, data.len()) == Some(data),
{
}

} // verus!
