//! Packet encoder: turns packets into framed bytes for the socket.

use vstd::prelude::*;

use crate::codec::raw::push_all;
use crate::codec::spec::{lemma_varint_round_trip, p_varint, varint_bytes};
use crate::codec::VarInt;
use crate::error::{ErrorClass, ProtocolError, ProtocolResult};
use crate::io::compression::{
    decompressed, holds_exactly, new_compressor, zlib_compressed, Flate2Compressor, ZlibCompressor,
};
use crate::io::frame::PacketFrame;

verus! {

/// The largest frame body (everything after the length prefix): the largest
/// length a three-byte `VarInt` prefix can announce.
pub const MAX_PACKET_SIZE: usize = 2097151;

/// The compression level the encoder uses.
pub const COMPRESSION_LEVEL: u32 = 4;

/// `n`, or `usize::MAX` when `n` does not fit.
pub open spec fn saturated(n: nat) -> usize {
    if n > usize::MAX {
        usize::MAX
    } else {
        n as usize
    }
}

/// Whether a packet with ID `id` and a payload of `len` bytes is compressed
/// under `threshold`: only once compression is on, and only when its
/// uncompressed body (ID and payload) reaches the threshold.
pub open spec fn compresses(threshold: Option<i32>, id: i32, len: nat) -> bool {
    threshold matches Some(t) && (saturated(varint_bytes(id).len() + len) as i32) >= t
}

/// The frame of packet `id` with `payload`, or the oversized body length.
///
/// - No compression: `[len] [id] [payload]`.
/// - Compressed: `[len] [uncompressed len] [zlib(id, payload)]`.
/// - Compression on, below the threshold: `[len] [0] [id] [payload]`.
///
/// Every length is a `VarInt`; a body over [`MAX_PACKET_SIZE`] is refused.
pub open spec fn frame_bytes(threshold: Option<i32>, id: i32, payload: Seq<u8>) -> Result<Seq<u8>, usize> {
    let idb = varint_bytes(id);
    let unc = saturated(idb.len() + payload.len());
    match threshold {
        None => if unc > MAX_PACKET_SIZE {
            Err(unc)
        } else {
            Ok(varint_bytes(unc as i32) + idb + payload)
        },
        Some(t) => if (unc as i32) >= t {
            let c = zlib_compressed(idb + payload, COMPRESSION_LEVEL);
            let n = saturated(varint_bytes(unc as i32).len() + c.len());
            if n > MAX_PACKET_SIZE {
                Err(n)
            } else {
                Ok(varint_bytes(n as i32) + varint_bytes(unc as i32) + c)
            }
        } else {
            let n = saturated(1 + idb.len() + payload.len());
            if n > MAX_PACKET_SIZE {
                Err(n)
            } else {
                Ok(varint_bytes(n as i32) + seq![0u8] + idb + payload)
            }
        },
    }
}

/// What appending packet `id` with `payload` did: the frame was appended,
/// or the body was too large and nothing changed.
pub open spec fn appended(
    threshold: Option<i32>,
    id: i32,
    payload: Seq<u8>,
    before: Seq<u8>,
    after: Seq<u8>,
    res: ProtocolResult<()>,
) -> bool {
    match frame_bytes(threshold, id, payload) {
        Ok(b) => res is Ok && after == before + b,
        Err(n) => after == before && (res matches Err(ProtocolError::TooLarge { max, actual })
            && max == MAX_PACKET_SIZE && actual == n),
    }
}

/// The body of a frame: what follows its length prefix.
pub open spec fn frame_body(threshold: Option<i32>, id: i32, payload: Seq<u8>) -> Seq<u8> {
    let idb = varint_bytes(id);
    match threshold {
        None => idb + payload,
        Some(t) => if compresses(threshold, id, payload.len()) {
            varint_bytes(saturated(idb.len() + payload.len()) as i32) + zlib_compressed(
                idb + payload,
                COMPRESSION_LEVEL,
            )
        } else {
            seq![0u8] + idb + payload
        },
    }
}

/// A frame reads back: its length prefix announces exactly its body, which
/// is at most [`MAX_PACKET_SIZE`] bytes; an uncompressed body starts with the
/// packet ID (after a zero marker once compression is on) followed by the
/// payload, and a compressed one with the uncompressed length (as an
/// `i32`).
pub proof fn law_frame_reads_back(threshold: Option<i32>, id: i32, payload: Seq<u8>, rest: Seq<u8>, short: ErrorClass)
    requires
        frame_bytes(threshold, id, payload) is Ok,
    ensures
        frame_body(threshold, id, payload).len() <= MAX_PACKET_SIZE,
        p_varint(frame_bytes(threshold, id, payload).unwrap() + rest, short) == Ok::<(i32, Seq<u8>), ErrorClass>(
            (
                frame_body(threshold, id, payload).len() as i32,
                frame_body(threshold, id, payload) + rest,
            ),
        ),
        p_varint(varint_bytes(id) + payload, short) == Ok::<(i32, Seq<u8>), ErrorClass>((id, payload)),
        compresses(threshold, id, payload.len()) ==> p_varint(frame_body(threshold, id, payload), short)
            == Ok::<(i32, Seq<u8>), ErrorClass>(
            (
                saturated(varint_bytes(id).len() + payload.len()) as i32,
                zlib_compressed(varint_bytes(id) + payload, COMPRESSION_LEVEL),
            ),
        ),
{
    let idb = varint_bytes(id);
    let body = frame_body(threshold, id, payload);
    lemma_varint_round_trip(id, payload, short);
    let b = frame_bytes(threshold, id, payload).unwrap();
    match threshold {
        None => {
            assert(b == varint_bytes(body.len() as i32) + body);
        },
        Some(t) => {
            if compresses(threshold, id, payload.len()) {
                let c = zlib_compressed(idb + payload, COMPRESSION_LEVEL);
                lemma_varint_round_trip(saturated(idb.len() + payload.len()) as i32, c, short);
                assert(b == varint_bytes(body.len() as i32) + body);
            } else {
                assert(b == varint_bytes(body.len() as i32) + body);
            }
        },
    }
    assert(b == varint_bytes(body.len() as i32) + body);
    lemma_varint_round_trip(body.len() as i32, body + rest, short);
    assert(b + rest =~= varint_bytes(body.len() as i32) + (body + rest));
}

/// A compressed frame reads back whole: when its zlib stream holds exactly
/// the packet ID and payload (as [`PacketEncoder::append_raw`] ensures of
/// what it writes), decompressing it with the uncompressed length the frame
/// announces gives the ID and the payload back.
pub proof fn law_compressed_frame_reads_back(threshold: Option<i32>, id: i32, payload: Seq<u8>)
    requires
        compresses(threshold, id, payload.len()),
        varint_bytes(id).len() + payload.len() <= i32::MAX,
        holds_exactly(zlib_compressed(varint_bytes(id) + payload, COMPRESSION_LEVEL), varint_bytes(id) + payload),
    ensures
        decompressed(
            zlib_compressed(varint_bytes(id) + payload, COMPRESSION_LEVEL),
            saturated(varint_bytes(id).len() + payload.len()) as i32 as nat,
        ) == Some(varint_bytes(id) + payload),
{
    let n = varint_bytes(id).len() + payload.len();
    assert(saturated(n) as i32 as nat == n);
    assert((varint_bytes(id) + payload).len() == n);
}

/// Encodes packets into framed bytes ready for the socket.
///
/// Accumulates frames in an internal buffer, which [`take`](Self::take)
/// hands out. Encryption is not handled here.
pub struct PacketEncoder {
    buf: Vec<u8>,
    compression_threshold: Option<i32>,
    compressor: Flate2Compressor,
}

impl PacketEncoder {
    /// The bytes encoded and not yet taken.
    pub closed spec fn pending(&self) -> Seq<u8> {
        self.buf@
    }

    /// The compression threshold, `None` while compression is off.
    pub closed spec fn threshold(&self) -> Option<i32> {
        self.compression_threshold
    }

    /// The encoder compresses at [`COMPRESSION_LEVEL`].
    pub closed spec fn well_formed(&self) -> bool {
        self.compressor.spec_level() == COMPRESSION_LEVEL
    }

    /// An encoder with an empty buffer and compression off.
    pub fn new() -> (e: PacketEncoder)
        ensures
            e.well_formed(),
            e.pending() == Seq::<u8>::empty(),
            e.threshold() is None,
    {
        PacketEncoder {
            buf: Vec::new(),
            compression_threshold: None,
            compressor: new_compressor(COMPRESSION_LEVEL),
        }
    }

    /// Appends the frame of packet `packet_id` with `payload`: the common
    /// path of a proxy, which forwards a received frame as it is.
    pub fn append_raw(&mut self, packet_id: i32, payload: &[u8]) -> (res: ProtocolResult<()>)
        requires
            old(self).well_formed(),
        ensures
            final(self).well_formed(),
            final(self).threshold() == old(self).threshold(),
            appended(old(self).threshold(), packet_id, payload@, old(self).pending(), final(self).pending(), res),
            res is Ok && compresses(old(self).threshold(), packet_id, payload@.len()) ==> holds_exactly(
                zlib_compressed(varint_bytes(packet_id) + payload@, COMPRESSION_LEVEL),
                varint_bytes(packet_id) + payload@,
            ),
    {
        let id_varint = VarInt(packet_id);
        let id_size = id_varint.written_size();
        let unc = id_size.saturating_add(payload.len());
        match self.compression_threshold {
            None => {
                if unc > MAX_PACKET_SIZE {
                    return Err(ProtocolError::too_large(MAX_PACKET_SIZE, unc));
                }
                let _ = VarInt(unc as i32).encode(&mut self.buf);
                let _ = id_varint.encode(&mut self.buf);
                push_all(&mut self.buf, payload);
                proof {
                    assert(self.buf@ =~= old(self).buf@ + (varint_bytes(unc as i32) + varint_bytes(packet_id)
                        + payload@));
                }
                Ok(())
            },
            Some(threshold) => {
                if (unc as i32) >= threshold {
                    let mut data: Vec<u8> = Vec::new();
                    let _ = id_varint.encode(&mut data);
                    push_all(&mut data, payload);
                    let mut compressed: Vec<u8> = Vec::new();
                    match self.compressor.compress(data.as_slice(), &mut compressed) {
                        Ok(()) => {},
                        Err(e) => return Err(e),
                    }
                    let data_len = VarInt(unc as i32);
                    let n = data_len.written_size().saturating_add(compressed.len());
                    if n > MAX_PACKET_SIZE {
                        return Err(ProtocolError::too_large(MAX_PACKET_SIZE, n));
                    }
                    let _ = VarInt(n as i32).encode(&mut self.buf);
                    let _ = data_len.encode(&mut self.buf);
                    push_all(&mut self.buf, compressed.as_slice());
                    proof {
                        assert(data@ =~= varint_bytes(packet_id) + payload@);
                        assert(self.buf@ =~= old(self).buf@ + (varint_bytes(n as i32) + varint_bytes(
                            unc as i32,
                        ) + compressed@));
                    }
                    Ok(())
                } else {
                    let n = unc.saturating_add(1);
                    if n > MAX_PACKET_SIZE {
                        return Err(ProtocolError::too_large(MAX_PACKET_SIZE, n));
                    }
                    let _ = VarInt(n as i32).encode(&mut self.buf);
                    self.buf.push(0u8);
                    let _ = id_varint.encode(&mut self.buf);
                    push_all(&mut self.buf, payload);
                    proof {
                        assert(self.buf@ =~= old(self).buf@ + (varint_bytes(n as i32) + seq![0u8]
                            + varint_bytes(packet_id) + payload@));
                    }
                    Ok(())
                }
            },
        }
    }

    /// Appends the frame of `frame`, as [`append_raw`](Self::append_raw).
    pub fn append_frame(&mut self, frame: &PacketFrame) -> (res: ProtocolResult<()>)
        requires
            old(self).well_formed(),
        ensures
            final(self).well_formed(),
            final(self).threshold() == old(self).threshold(),
            appended(old(self).threshold(), frame.id, frame.payload@, old(self).pending(), final(self).pending(), res),
            res is Ok && compresses(old(self).threshold(), frame.id, frame.payload@.len()) ==> holds_exactly(
                zlib_compressed(varint_bytes(frame.id) + frame.payload@, COMPRESSION_LEVEL),
                varint_bytes(frame.id) + frame.payload@,
            ),
    {
        self.append_raw(frame.id, frame.payload.as_slice())
    }

    /// Hands out every byte encoded so far and empties the buffer.
    pub fn take(&mut self) -> (bytes: Vec<u8>)
        requires
            old(self).well_formed(),
        ensures
            final(self).well_formed(),
            bytes@ == old(self).pending(),
            final(self).pending() == Seq::<u8>::empty(),
            final(self).threshold() == old(self).threshold(),
    {
        let mut out: Vec<u8> = Vec::new();
        std::mem::swap(&mut out, &mut self.buf);
        out
    }

    /// Turns compression on: bodies of `threshold` bytes or more are
    /// compressed from now on.
    pub fn set_compression(&mut self, threshold: i32)
        requires
            old(self).well_formed(),
        ensures
            final(self).well_formed(),
            final(self).threshold() == Some(threshold),
            final(self).pending() == old(self).pending(),
    {
        self.compression_threshold = Some(threshold);
    }

    /// The compression threshold, `None` while compression is off.
    pub fn compression_threshold(&self) -> (t: Option<i32>)
        ensures
            t == self.threshold(),
    {
        self.compression_threshold
    }
}

impl Default for PacketEncoder {
    fn default() -> (e: PacketEncoder)
        ensures
            e.well_formed(),
            e.pending() == Seq::<u8>::empty(),
            e.threshold() is None,
    {
        PacketEncoder::new()
    }
}

} // verus!
