//! The Set Default Spawn Position packet (Clientbound): the compass target
//! and world spawn location.

use vstd::prelude::*;

use crate::codec::raw::{read_u32, read_u64, write_u32, write_u64};
use crate::codec::spec::{
    i64_bytes, lemma_p_signed_round_trips, lemma_p_u32_round_trip, lemma_string_round_trip,
    p_i64, p_string, p_u32, string_bytes, u32_bytes, SpecParse, MAX_STRING_CHARS,
};
use crate::codec::types::{encode_string, read_string};
use crate::error::{eof, ErrorClass, ProtocolResult};
use crate::packets::{packet_round_trips, Packet};
use crate::registry::PacketKind;
use crate::version::{ConnectionState, Direction, ProtocolVersion, V1_21_9};

verus! {

/// A block position packed into 64 bits: X in the top 26 bits, then Z in
/// 26 bits, then Y in the low 12 bits, each field the low bits of its
/// coordinate's two's complement.
pub open spec fn packed_position(x: i32, y: i32, z: i32) -> i64 {
    ((((x as u64) & 0x3FF_FFFFu64) << 38u64) | (((z as u64) & 0x3FF_FFFFu64) << 12u64) | ((y as u64)
        & 0xFFFu64)) as i64
}

/// Packs block coordinates into a 64-bit position value. Each field can be
/// read back from its bits.
pub fn pack_block_position(x: i32, y: i32, z: i32) -> (p: i64)
    ensures
        p == packed_position(x, y, z),
        (p as u64) >> 38u64 == (x as u64) & 0x3FF_FFFFu64,
        ((p as u64) >> 12u64) & 0x3FF_FFFFu64 == (z as u64) & 0x3FF_FFFFu64,
        (p as u64) & 0xFFFu64 == (y as u64) & 0xFFFu64,
{
    let xs = (x as u64) & 0x3FF_FFFFu64;
    let zs = (z as u64) & 0x3FF_FFFFu64;
    let ys = (y as u64) & 0xFFFu64;
    let u = (xs << 38u64) | (zs << 12u64) | ys;
    assert(xs <= 0x3FF_FFFFu64 && zs <= 0x3FF_FFFFu64 && ys <= 0xFFFu64) by (bit_vector)
        requires
            xs == (x as u64) & 0x3FF_FFFFu64,
            zs == (z as u64) & 0x3FF_FFFFu64,
            ys == (y as u64) & 0xFFFu64,
    ;
    assert(u >> 38u64 == xs && (u >> 12u64) & 0x3FF_FFFFu64 == zs && u & 0xFFFu64 == ys) by (bit_vector)
        requires
            xs <= 0x3FF_FFFFu64,
            zs <= 0x3FF_FFFFu64,
            ys <= 0xFFFu64,
            u == (xs << 38u64) | (zs << 12u64) | ys,
    ;
    assert((u as i64) as u64 == u) by (bit_vector);
    u as i64
}

/// Set Default Spawn Position packet (Clientbound).
///
/// Before 1.21.9: the packed location and the angle. From 1.21.9: the
/// dimension name, the location, the yaw and the pitch. The angles are
/// `f32`s on the wire and are carried here as their bit patterns
/// (`f32::to_bits`).
#[derive(Debug, Clone)]
pub struct CSetDefaultSpawnPosition {
    /// Dimension name (1.21.9+); `minecraft:overworld` by default.
    pub dimension_name: String,
    /// Packed block position (see [`pack_block_position`]).
    pub location: i64,
    /// Bits of the yaw angle at spawn.
    pub yaw: u32,
    /// Bits of the pitch angle at spawn (1.21.9+).
    pub pitch: u32,
}

pub struct CSetDefaultSpawnPositionView {
    pub dimension_name: Seq<char>,
    pub location: i64,
    pub yaw: u32,
    pub pitch: u32,
}

impl View for CSetDefaultSpawnPosition {
    type V = CSetDefaultSpawnPositionView;

    open spec fn view(&self) -> CSetDefaultSpawnPositionView {
        CSetDefaultSpawnPositionView {
            dimension_name: self.dimension_name@,
            location: self.location,
            yaw: self.yaw,
            pitch: self.pitch,
        }
    }
}

impl CSetDefaultSpawnPosition {
    /// A spawn position at the given block coordinates in the overworld,
    /// with pitch 0.
    pub fn at(x: i32, y: i32, z: i32, yaw: u32) -> (p: CSetDefaultSpawnPosition)
        ensures
            p@ == (CSetDefaultSpawnPositionView {
                dimension_name: "minecraft:overworld"@,
                location: packed_position(x, y, z),
                yaw,
                pitch: 0,
            }),
    {
        CSetDefaultSpawnPosition {
            dimension_name: "minecraft:overworld".to_string(),
            location: pack_block_position(x, y, z),
            yaw,
            pitch: 0,
        }
    }

    /// A spawn position at the given block coordinates in `dimension`, with
    /// pitch 0.
    pub fn at_in(dimension: &str, x: i32, y: i32, z: i32, yaw: u32) -> (p: CSetDefaultSpawnPosition)
        ensures
            p@ == (CSetDefaultSpawnPositionView {
                dimension_name: dimension@,
                location: packed_position(x, y, z),
                yaw,
                pitch: 0,
            }),
    {
        CSetDefaultSpawnPosition {
            dimension_name: dimension.to_string(),
            location: pack_block_position(x, y, z),
            yaw,
            pitch: 0,
        }
    }
}

impl Packet for CSetDefaultSpawnPosition {
    open spec fn packet_state() -> ConnectionState {
        ConnectionState::Play
    }

    open spec fn packet_direction() -> Direction {
        Direction::Clientbound
    }

    open spec fn parse(s: Seq<u8>, version: i32) -> SpecParse<CSetDefaultSpawnPositionView> {
        let dim = if version >= V1_21_9 {
            p_string(s, MAX_STRING_CHARS as nat, eof())
        } else {
            Ok(("minecraft:overworld"@, s))
        };
        match dim {
            Err(e) => Err(e),
            Ok((d, r1)) => match p_i64(r1, eof()) {
                Err(e) => Err(e),
                Ok((location, r2)) => match p_u32(r2, eof()) {
                    Err(e) => Err(e),
                    Ok((yaw, r3)) => {
                        let pitch = if version >= V1_21_9 {
                            p_u32(r3, eof())
                        } else {
                            Ok((0u32, r3))
                        };
                        match pitch {
                            Err(e) => Err(e),
                            Ok((pt, r4)) => Ok(
                                (
                                    CSetDefaultSpawnPositionView {
                                        dimension_name: d,
                                        location,
                                        yaw,
                                        pitch: pt,
                                    },
                                    r4,
                                ),
                            ),
                        }
                    },
                },
            },
        }
    }

    open spec fn encoding(p: CSetDefaultSpawnPositionView, version: i32) -> Result<Seq<u8>, ErrorClass> {
        if version >= V1_21_9 {
            match string_bytes(p.dimension_name) {
                Err(e) => Err(e),
                Ok(d) => Ok(d + i64_bytes(p.location) + u32_bytes(p.yaw) + u32_bytes(p.pitch)),
            }
        } else {
            Ok(i64_bytes(p.location) + u32_bytes(p.yaw))
        }
    }

    open spec fn name_text() -> Seq<char> {
        "CSetDefaultSpawnPosition"@
    }

    fn name() -> (s: &'static str) {
        "CSetDefaultSpawnPosition"
    }

    open spec fn packet_kind() -> PacketKind {
        PacketKind::CSetDefaultSpawnPosition
    }

    fn kind() -> (k: PacketKind) {
        PacketKind::CSetDefaultSpawnPosition
    }

    fn state() -> (s: ConnectionState) {
        ConnectionState::Play
    }

    fn direction() -> (d: Direction) {
        Direction::Clientbound
    }

    fn decode(r: &mut &[u8], version: ProtocolVersion) -> (res: ProtocolResult<CSetDefaultSpawnPosition>) {
        let modern = version.no_less_than(ProtocolVersion(V1_21_9));
        let dimension_name = if modern {
            match read_string(r, MAX_STRING_CHARS, true) {
                Ok(s) => s,
                Err(e) => return Err(e),
            }
        } else {
            "minecraft:overworld".to_string()
        };
        let location = match read_u64(r, true, "i64") {
            Ok(v) => v as i64,
            Err(e) => return Err(e),
        };
        let yaw = match read_u32(r, true, "f32") {
            Ok(v) => v,
            Err(e) => return Err(e),
        };
        let pitch = if modern {
            match read_u32(r, true, "f32") {
                Ok(v) => v,
                Err(e) => return Err(e),
            }
        } else {
            0
        };
        Ok(CSetDefaultSpawnPosition { dimension_name, location, yaw, pitch })
    }

    fn encode(&self, w: &mut Vec<u8>, version: ProtocolVersion) -> (res: ProtocolResult<()>) {
        let modern = version.no_less_than(ProtocolVersion(V1_21_9));
        if modern {
            match encode_string(self.dimension_name.as_str(), w) {
                Ok(()) => {},
                Err(e) => return Err(e),
            }
        }
        let ghost mid = w@;
        write_u64(w, self.location as u64);
        write_u32(w, self.yaw);
        if modern {
            write_u32(w, self.pitch);
        }
        assert(w@ =~= old(w)@ + Self::encoding(self@, version.0).unwrap());
        Ok(())
    }
}

/// A spawn position reads back as written, with what follows untouched:
/// from 1.21.9 exactly, when the dimension name fits the protocol limit;
/// before, the dimension reads back as `minecraft:overworld` and the pitch
/// as 0.
pub proof fn law_spawn_position_round_trip(p: CSetDefaultSpawnPositionView, version: i32, rest: Seq<u8>)
    requires
        version >= V1_21_9 ==> p.dimension_name.len() <= MAX_STRING_CHARS,
    ensures
        CSetDefaultSpawnPosition::encoding(p, version) is Ok,
        CSetDefaultSpawnPosition::parse(CSetDefaultSpawnPosition::encoding(p, version).unwrap() + rest, version)
            == Ok::<(CSetDefaultSpawnPositionView, Seq<u8>), ErrorClass>(
            (
                if version >= V1_21_9 {
                    p
                } else {
                    CSetDefaultSpawnPositionView { dimension_name: "minecraft:overworld"@, pitch: 0, ..p }
                },
                rest,
            ),
        ),
        version >= V1_21_9 ==> packet_round_trips::<CSetDefaultSpawnPosition>(p, version, rest),
{
    let loc = i64_bytes(p.location);
    let yaw = u32_bytes(p.yaw);
    if version >= V1_21_9 {
        lemma_string_round_trip(p.dimension_name, seq![], MAX_STRING_CHARS as nat, eof());
        let d = string_bytes(p.dimension_name).unwrap();
        let pt = u32_bytes(p.pitch);
        assert(d + loc + yaw + pt + rest =~= d + (loc + (yaw + (pt + rest))));
        lemma_string_round_trip(p.dimension_name, loc + (yaw + (pt + rest)), MAX_STRING_CHARS as nat, eof());
        lemma_p_signed_round_trips(0, 0, 0, p.location, yaw + (pt + rest), eof());
        lemma_p_u32_round_trip(p.yaw, pt + rest, eof());
        lemma_p_u32_round_trip(p.pitch, rest, eof());
    } else {
        assert(loc + yaw + rest =~= loc + (yaw + rest));
        lemma_p_signed_round_trips(0, 0, 0, p.location, yaw + rest, eof());
        lemma_p_u32_round_trip(p.yaw, rest, eof());
    }
}

} // verus!
