//! The dimension a JoinGame payload announces, needed to build the Respawn
//! packet of a server switch (before 1.20.2).

use vstd::prelude::*;

use crate::codec::raw::{read_bool, read_u32, read_u8};
use crate::codec::spec::{lemma_var_value_len, p_bool, p_i32, p_string, p_u8, p_varint, SpecParse, MAX_STRING_CHARS};
use crate::codec::types::read_string;
use crate::codec::VarInt;
use crate::error::{eof, ErrorClass, ProtocolError, ProtocolResult};
use crate::nbt::{skip_named_compound, skip_nbt_compound};
use crate::version::{ProtocolVersion, V1_16, V1_16_2, V1_20_2};

verus! {

/// The dimension of a JoinGame packet: a numeric ID before 1.16, a name after.
#[derive(Debug, Clone, PartialEq, Eq)]
pub enum DimensionInfo {
    Legacy(i32),
    Named(String),
}

pub enum DimensionInfoView {
    Legacy(i32),
    Named(Seq<char>),
}

impl View for DimensionInfo {
    type V = DimensionInfoView;

    open spec fn view(&self) -> DimensionInfoView {
        match self {
            DimensionInfo::Legacy(d) => DimensionInfoView::Legacy(*d),
            DimensionInfo::Named(n) => DimensionInfoView::Named(n@),
        }
    }
}

/// Skipping `n` strings.
pub open spec fn skip_strings(s: Seq<u8>, n: int) -> Result<Seq<u8>, ErrorClass>
    decreases n,
{
    if n <= 0 {
        Ok(s)
    } else {
        match p_string(s, MAX_STRING_CHARS as nat, eof()) {
            Err(e) => Err(e),
            Ok((_, r)) => skip_strings(r, n - 1),
        }
    }
}

/// What the dimension of a JoinGame payload is read as:
/// - from 1.20.2, `minecraft:overworld` (the config phase carries it);
/// - before 1.16, the `i32` after the game mode byte;
/// - from 1.16, after the hardcore flag, the game modes, the world names,
///   the dimension codec (NBT) and the dimension type (NBT before 1.16.2, a
///   name after), the dimension name.
pub open spec fn join_game_dimension(s: Seq<u8>, version: i32) -> Result<DimensionInfoView, ErrorClass> {
    if version >= V1_20_2 {
        Ok(DimensionInfoView::Named("minecraft:overworld"@))
    } else if version < V1_16 {
        match p_u8(s, eof()) {
            Err(e) => Err(e),
            Ok((_, r1)) => match p_i32(r1, eof()) {
                Err(e) => Err(e),
                Ok((d, _)) => Ok(DimensionInfoView::Legacy(d)),
            },
        }
    } else {
        match p_bool(s, eof()) {
            Err(e) => Err(e),
            Ok((_, r1)) => match p_u8(r1, eof()) {
                Err(e) => Err(e),
                Ok((_, r2)) => match p_u8(r2, eof()) {
                    Err(e) => Err(e),
                    Ok((_, r3)) => match p_varint(r3, eof()) {
                        Err(e) => Err(e),
                        Ok((count, r4)) => match skip_strings(r4, count as int) {
                            Err(e) => Err(e),
                            Ok(r5) => match skip_named_compound(r5) {
                                Err(e) => Err(e),
                                Ok(r6) => {
                                    let ty = if version < V1_16_2 {
                                        skip_named_compound(r6)
                                    } else {
                                        match p_string(r6, MAX_STRING_CHARS as nat, eof()) {
                                            Err(e) => Err(e),
                                            Ok((_, r)) => Ok(r),
                                        }
                                    };
                                    match ty {
                                        Err(e) => Err(e),
                                        Ok(r7) => match p_string(r7, MAX_STRING_CHARS as nat, eof()) {
                                            Err(e) => Err(e),
                                            Ok((name, _)) => Ok(DimensionInfoView::Named(name)),
                                        },
                                    }
                                },
                            },
                        },
                    },
                },
            },
        }
    }
}

fn skip_string(r: &mut &[u8]) -> (res: ProtocolResult<()>)
    ensures
        match p_string(old(r)@, MAX_STRING_CHARS as nat, eof()) {
            Ok((_, rest)) => res is Ok && final(r)@ == rest,
            Err(c) => res matches Err(e) && e.class() == c,
        },
        res is Ok ==> final(r)@.len() <= old(r)@.len(),
{
    proof {
        lemma_var_value_len(old(r)@, 5, eof());
    }
    match read_string(r, MAX_STRING_CHARS, true) {
        Ok(_) => Ok(()),
        Err(e) => Err(e),
    }
}

/// Reads the dimension from a raw JoinGame payload.
pub fn extract_dimension_from_join_game(raw_payload: &[u8], version: ProtocolVersion) -> (res:
    ProtocolResult<DimensionInfo>)
    requires
        raw_payload@.len() <= 0xFFFF_FFF0,
    ensures
        match join_game_dimension(raw_payload@, version.0) {
            Ok(d) => res matches Ok(x) && x@ == d,
            Err(c) => res matches Err(e) && e.class() == c,
        },
{
    let mut slice = raw_payload;
    let r = &mut slice;
    if version.no_less_than(ProtocolVersion(V1_20_2)) {
        return Ok(DimensionInfo::Named("minecraft:overworld".to_string()));
    }
    if version.less_than(ProtocolVersion(V1_16)) {
        match read_u8(r, true, "game mode") {
            Ok(_) => {},
            Err(e) => return Err(e),
        }
        return match read_u32(r, true, "dimension") {
            Ok(d) => Ok(DimensionInfo::Legacy(d as i32)),
            Err(e) => Err(e),
        };
    }
    match read_bool(r, true) {
        Ok(_) => {},
        Err(e) => return Err(e),
    }
    match read_u8(r, true, "game mode") {
        Ok(_) => {},
        Err(e) => return Err(e),
    }
    match read_u8(r, true, "previous game mode") {
        Ok(_) => {},
        Err(e) => return Err(e),
    }
    let ghost before = r@;
    let world_count = match VarInt::read(r, true) {
        Ok(v) => v.0,
        Err(e) => return Err(e),
    };
    proof {
        lemma_var_value_len(before, 5, eof());
    }
    let ghost s0 = r@;
    let mut i: i32 = 0;
    while i < world_count
        invariant
            0 <= i,
            world_count > 0 ==> i <= world_count,
            r@.len() <= s0.len(),
            s0.len() <= 0xFFFF_FFF0,
            join_game_dimension(raw_payload@, version.0) == match skip_strings(s0, world_count as int) {
                Err(e) => Err(e),
                Ok(r5) => match skip_named_compound(r5) {
                    Err(e) => Err(e),
                    Ok(r6) => {
                        let ty = if version.0 < V1_16_2 {
                            skip_named_compound(r6)
                        } else {
                            match p_string(r6, MAX_STRING_CHARS as nat, eof()) {
                                Err(e) => Err(e),
                                Ok((_, r)) => Ok(r),
                            }
                        };
                        match ty {
                            Err(e) => Err(e),
                            Ok(r7) => match p_string(r7, MAX_STRING_CHARS as nat, eof()) {
                                Err(e) => Err(e),
                                Ok((name, _)) => Ok(DimensionInfoView::Named(name)),
                            },
                        }
                    },
                },
            },
            skip_strings(s0, world_count as int) == skip_strings(r@, world_count - i),
        decreases world_count - i,
    {
        match skip_string(r) {
            Ok(()) => {},
            Err(e) => return Err(e),
        }
        i = i + 1;
    }
    match skip_nbt_compound(r) {
        Ok(()) => {},
        Err(e) => return Err(e),
    }
    if version.less_than(ProtocolVersion(V1_16_2)) {
        match skip_nbt_compound(r) {
            Ok(()) => {},
            Err(e) => return Err(e),
        }
    } else {
        match skip_string(r) {
            Ok(()) => {},
            Err(e) => return Err(e),
        }
    }
    match read_string(r, MAX_STRING_CHARS, true) {
        Ok(name) => Ok(DimensionInfo::Named(name)),
        Err(e) => Err(e),
    }
}

} // verus!
