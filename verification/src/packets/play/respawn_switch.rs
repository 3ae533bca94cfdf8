//! The Respawn packet a server switch sends: its format changes across
//! protocol versions, so it is built version by version with the safe
//! defaults a switch needs.

use vstd::prelude::*;

use super::dimension::{DimensionInfo, DimensionInfoView};
use super::respawn::{default_respawn, CRespawn, CRespawnView};
use crate::codec::raw::{write_u32, write_u64};
use crate::codec::spec::{
    bool_bytes, i32_bytes, i64_bytes, i8_bytes, string_bytes, varint_bytes, written,
    MAX_STRING_CHARS,
};
use crate::codec::types::encode_string;
use crate::codec::{Encode, VarInt};
use crate::error::{ErrorClass, ProtocolResult};
use crate::text::str_eq;
use crate::version::{ProtocolVersion, V1_14, V1_15, V1_16, V1_16_2, V1_19, V1_19_3, V1_19_4, V1_20_2};

verus! {

/// The numeric dimension (before 1.16): a legacy ID as it is; the nether
/// and the end by name are -1 and 1; any other name is the overworld, 0.
pub open spec fn dim_as_i32(d: DimensionInfoView) -> i32 {
    match d {
        DimensionInfoView::Legacy(id) => id,
        DimensionInfoView::Named(n) => if n == "minecraft:the_nether"@ {
            -1i32
        } else if n == "minecraft:the_end"@ {
            1i32
        } else {
            0i32
        },
    }
}

/// The dimension name (from 1.16): a name as it is; legacy -1 and 1 are
/// the nether and the end; any other ID is the overworld.
pub open spec fn dim_as_name(d: DimensionInfoView) -> Seq<char> {
    match d {
        DimensionInfoView::Named(n) => n,
        DimensionInfoView::Legacy(id) => if id == -1 {
            "minecraft:the_nether"@
        } else if id == 1 {
            "minecraft:the_end"@
        } else {
            "minecraft:overworld"@
        },
    }
}

/// Converts a dimension to its numeric ID, for versions before 1.16.
pub fn dimension_as_i32(dim: &DimensionInfo) -> (id: i32)
    ensures
        id == dim_as_i32(dim@),
{
    match dim {
        DimensionInfo::Legacy(id) => *id,
        DimensionInfo::Named(name) => if str_eq(name.as_str(), "minecraft:the_nether") {
            -1
        } else if str_eq(name.as_str(), "minecraft:the_end") {
            1
        } else {
            0
        },
    }
}

/// Converts a dimension to its namespaced name, for 1.16 and later.
pub fn dimension_as_name(dim: &DimensionInfo) -> (name: String)
    ensures
        name@ == dim_as_name(dim@),
{
    match dim {
        DimensionInfo::Named(name) => name.clone(),
        DimensionInfo::Legacy(id) => if *id == -1 {
            "minecraft:the_nether".to_string()
        } else if *id == 1 {
            "minecraft:the_end".to_string()
        } else {
            "minecraft:overworld".to_string()
        },
    }
}

/// An empty, nameless NBT compound: the dimension type of a 1.16–1.16.1
/// Respawn, which the client does not use.
pub open spec fn minimal_dimension_nbt() -> Seq<u8> {
    seq![0x0Au8, 0x00, 0x00, 0x00]
}

fn write_minimal_dimension_nbt(w: &mut Vec<u8>)
    ensures
        final(w)@ == old(w)@ + minimal_dimension_nbt(),
{
    w.push(0x0A);
    w.push(0x00);
    w.push(0x00);
    w.push(0x00);
    assert(w@ =~= old(w)@ + minimal_dimension_nbt());
}

/// The level type of the switch Respawn before 1.16.
pub open spec fn level_type_bytes() -> Seq<u8> {
    string_bytes("default"@).unwrap()
}

/// The fixed fields after the dimension name from 1.16: hashed seed 0,
/// survival, no previous game mode, not debug, not flat.
pub open spec fn switch_fixed_bytes() -> Seq<u8> {
    i64_bytes(0) + seq![0u8] + i8_bytes(-1i8) + bool_bytes(false) + bool_bytes(false)
}

/// The payload of the switch Respawn for protocol `pvn` (before 1.20.2),
/// or `TooLarge` when a dimension name that must be written exceeds 32767
/// characters.
pub open spec fn switch_respawn_bytes(d: DimensionInfoView, pvn: i32) -> Result<Seq<u8>, ErrorClass> {
    if pvn < V1_14 {
        Ok(i32_bytes(dim_as_i32(d)) + seq![2u8] + seq![0u8] + level_type_bytes())
    } else if pvn < V1_15 {
        Ok(i32_bytes(dim_as_i32(d)) + seq![0u8] + level_type_bytes())
    } else if pvn < V1_16 {
        Ok(i32_bytes(dim_as_i32(d)) + i64_bytes(0) + seq![0u8] + level_type_bytes())
    } else {
        match string_bytes(dim_as_name(d)) {
            Err(e) => Err(e),
            Ok(name) => if pvn < V1_16_2 {
                Ok(minimal_dimension_nbt() + name + switch_fixed_bytes() + bool_bytes(true))
            } else if pvn < V1_19 {
                Ok(name + name + switch_fixed_bytes() + bool_bytes(true))
            } else if pvn < V1_19_3 {
                Ok(name + name + switch_fixed_bytes() + bool_bytes(true) + bool_bytes(false))
            } else if pvn < V1_19_4 {
                Ok(name + name + switch_fixed_bytes() + seq![0x01u8] + bool_bytes(false))
            } else {
                Ok(
                    name + name + switch_fixed_bytes() + seq![0x01u8] + bool_bytes(false)
                        + varint_bytes(0),
                )
            },
        }
    }
}

fn write_level_type(w: &mut Vec<u8>)
    ensures
        final(w)@ == old(w)@ + level_type_bytes(),
{
    proof {
        reveal_strlit("default");
    }
    let r = encode_string("default", w);
}

fn write_switch_fixed(w: &mut Vec<u8>)
    ensures
        final(w)@ == old(w)@ + switch_fixed_bytes(),
{
    write_u64(w, 0);
    w.push(0);
    w.push((-1i8) as u8);
    false.encode(w);
    false.encode(w);
    assert(w@ =~= old(w)@ + switch_fixed_bytes());
}

/// Writes the switch Respawn payload for `version` (before 1.20.2).
fn encode_switch_respawn(w: &mut Vec<u8>, dimension: &DimensionInfo, version: ProtocolVersion) -> (res: ProtocolResult<()>)
    ensures
        written(switch_respawn_bytes(dimension@, version.0), res, old(w)@, final(w)@),
{
    let pvn = version.0;
    if pvn < V1_14 {
        write_u32(w, dimension_as_i32(dimension) as u32);
        w.push(2);
        w.push(0);
        write_level_type(w);
        assert(w@ =~= old(w)@ + switch_respawn_bytes(dimension@, pvn).unwrap());
        return Ok(());
    } else if pvn < V1_15 {
        write_u32(w, dimension_as_i32(dimension) as u32);
        w.push(0);
        write_level_type(w);
        assert(w@ =~= old(w)@ + switch_respawn_bytes(dimension@, pvn).unwrap());
        return Ok(());
    } else if pvn < V1_16 {
        write_u32(w, dimension_as_i32(dimension) as u32);
        write_u64(w, 0);
        w.push(0);
        write_level_type(w);
        assert(w@ =~= old(w)@ + switch_respawn_bytes(dimension@, pvn).unwrap());
        return Ok(());
    }
    let dim_name = dimension_as_name(dimension);
    let ghost name = string_bytes(dim_name@);
    if pvn < V1_16_2 {
        write_minimal_dimension_nbt(w);
        match encode_string(dim_name.as_str(), w) {
            Ok(()) => {},
            Err(e) => return Err(e),
        }
        write_switch_fixed(w);
        true.encode(w);
    } else {
        match encode_string(dim_name.as_str(), w) {
            Ok(()) => {},
            Err(e) => return Err(e),
        }
        let r = encode_string(dim_name.as_str(), w);
        write_switch_fixed(w);
        if pvn < V1_19 {
            true.encode(w);
        } else if pvn < V1_19_3 {
            true.encode(w);
            false.encode(w);
        } else if pvn < V1_19_4 {
            w.push(0x01);
            false.encode(w);
        } else {
            w.push(0x01);
            false.encode(w);
            VarInt(0).encode(w);
        }
    }
    assert(w@ =~= old(w)@ + switch_respawn_bytes(dimension@, pvn).unwrap());
    Ok(())
}

/// The Respawn a switch sends: from 1.20.2 the decoded fields (a legacy ID
/// as the dimension with the overworld's name, or a name with dimension 0;
/// keep-all data), before 1.20.2 the raw payload of the version's format.
pub open spec fn switch_respawn(d: DimensionInfoView, version: i32) -> CRespawnView {
    if version >= V1_20_2 {
        CRespawnView {
            dimension: match d {
                DimensionInfoView::Legacy(id) => id,
                DimensionInfoView::Named(_) => 0,
            },
            level_name: match d {
                DimensionInfoView::Legacy(_) => "minecraft:overworld"@,
                DimensionInfoView::Named(n) => n,
            },
            data_to_keep: 0x01,
            ..default_respawn(None)
        }
    } else {
        default_respawn(Some(switch_respawn_bytes(d, version).unwrap()))
    }
}

/// Builds the Respawn packet of a server switch into `dimension`.
pub fn for_switch(dimension: &DimensionInfo, version: ProtocolVersion) -> (r: CRespawn)
    requires
        V1_16 <= version.0 < V1_20_2 ==> dim_as_name(dimension@).len() <= MAX_STRING_CHARS,
    ensures
        r@ == switch_respawn(dimension@, version.0),
{
    if version.no_less_than(ProtocolVersion(V1_20_2)) {
        let (dim_id, level_name) = match dimension {
            DimensionInfo::Legacy(id) => (*id, "minecraft:overworld".to_string()),
            DimensionInfo::Named(name) => (0, name.clone()),
        };
        let mut r = CRespawn::default();
        r.dimension = dim_id;
        r.level_name = level_name;
        r.data_to_keep = 0x01;
        return r;
    }
    let mut raw: Vec<u8> = Vec::new();
    let res = encode_switch_respawn(&mut raw, dimension, version);
    assert(res is Ok);
    let mut r = CRespawn::default();
    r.raw_payload = Some(raw);
    r
}

} // verus!
