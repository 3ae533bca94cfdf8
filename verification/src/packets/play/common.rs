//! Field groups shared by the JoinGame and Respawn packets.

use vstd::prelude::*;

use crate::codec::raw::{read_bool, read_u64, write_u64};
use crate::codec::spec::{
    bool_bytes, i64_bytes, lemma_p_byte_round_trips, lemma_p_signed_round_trips,
    lemma_string_round_trip, lemma_varint_round_trip, p_bool, p_i64, p_string, p_varint,
    string_bytes, varint_bytes, SpecParse, MAX_STRING_CHARS,
};
use crate::codec::types::{encode_string, read_string};
use crate::codec::{Encode, VarInt};
use crate::error::{eof, ErrorClass, ProtocolResult};
use crate::version::{ProtocolVersion, V1_21_2};

verus! {

/// The sea level assumed before 1.21.2, which does not send it.
pub const DEFAULT_SEA_LEVEL: i32 = 63;

/// The optional death location: a presence flag, then the dimension name
/// and the packed block position.
pub open spec fn p_death_location(s: Seq<u8>) -> SpecParse<(Option<Seq<char>>, Option<i64>)> {
    match p_bool(s, eof()) {
        Err(e) => Err(e),
        Ok((present, r1)) => if present {
            match p_string(r1, MAX_STRING_CHARS as nat, eof()) {
                Err(e) => Err(e),
                Ok((dim, r2)) => match p_i64(r2, eof()) {
                    Err(e) => Err(e),
                    Ok((pos, r3)) => Ok(((Some(dim), Some(pos)), r3)),
                },
            }
        } else {
            Ok(((None, None), r1))
        },
    }
}

/// The bytes of a death location: present only when both parts are.
pub open spec fn death_location_bytes(dim: Option<Seq<char>>, pos: Option<i64>) -> Result<Seq<u8>, ErrorClass> {
    match (dim, pos) {
        (Some(d), Some(p)) => match string_bytes(d) {
            Err(e) => Err(e),
            Ok(b) => Ok(bool_bytes(true) + b + i64_bytes(p)),
        },
        _ => Ok(bool_bytes(false)),
    }
}

/// The portal cooldown, then from 1.21.2 the sea level (63 before).
pub open spec fn p_world_info(s: Seq<u8>, version: i32) -> SpecParse<(i32, i32)> {
    match p_varint(s, eof()) {
        Err(e) => Err(e),
        Ok((cooldown, r1)) => if version >= V1_21_2 {
            match p_varint(r1, eof()) {
                Err(e) => Err(e),
                Ok((sea, r2)) => Ok(((cooldown, sea), r2)),
            }
        } else {
            Ok(((cooldown, DEFAULT_SEA_LEVEL), r1))
        },
    }
}

/// The bytes of the world info for `version`.
pub open spec fn world_info_bytes(cooldown: i32, sea: i32, version: i32) -> Seq<u8> {
    varint_bytes(cooldown) + if version >= V1_21_2 {
        varint_bytes(sea)
    } else {
        seq![]
    }
}

pub open spec fn opt_string_view(s: Option<String>) -> Option<Seq<char>> {
    match s {
        Some(x) => Some(x@),
        None => None,
    }
}

/// Reads the optional death location.
pub fn decode_death_location(r: &mut &[u8]) -> (res: ProtocolResult<(Option<String>, Option<i64>)>)
    ensures
        match p_death_location(old(r)@) {
            Ok(((d, p), rest)) => res matches Ok((x, y)) && opt_string_view(x) == d && y == p
                && final(r)@ == rest,
            Err(c) => res matches Err(e) && e.class() == c,
        },
{
    let present = match read_bool(r, true) {
        Ok(b) => b,
        Err(e) => return Err(e),
    };
    if present {
        let dim = match read_string(r, MAX_STRING_CHARS, true) {
            Ok(s) => s,
            Err(e) => return Err(e),
        };
        match read_u64(r, true, "i64") {
            Ok(pos) => Ok((Some(dim), Some(pos as i64))),
            Err(e) => Err(e),
        }
    } else {
        Ok((None, None))
    }
}

/// Writes the optional death location.
pub fn encode_death_location(w: &mut Vec<u8>, death_dimension: Option<&str>, death_position: Option<i64>) -> (res: ProtocolResult<()>)
    ensures
        crate::codec::spec::written(
            death_location_bytes(
                match death_dimension {
                    Some(d) => Some(d@),
                    None => None,
                },
                death_position,
            ),
            res,
            old(w)@,
            final(w)@,
        ),
{
    match (death_dimension, death_position) {
        (Some(dim), Some(pos)) => {
            true.encode(w);
            match encode_string(dim, w) {
                Ok(()) => {},
                Err(e) => return Err(e),
            }
            write_u64(w, pos as u64);
            assert(w@ =~= old(w)@ + (bool_bytes(true) + string_bytes(dim@).unwrap() + i64_bytes(pos)));
            Ok(())
        },
        _ => {
            false.encode(w);
            Ok(())
        },
    }
}

/// Reads the portal cooldown and sea level.
pub fn decode_world_info(r: &mut &[u8], version: ProtocolVersion) -> (res: ProtocolResult<(i32, i32)>)
    ensures
        crate::codec::spec::parsed(p_world_info(old(r)@, version.0), res, final(r)@),
{
    let cooldown = match VarInt::read(r, true) {
        Ok(v) => v.0,
        Err(e) => return Err(e),
    };
    if version.no_less_than(ProtocolVersion(V1_21_2)) {
        match VarInt::read(r, true) {
            Ok(v) => Ok((cooldown, v.0)),
            Err(e) => Err(e),
        }
    } else {
        Ok((cooldown, DEFAULT_SEA_LEVEL))
    }
}

/// Writes the portal cooldown and, from 1.21.2, the sea level.
pub fn encode_world_info(w: &mut Vec<u8>, portal_cooldown: i32, sea_level: i32, version: ProtocolVersion) -> (res: ProtocolResult<()>)
    ensures
        res is Ok,
        final(w)@ == old(w)@ + world_info_bytes(portal_cooldown, sea_level, version.0),
{
    VarInt(portal_cooldown).encode(w);
    if version.no_less_than(ProtocolVersion(V1_21_2)) {
        VarInt(sea_level).encode(w);
    }
    assert(w@ =~= old(w)@ + world_info_bytes(portal_cooldown, sea_level, version.0));
    Ok(())
}

/// A death location reads back as written when both of its parts are
/// present and the name fits the protocol limit, and as absent otherwise.
pub proof fn lemma_death_location_round_trip(dim: Option<Seq<char>>, pos: Option<i64>, rest: Seq<u8>)
    requires
        dim matches Some(d) ==> d.len() <= MAX_STRING_CHARS,
    ensures
        death_location_bytes(dim, pos) is Ok,
        p_death_location(death_location_bytes(dim, pos).unwrap() + rest) == Ok::<
            ((Option<Seq<char>>, Option<i64>), Seq<u8>),
            ErrorClass,
        >((if dim is Some && pos is Some { (dim, pos) } else { (None, None) }, rest)),
{
    match (dim, pos) {
        (Some(d), Some(x)) => {
            let b = string_bytes(d).unwrap();
            lemma_string_round_trip(d, i64_bytes(x) + rest, MAX_STRING_CHARS as nat, eof());
            lemma_p_signed_round_trips(0, 0, 0, x, rest, eof());
            lemma_p_byte_round_trips(0, true, b + i64_bytes(x) + rest, eof());
            assert(bool_bytes(true) + b + i64_bytes(x) + rest =~= bool_bytes(true) + (b + i64_bytes(x)
                + rest));
            assert(b + i64_bytes(x) + rest =~= b + (i64_bytes(x) + rest));
        },
        _ => {
            lemma_p_byte_round_trips(0, false, rest, eof());
        },
    }
}

/// The world info reads back as written; before 1.21.2 the sea level reads
/// back as the default.
pub proof fn lemma_world_info_round_trip(cooldown: i32, sea: i32, version: i32, rest: Seq<u8>)
    ensures
        p_world_info(world_info_bytes(cooldown, sea, version) + rest, version) == Ok::<
            ((i32, i32), Seq<u8>),
            ErrorClass,
        >(((cooldown, if version >= V1_21_2 { sea } else { DEFAULT_SEA_LEVEL }), rest)),
{
    if version >= V1_21_2 {
        assert(world_info_bytes(cooldown, sea, version) + rest =~= varint_bytes(cooldown) + (
        varint_bytes(sea) + rest));
        lemma_varint_round_trip(cooldown, varint_bytes(sea) + rest, eof());
        lemma_varint_round_trip(sea, rest, eof());
    } else {
        assert(world_info_bytes(cooldown, sea, version) + rest =~= varint_bytes(cooldown) + rest);
        lemma_varint_round_trip(cooldown, rest, eof());
    }
}

} // verus!
