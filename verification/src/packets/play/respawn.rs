//! The Respawn packet.

use vstd::prelude::*;

use super::common::{
    death_location_bytes, decode_death_location, decode_world_info, encode_death_location,
    encode_world_info, lemma_death_location_round_trip, lemma_world_info_round_trip,
    opt_string_view, p_death_location, p_world_info, world_info_bytes,
    DEFAULT_SEA_LEVEL,
};
use crate::codec::raw::{push_all, read_bool, read_u64, read_u8, write_u64};
use crate::codec::spec::{
    bool_bytes, i64_bytes, i8_bytes, lemma_p_byte_round_trips, lemma_p_signed_round_trips,
    lemma_string_round_trip, lemma_varint_round_trip, p_bool, p_i64, p_i8, p_string, p_u8,
    p_varint, string_bytes, varint_bytes, SpecParse, MAX_STRING_CHARS,
};
use crate::codec::types::{encode_string, read_remaining, read_string};
use crate::codec::{Encode, VarInt};
use crate::error::{eof, ErrorClass, ProtocolResult};
use crate::packets::Packet;
use crate::version::{ConnectionState, Direction, ProtocolVersion, V1_20_2, V1_20_5, V1_21_2};

use crate::registry::PacketKind;

verus! {

/// Respawn packet (Clientbound). Before 1.20.2 the payload is kept as raw
/// bytes; from 1.20.2 every field is decoded. Encoding writes the raw
/// payload whenever there is one.
#[derive(Debug, Clone)]
pub struct CRespawn {
    pub dimension: i32,
    pub level_name: String,
    pub hashed_seed: i64,
    pub gamemode: u8,
    pub previous_gamemode: i8,
    pub is_debug: bool,
    pub is_flat: bool,
    pub data_to_keep: u8,
    pub death_dimension: Option<String>,
    pub death_position: Option<i64>,
    pub portal_cooldown: i32,
    pub sea_level: i32,
    pub raw_payload: Option<Vec<u8>>,
}

pub struct CRespawnView {
    pub dimension: i32,
    pub level_name: Seq<char>,
    pub hashed_seed: i64,
    pub gamemode: u8,
    pub previous_gamemode: i8,
    pub is_debug: bool,
    pub is_flat: bool,
    pub data_to_keep: u8,
    pub death_dimension: Option<Seq<char>>,
    pub death_position: Option<i64>,
    pub portal_cooldown: i32,
    pub sea_level: i32,
    pub raw_payload: Option<Seq<u8>>,
}

impl View for CRespawn {
    type V = CRespawnView;

    open spec fn view(&self) -> CRespawnView {
        CRespawnView {
            dimension: self.dimension,
            level_name: self.level_name@,
            hashed_seed: self.hashed_seed,
            gamemode: self.gamemode,
            previous_gamemode: self.previous_gamemode,
            is_debug: self.is_debug,
            is_flat: self.is_flat,
            data_to_keep: self.data_to_keep,
            death_dimension: opt_string_view(self.death_dimension),
            death_position: self.death_position,
            portal_cooldown: self.portal_cooldown,
            sea_level: self.sea_level,
            raw_payload: match self.raw_payload {
                Some(r) => Some(r@),
                None => None,
            },
        }
    }
}

/// The defaults of a Respawn packet: survival, no previous game mode, sea
/// level 63, everything else zero, false or empty.
pub open spec fn default_respawn(raw_payload: Option<Seq<u8>>) -> CRespawnView {
    CRespawnView {
        dimension: 0,
        level_name: seq![],
        hashed_seed: 0,
        gamemode: 0,
        previous_gamemode: -1i8,
        is_debug: false,
        is_flat: false,
        data_to_keep: 0,
        death_dimension: None,
        death_position: None,
        portal_cooldown: 0,
        sea_level: DEFAULT_SEA_LEVEL,
        raw_payload,
    }
}

impl Default for CRespawn {
    fn default() -> (r: CRespawn)
        ensures
            r@ == default_respawn(None),
    {
        CRespawn {
            dimension: 0,
            level_name: String::new(),
            hashed_seed: 0,
            gamemode: 0,
            previous_gamemode: -1,
            is_debug: false,
            is_flat: false,
            data_to_keep: 0,
            death_dimension: None,
            death_position: None,
            portal_cooldown: 0,
            sea_level: DEFAULT_SEA_LEVEL,
            raw_payload: None,
        }
    }
}

/// A 1.20.2+ Respawn: the dimension (a `VarInt` from 1.20.5, a skipped name
/// read as 0 before), level name, hashed seed, game modes, debug and flat
/// flags, death location, world info, then the data-to-keep byte.
#[verifier::opaque]
pub open spec fn p_respawn_modern(s: Seq<u8>, version: i32) -> SpecParse<CRespawnView> {
    let dim = if version >= V1_20_5 {
        p_varint(s, eof())
    } else {
        match p_string(s, MAX_STRING_CHARS as nat, eof()) {
            Err(e) => Err(e),
            Ok((_, r)) => Ok((0i32, r)),
        }
    };
    match dim {
        Err(e) => Err(e),
        Ok((d, r1)) => match p_string(r1, MAX_STRING_CHARS as nat, eof()) {
            Err(e) => Err(e),
            Ok((ln, r2)) => match p_i64(r2, eof()) {
                Err(e) => Err(e),
                Ok((seed, r3)) => match p_u8(r3, eof()) {
                    Err(e) => Err(e),
                    Ok((gm, r4)) => match p_i8(r4, eof()) {
                        Err(e) => Err(e),
                        Ok((pgm, r5)) => match p_bool(r5, eof()) {
                            Err(e) => Err(e),
                            Ok((dbg, r6)) => match p_bool(r6, eof()) {
                                Err(e) => Err(e),
                                Ok((flat, r7)) => match p_death_location(r7) {
                                    Err(e) => Err(e),
                                    Ok((death, r8)) => match p_world_info(r8, version) {
                                        Err(e) => Err(e),
                                        Ok((world, r9)) => match p_u8(r9, eof()) {
                                            Err(e) => Err(e),
                                            Ok((keep, r10)) => Ok(
                                                (
                                                    CRespawnView {
                                                        dimension: d,
                                                        level_name: ln,
                                                        hashed_seed: seed,
                                                        gamemode: gm,
                                                        previous_gamemode: pgm,
                                                        is_debug: dbg,
                                                        is_flat: flat,
                                                        data_to_keep: keep,
                                                        death_dimension: death.0,
                                                        death_position: death.1,
                                                        portal_cooldown: world.0,
                                                        sea_level: world.1,
                                                        raw_payload: None,
                                                    },
                                                    r10,
                                                ),
                                            ),
                                        },
                                    },
                                },
                            },
                        },
                    },
                },
            },
        },
    }
}

/// The fixed middle of a 1.20.2+ Respawn.
pub open spec fn respawn_middle_bytes(p: CRespawnView) -> Seq<u8> {
    i64_bytes(p.hashed_seed) + seq![p.gamemode] + i8_bytes(p.previous_gamemode) + bool_bytes(
        p.is_debug,
    ) + bool_bytes(p.is_flat)
}

/// The bytes of a 1.20.2+ Respawn; before 1.20.5 the dimension is written
/// as `minecraft:overworld`.
pub open spec fn respawn_modern_bytes(p: CRespawnView, version: i32) -> Result<Seq<u8>, ErrorClass> {
    let dim = if version >= V1_20_5 {
        Ok(varint_bytes(p.dimension))
    } else {
        string_bytes("minecraft:overworld"@)
    };
    match dim {
        Err(e) => Err(e),
        Ok(d) => match string_bytes(p.level_name) {
            Err(e) => Err(e),
            Ok(ln) => match death_location_bytes(p.death_dimension, p.death_position) {
                Err(e) => Err(e),
                Ok(death) => Ok(
                    d + ln + respawn_middle_bytes(p) + death + world_info_bytes(
                        p.portal_cooldown,
                        p.sea_level,
                        version,
                    ) + seq![p.data_to_keep],
                ),
            },
        },
    }
}

fn write_respawn_middle(w: &mut Vec<u8>, pkt: &CRespawn)
    ensures
        final(w)@ == old(w)@ + respawn_middle_bytes(pkt@),
{
    write_u64(w, pkt.hashed_seed as u64);
    w.push(pkt.gamemode);
    w.push(pkt.previous_gamemode as u8);
    pkt.is_debug.encode(w);
    pkt.is_flat.encode(w);
    assert(w@ =~= old(w)@ + respawn_middle_bytes(pkt@));
}

#[verifier::rlimit(40)]
fn decode_1_20_2_up(r: &mut &[u8], version: ProtocolVersion) -> (res: ProtocolResult<CRespawn>)
    ensures
        crate::codec::spec::parsed_view(p_respawn_modern(old(r)@, version.0), res, final(r)@),
{
    proof {
        reveal(p_respawn_modern);
    }
    let dimension = if version.no_less_than(ProtocolVersion(V1_20_5)) {
        match VarInt::read(r, true) {
            Ok(v) => v.0,
            Err(e) => return Err(e),
        }
    } else {
        match read_string(r, MAX_STRING_CHARS, true) {
            Ok(_) => 0,
            Err(e) => return Err(e),
        }
    };
    let level_name = match read_string(r, MAX_STRING_CHARS, true) {
        Ok(s) => s,
        Err(e) => return Err(e),
    };
    let hashed_seed = match read_u64(r, true, "i64") {
        Ok(v) => v as i64,
        Err(e) => return Err(e),
    };
    let gamemode = match read_u8(r, true, "u8") {
        Ok(v) => v,
        Err(e) => return Err(e),
    };
    let previous_gamemode = match read_u8(r, true, "i8") {
        Ok(v) => v as i8,
        Err(e) => return Err(e),
    };
    let is_debug = match read_bool(r, true) {
        Ok(b) => b,
        Err(e) => return Err(e),
    };
    let is_flat = match read_bool(r, true) {
        Ok(b) => b,
        Err(e) => return Err(e),
    };
    let (death_dimension, death_position) = match decode_death_location(r) {
        Ok(d) => d,
        Err(e) => return Err(e),
    };
    let (portal_cooldown, sea_level) = match decode_world_info(r, version) {
        Ok(w) => w,
        Err(e) => return Err(e),
    };
    let data_to_keep = match read_u8(r, true, "u8") {
        Ok(v) => v,
        Err(e) => return Err(e),
    };
    Ok(CRespawn {
        dimension,
        level_name,
        hashed_seed,
        gamemode,
        previous_gamemode,
        is_debug,
        is_flat,
        data_to_keep,
        death_dimension,
        death_position,
        portal_cooldown,
        sea_level,
        raw_payload: None,
    })
}

#[verifier::rlimit(40)]
fn encode_1_20_2_up(pkt: &CRespawn, w: &mut Vec<u8>, version: ProtocolVersion) -> (res: ProtocolResult<()>)
    ensures
        crate::codec::spec::written(respawn_modern_bytes(pkt@, version.0), res, old(w)@, final(w)@),
{
    let ghost pv = pkt@;
    if version.no_less_than(ProtocolVersion(V1_20_5)) {
        VarInt(pkt.dimension).encode(w);
    } else {
        match encode_string("minecraft:overworld", w) {
            Ok(()) => {},
            Err(e) => return Err(e),
        }
    }
    let ghost a = w@;
    match encode_string(pkt.level_name.as_str(), w) {
        Ok(()) => {},
        Err(e) => return Err(e),
    }
    let ghost b = w@;
    write_respawn_middle(w, pkt);
    let ghost c = w@;
    let dd = match &pkt.death_dimension {
        Some(s) => Some(s.as_str()),
        None => None,
    };
    match encode_death_location(w, dd, pkt.death_position) {
        Ok(()) => {},
        Err(e) => return Err(e),
    }
    let ghost d = w@;
    encode_world_info(w, pkt.portal_cooldown, pkt.sea_level, version);
    w.push(pkt.data_to_keep);
    let ghost dimb = a.skip(old(w)@.len() as int);
    assert(a =~= old(w)@ + dimb);
    assert(w@ =~= old(w)@ + respawn_modern_bytes(pv, version.0).unwrap());
    Ok(())
}

impl Packet for CRespawn {
    open spec fn packet_state() -> ConnectionState {
        ConnectionState::Play
    }

    open spec fn packet_direction() -> Direction {
        Direction::Clientbound
    }

    open spec fn parse(s: Seq<u8>, version: i32) -> SpecParse<CRespawnView> {
        if version < V1_20_2 {
            Ok((default_respawn(Some(s)), seq![]))
        } else {
            p_respawn_modern(s, version)
        }
    }

    open spec fn encoding(p: CRespawnView, version: i32) -> Result<Seq<u8>, ErrorClass> {
        match p.raw_payload {
            Some(raw) => Ok(raw),
            None => respawn_modern_bytes(p, version),
        }
    }

    open spec fn name_text() -> Seq<char> {
        "CRespawn"@
    }

    fn name() -> (s: &'static str) {
        "CRespawn"
    }

    open spec fn packet_kind() -> PacketKind {
        PacketKind::CRespawn
    }

    fn kind() -> (k: PacketKind) {
        PacketKind::CRespawn
    }

    fn state() -> (s: ConnectionState) {
        ConnectionState::Play
    }

    fn direction() -> (d: Direction) {
        Direction::Clientbound
    }

    fn decode(r: &mut &[u8], version: ProtocolVersion) -> (res: ProtocolResult<CRespawn>) {
        if version.less_than(ProtocolVersion(V1_20_2)) {
            let raw = read_remaining(r);
            let mut p = CRespawn::default();
            p.raw_payload = Some(raw);
            Ok(p)
        } else {
            decode_1_20_2_up(r, version)
        }
    }

    fn encode(&self, w: &mut Vec<u8>, version: ProtocolVersion) -> (res: ProtocolResult<()>) {
        match &self.raw_payload {
            Some(raw) => {
                push_all(w, raw.as_slice());
                Ok(())
            },
            None => encode_1_20_2_up(self, w, version),
        }
    }
}

// ---------------------------------------------------------------------------
// What a Respawn reads back as
// ---------------------------------------------------------------------------
/// What a 1.20.2+ Respawn without a raw payload reads back as: before
/// 1.20.5 the dimension is sent as `minecraft:overworld` and reads back as
/// 0; before 1.21.2 the sea level reads back as 63; a death location reads
/// back only when both of its parts are set.
pub open spec fn respawn_as_read(p: CRespawnView, version: i32) -> CRespawnView {
    let both = p.death_dimension is Some && p.death_position is Some;
    CRespawnView {
        dimension: if version >= V1_20_5 { p.dimension } else { 0 },
        sea_level: if version >= V1_21_2 { p.sea_level } else { DEFAULT_SEA_LEVEL },
        death_dimension: if both { p.death_dimension } else { None },
        death_position: if both { p.death_position } else { None },
        raw_payload: None,
        ..p
    }
}

/// Regrouping the parts of a Respawn, then what follows it.
proof fn lemma_respawn_layout(
    d: Seq<u8>,
    ln: Seq<u8>,
    a: Seq<u8>,
    b: Seq<u8>,
    c: Seq<u8>,
    e: Seq<u8>,
    f: Seq<u8>,
    death: Seq<u8>,
    world: Seq<u8>,
    keep: Seq<u8>,
    rest: Seq<u8>,
)
    ensures
        d + ln + (a + b + c + e + f) + death + world + keep + rest == d + (ln + (a + (b + (c + (e + (f
            + (death + (world + (keep + rest))))))))),
{
    assert(d + ln + (a + b + c + e + f) + death + world + keep + rest =~= d + (ln + (a + (b + (c + (e
        + (f + (death + (world + (keep + rest))))))))));
}

/// A 1.20.2+ Respawn without a raw payload, whose strings fit the protocol
/// limit, reads back as [`respawn_as_read`] gives it, with what follows
/// untouched.
#[verifier::spinoff_prover]
#[verifier::rlimit(60)]
pub proof fn law_respawn_round_trip(p: CRespawnView, version: i32, rest: Seq<u8>)
    requires
        version >= V1_20_2,
        p.raw_payload is None,
        p.level_name.len() <= MAX_STRING_CHARS,
        p.death_dimension matches Some(d) ==> d.len() <= MAX_STRING_CHARS,
    ensures
        CRespawn::encoding(p, version) is Ok,
        CRespawn::parse(CRespawn::encoding(p, version).unwrap() + rest, version) == Ok::<
            (CRespawnView, Seq<u8>),
            ErrorClass,
        >((respawn_as_read(p, version), rest)),
{
    reveal_strlit("minecraft:overworld");
    lemma_string_round_trip("minecraft:overworld"@, seq![], MAX_STRING_CHARS as nat, eof());
    lemma_string_round_trip(p.level_name, seq![], MAX_STRING_CHARS as nat, eof());
    lemma_death_location_round_trip(p.death_dimension, p.death_position, seq![]);
    let d = if version >= V1_20_5 {
        varint_bytes(p.dimension)
    } else {
        string_bytes("minecraft:overworld"@).unwrap()
    };
    let ln = string_bytes(p.level_name).unwrap();
    let death = death_location_bytes(p.death_dimension, p.death_position).unwrap();
    let world = world_info_bytes(p.portal_cooldown, p.sea_level, version);
    let r10 = seq![p.data_to_keep] + rest;
    let r9 = world + r10;
    let r8 = death + r9;
    let r7 = bool_bytes(p.is_flat) + r8;
    let r6 = bool_bytes(p.is_debug) + r7;
    let r5 = i8_bytes(p.previous_gamemode) + r6;
    let r4 = seq![p.gamemode] + r5;
    let r3 = i64_bytes(p.hashed_seed) + r4;
    let r2 = ln + r3;
    let all = respawn_modern_bytes(p, version).unwrap();
    assert(all == d + ln + respawn_middle_bytes(p) + death + world + seq![p.data_to_keep]);
    lemma_respawn_layout(
        d,
        ln,
        i64_bytes(p.hashed_seed),
        seq![p.gamemode],
        i8_bytes(p.previous_gamemode),
        bool_bytes(p.is_debug),
        bool_bytes(p.is_flat),
        death,
        world,
        seq![p.data_to_keep],
        rest,
    );
    assert(all + rest == d + r2);
    if version >= V1_20_5 {
        lemma_varint_round_trip(p.dimension, r2, eof());
    } else {
        lemma_string_round_trip("minecraft:overworld"@, r2, MAX_STRING_CHARS as nat, eof());
    }
    lemma_string_round_trip(p.level_name, r3, MAX_STRING_CHARS as nat, eof());
    lemma_p_signed_round_trips(0, 0, 0, p.hashed_seed, r4, eof());
    lemma_p_byte_round_trips(p.gamemode, false, r5, eof());
    lemma_p_signed_round_trips(p.previous_gamemode, 0, 0, 0, r6, eof());
    lemma_p_byte_round_trips(0, p.is_debug, r7, eof());
    lemma_p_byte_round_trips(0, p.is_flat, r8, eof());
    lemma_death_location_round_trip(p.death_dimension, p.death_position, r9);
    lemma_world_info_round_trip(p.portal_cooldown, p.sea_level, version, r10);
    lemma_p_byte_round_trips(p.data_to_keep, false, rest, eof());
    reveal(p_respawn_modern);
}

} // verus!
