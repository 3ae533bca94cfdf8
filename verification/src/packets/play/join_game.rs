//! The JoinGame packet.

use vstd::prelude::*;

use super::common::{
    death_location_bytes, decode_death_location, decode_world_info, encode_death_location,
    encode_world_info, lemma_death_location_round_trip, lemma_world_info_round_trip,
    opt_string_view, p_death_location, p_world_info, world_info_bytes,
    DEFAULT_SEA_LEVEL,
};
use crate::codec::raw::{push_all, read_bool, read_u32, read_u64, read_u8, write_u32, write_u64};
use crate::codec::spec::{
    bool_bytes, i32_bytes, i64_bytes, i8_bytes, lemma_p_byte_round_trips,
    lemma_p_signed_round_trips, lemma_string_round_trip, lemma_varint_round_trip, p_bool, p_i32,
    p_i64, p_i8, p_string, p_u8, p_varint, string_bytes, varint_bytes, SpecParse,
    MAX_STRING_CHARS,
};
use crate::codec::types::{encode_string, read_remaining, read_string};
use crate::codec::{Encode, VarInt};
use crate::error::{eof, ErrorClass, ProtocolResult};
use crate::packets::Packet;
use crate::version::{ConnectionState, Direction, ProtocolVersion, V1_20_2, V1_20_5, V1_21_2};

use crate::registry::PacketKind;

verus! {

/// JoinGame packet (Clientbound). Before 1.20.2 only the entity ID is
/// decoded and the rest of the payload is kept as raw bytes; from 1.20.2
/// every field is decoded. Encoding writes the raw payload whenever there is one.
#[derive(Debug, Clone)]
pub struct CJoinGame {
    pub entity_id: i32,
    pub is_hardcore: bool,
    pub gamemode: u8,
    pub previous_gamemode: i8,
    pub max_players: i32,
    pub view_distance: i32,
    pub simulation_distance: i32,
    pub reduced_debug_info: bool,
    pub enable_respawn_screen: bool,
    pub do_limited_crafting: bool,
    pub level_names: Vec<String>,
    pub level_name: String,
    pub hashed_seed: i64,
    pub is_debug: bool,
    pub is_flat: bool,
    pub dimension: i32,
    pub portal_cooldown: i32,
    pub sea_level: i32,
    pub enforces_secure_chat: bool,
    pub death_dimension: Option<String>,
    pub death_position: Option<i64>,
    pub raw_payload: Option<Vec<u8>>,
}

pub struct CJoinGameView {
    pub entity_id: i32,
    pub is_hardcore: bool,
    pub gamemode: u8,
    pub previous_gamemode: i8,
    pub max_players: i32,
    pub view_distance: i32,
    pub simulation_distance: i32,
    pub reduced_debug_info: bool,
    pub enable_respawn_screen: bool,
    pub do_limited_crafting: bool,
    pub level_names: Seq<Seq<char>>,
    pub level_name: Seq<char>,
    pub hashed_seed: i64,
    pub is_debug: bool,
    pub is_flat: bool,
    pub dimension: i32,
    pub portal_cooldown: i32,
    pub sea_level: i32,
    pub enforces_secure_chat: bool,
    pub death_dimension: Option<Seq<char>>,
    pub death_position: Option<i64>,
    pub raw_payload: Option<Seq<u8>>,
}

impl View for CJoinGame {
    type V = CJoinGameView;

    open spec fn view(&self) -> CJoinGameView {
        CJoinGameView {
            entity_id: self.entity_id,
            is_hardcore: self.is_hardcore,
            gamemode: self.gamemode,
            previous_gamemode: self.previous_gamemode,
            max_players: self.max_players,
            view_distance: self.view_distance,
            simulation_distance: self.simulation_distance,
            reduced_debug_info: self.reduced_debug_info,
            enable_respawn_screen: self.enable_respawn_screen,
            do_limited_crafting: self.do_limited_crafting,
            level_names: self.level_names@.map_values(|s: String| s@),
            level_name: self.level_name@,
            hashed_seed: self.hashed_seed,
            is_debug: self.is_debug,
            is_flat: self.is_flat,
            dimension: self.dimension,
            portal_cooldown: self.portal_cooldown,
            sea_level: self.sea_level,
            enforces_secure_chat: self.enforces_secure_chat,
            death_dimension: opt_string_view(self.death_dimension),
            death_position: self.death_position,
            raw_payload: match self.raw_payload {
                Some(r) => Some(r@),
                None => None,
            },
        }
    }
}

/// The defaults of a JoinGame packet: survival, no previous game mode,
/// 20 players, view and simulation distance 10, respawn screen on, sea
/// level 63, everything else zero, false or empty.
pub open spec fn default_join_game(entity_id: i32, raw_payload: Option<Seq<u8>>) -> CJoinGameView {
    CJoinGameView {
        entity_id,
        is_hardcore: false,
        gamemode: 0,
        previous_gamemode: -1i8,
        max_players: 20,
        view_distance: 10,
        simulation_distance: 10,
        reduced_debug_info: false,
        enable_respawn_screen: true,
        do_limited_crafting: false,
        level_names: seq![],
        level_name: seq![],
        hashed_seed: 0,
        is_debug: false,
        is_flat: false,
        dimension: 0,
        portal_cooldown: 0,
        sea_level: DEFAULT_SEA_LEVEL,
        enforces_secure_chat: false,
        death_dimension: None,
        death_position: None,
        raw_payload,
    }
}

impl Default for CJoinGame {
    fn default() -> (j: CJoinGame)
        ensures
            j@ == default_join_game(0, None),
    {
        let j = CJoinGame {
            entity_id: 0,
            is_hardcore: false,
            gamemode: 0,
            previous_gamemode: -1,
            max_players: 20,
            view_distance: 10,
            simulation_distance: 10,
            reduced_debug_info: false,
            enable_respawn_screen: true,
            do_limited_crafting: false,
            level_names: Vec::new(),
            level_name: String::new(),
            hashed_seed: 0,
            is_debug: false,
            is_flat: false,
            dimension: 0,
            portal_cooldown: 0,
            sea_level: DEFAULT_SEA_LEVEL,
            enforces_secure_chat: false,
            death_dimension: None,
            death_position: None,
            raw_payload: None,
        };
        assert(j.level_names@.map_values(|s: String| s@) =~= seq![]);
        j
    }
}

/// `n` strings.
pub open spec fn p_strings(s: Seq<u8>, n: nat) -> SpecParse<Seq<Seq<char>>>
    decreases n,
{
    if n == 0 {
        Ok((seq![], s))
    } else {
        match p_string(s, MAX_STRING_CHARS as nat, eof()) {
            Err(e) => Err(e),
            Ok((t, r1)) => match p_strings(r1, (n - 1) as nat) {
                Err(e) => Err(e),
                Ok((ts, r2)) => Ok((seq![t] + ts, r2)),
            },
        }
    }
}

/// The bytes of a sequence of strings; the first that fails decides.
pub open spec fn strings_bytes(ts: Seq<Seq<char>>) -> Result<Seq<u8>, ErrorClass>
    decreases ts.len(),
{
    if ts.len() == 0 {
        Ok(seq![])
    } else {
        match strings_bytes(ts.drop_last()) {
            Err(e) => Err(e),
            Ok(a) => match string_bytes(ts.last()) {
                Err(e) => Err(e),
                Ok(b) => Ok(a + b),
            },
        }
    }
}

proof fn lemma_strings_bytes_prefix_err(ts: Seq<Seq<char>>, k: int)
    requires
        0 <= k <= ts.len(),
        strings_bytes(ts.take(k)) is Err,
    ensures
        strings_bytes(ts) == strings_bytes(ts.take(k)),
    decreases ts.len() - k,
{
    if k < ts.len() {
        let m = ts.drop_last();
        assert(m.take(k) =~= ts.take(k));
        lemma_strings_bytes_prefix_err(m, k);
    } else {
        assert(ts.take(k) =~= ts);
    }
}

/// Reads `count` strings.
pub fn read_strings(r: &mut &[u8], count: usize) -> (res: ProtocolResult<Vec<String>>)
    ensures
        match p_strings(old(r)@, count as nat) {
            Ok((ts, rest)) => res matches Ok(v) && v@.map_values(|s: String| s@) == ts && final(r)@
                == rest,
            Err(c) => res matches Err(e) && e.class() == c,
        },
{
    let ghost s0 = r@;
    let ghost mut acc: Seq<Seq<char>> = seq![];
    let mut out: Vec<String> = Vec::new();
    let mut i: usize = 0;
    while i < count
        invariant
            i <= count,
            s0 == old(r)@,
            acc.len() == out@.len(),
            forall|k: int| 0 <= k < acc.len() ==> acc[k] == #[trigger] out@[k]@,
            p_strings(s0, count as nat) == match p_strings(r@, (count - i) as nat) {
                Ok((ts, rest)) => Ok((acc + ts, rest)),
                Err(e) => Err(e),
            },
        decreases count - i,
    {
        let t = match read_string(r, MAX_STRING_CHARS, true) {
            Ok(t) => t,
            Err(e) => return Err(e),
        };
        let ghost tv = t@;
        out.push(t);
        i = i + 1;
        proof {
            let prev = acc;
            acc = acc.push(tv);
            match p_strings(r@, (count - i) as nat) {
                Ok((ts, rest)) => {
                    assert(prev + (seq![tv] + ts) =~= acc + ts);
                },
                Err(_) => {},
            }
        }
    }
    assert(out@.map_values(|s: String| s@) =~= acc);
    assert(acc + seq![] =~= acc);
    Ok(out)
}

/// Writes strings one after another.
pub fn write_strings(ts: &Vec<String>, w: &mut Vec<u8>) -> (res: ProtocolResult<()>)
    ensures
        crate::codec::spec::written(strings_bytes(ts@.map_values(|s: String| s@)), res, old(w)@, final(w)@),
{
    let ghost vs = ts@.map_values(|s: String| s@);
    let n = ts.len();
    let mut i: usize = 0;
    while i < n
        invariant
            i <= n,
            n == ts@.len(),
            vs == ts@.map_values(|s: String| s@),
            strings_bytes(vs.take(i as int)) is Ok,
            w@ == old(w)@ + strings_bytes(vs.take(i as int)).unwrap(),
        decreases n - i,
    {
        assert(vs.take(i + 1).drop_last() =~= vs.take(i as int));
        assert(vs[i as int] == ts@[i as int]@);
        match encode_string(ts[i].as_str(), w) {
            Ok(()) => {},
            Err(e) => {
                proof {
                    lemma_strings_bytes_prefix_err(vs, i + 1);
                }
                return Err(e);
            },
        }
        i = i + 1;
    }
    assert(vs.take(n as int) =~= vs);
    Ok(())
}

/// The fields of a 1.20.2+ JoinGame up to the dimension.
pub struct JoinHead {
    pub is_hardcore: bool,
    pub level_names: Seq<Seq<char>>,
    pub max_players: i32,
    pub view_distance: i32,
    pub simulation_distance: i32,
    pub reduced_debug_info: bool,
    pub enable_respawn_screen: bool,
    pub do_limited_crafting: bool,
    pub dimension: i32,
}

/// The fields of a 1.20.2+ JoinGame from the level name on.
pub struct JoinTail {
    pub level_name: Seq<char>,
    pub hashed_seed: i64,
    pub gamemode: u8,
    pub previous_gamemode: i8,
    pub is_debug: bool,
    pub is_flat: bool,
    pub death: (Option<Seq<char>>, Option<i64>),
    pub world: (i32, i32),
    pub enforces_secure_chat: bool,
}

/// The head: hardcore flag, `VarInt`-counted level names (the count taken
/// as a `usize`), three `VarInt`s, three flags, and the dimension: a
/// `VarInt` from 1.21.2, before that a name that is skipped (read as 0).
#[verifier::opaque]
pub open spec fn p_join_head(s: Seq<u8>, version: i32) -> SpecParse<JoinHead> {
    match p_bool(s, eof()) {
        Err(e) => Err(e),
        Ok((hc, r1)) => match p_varint(r1, eof()) {
            Err(e) => Err(e),
            Ok((count, r2)) => match p_strings(r2, (count as usize) as nat) {
                Err(e) => Err(e),
                Ok((names, r3)) => match p_varint(r3, eof()) {
                    Err(e) => Err(e),
                    Ok((maxp, r4)) => match p_varint(r4, eof()) {
                        Err(e) => Err(e),
                        Ok((vd, r5)) => match p_varint(r5, eof()) {
                            Err(e) => Err(e),
                            Ok((sd, r6)) => match p_bool(r6, eof()) {
                                Err(e) => Err(e),
                                Ok((rdi, r7)) => match p_bool(r7, eof()) {
                                    Err(e) => Err(e),
                                    Ok((ers, r8)) => match p_bool(r8, eof()) {
                                        Err(e) => Err(e),
                                        Ok((dlc, r9)) => {
                                            let dim = if version >= V1_21_2 {
                                                p_varint(r9, eof())
                                            } else {
                                                match p_string(r9, MAX_STRING_CHARS as nat, eof()) {
                                                    Err(e) => Err(e),
                                                    Ok((_, r)) => Ok((0i32, r)),
                                                }
                                            };
                                            match dim {
                                                Err(e) => Err(e),
                                                Ok((d, r10)) => Ok(
                                                    (
                                                        JoinHead {
                                                            is_hardcore: hc,
                                                            level_names: names,
                                                            max_players: maxp,
                                                            view_distance: vd,
                                                            simulation_distance: sd,
                                                            reduced_debug_info: rdi,
                                                            enable_respawn_screen: ers,
                                                            do_limited_crafting: dlc,
                                                            dimension: d,
                                                        },
                                                        r10,
                                                    ),
                                                ),
                                            }
                                        },
                                    },
                                },
                            },
                        },
                    },
                },
            },
        },
    }
}

/// The tail: level name, hashed seed, game modes, debug and flat flags,
/// death location, world info, and from 1.20.5 the secure-chat flag.
#[verifier::opaque]
pub open spec fn p_join_tail(s: Seq<u8>, version: i32) -> SpecParse<JoinTail> {
    match p_string(s, MAX_STRING_CHARS as nat, eof()) {
        Err(e) => Err(e),
        Ok((ln, r1)) => match p_i64(r1, eof()) {
            Err(e) => Err(e),
            Ok((seed, r2)) => match p_u8(r2, eof()) {
                Err(e) => Err(e),
                Ok((gm, r3)) => match p_i8(r3, eof()) {
                    Err(e) => Err(e),
                    Ok((pgm, r4)) => match p_bool(r4, eof()) {
                        Err(e) => Err(e),
                        Ok((dbg, r5)) => match p_bool(r5, eof()) {
                            Err(e) => Err(e),
                            Ok((flat, r6)) => match p_death_location(r6) {
                                Err(e) => Err(e),
                                Ok((death, r7)) => match p_world_info(r7, version) {
                                    Err(e) => Err(e),
                                    Ok((world, r8)) => {
                                        let sc = if version >= V1_20_5 {
                                            p_bool(r8, eof())
                                        } else {
                                            Ok((false, r8))
                                        };
                                        match sc {
                                            Err(e) => Err(e),
                                            Ok((secure, r9)) => Ok(
                                                (
                                                    JoinTail {
                                                        level_name: ln,
                                                        hashed_seed: seed,
                                                        gamemode: gm,
                                                        previous_gamemode: pgm,
                                                        is_debug: dbg,
                                                        is_flat: flat,
                                                        death,
                                                        world,
                                                        enforces_secure_chat: secure,
                                                    },
                                                    r9,
                                                ),
                                            ),
                                        }
                                    },
                                },
                            },
                        },
                    },
                },
            },
        },
    }
}

pub open spec fn join_view(entity_id: i32, h: JoinHead, t: JoinTail) -> CJoinGameView {
    CJoinGameView {
        entity_id,
        is_hardcore: h.is_hardcore,
        gamemode: t.gamemode,
        previous_gamemode: t.previous_gamemode,
        max_players: h.max_players,
        view_distance: h.view_distance,
        simulation_distance: h.simulation_distance,
        reduced_debug_info: h.reduced_debug_info,
        enable_respawn_screen: h.enable_respawn_screen,
        do_limited_crafting: h.do_limited_crafting,
        level_names: h.level_names,
        level_name: t.level_name,
        hashed_seed: t.hashed_seed,
        is_debug: t.is_debug,
        is_flat: t.is_flat,
        dimension: h.dimension,
        portal_cooldown: t.world.0,
        sea_level: t.world.1,
        enforces_secure_chat: t.enforces_secure_chat,
        death_dimension: t.death.0,
        death_position: t.death.1,
        raw_payload: None,
    }
}

/// The bytes of the head of a 1.20.2+ JoinGame. Before 1.21.2 the
/// dimension is written as the level name.
pub open spec fn join_head_bytes(p: CJoinGameView, version: i32) -> Result<Seq<u8>, ErrorClass> {
    match strings_bytes(p.level_names) {
        Err(e) => Err(e),
        Ok(names) => {
            let dim = if version >= V1_21_2 {
                Ok(varint_bytes(p.dimension))
            } else {
                string_bytes(p.level_name)
            };
            match dim {
                Err(e) => Err(e),
                Ok(d) => Ok(
                    bool_bytes(p.is_hardcore) + varint_bytes(p.level_names.len() as i32) + names
                        + join_settings_bytes(p, d),
                ),
            }
        },
    }
}

/// The bytes of the settings of a JoinGame head, then its dimension bytes `d`.
pub open spec fn join_settings_bytes(p: CJoinGameView, d: Seq<u8>) -> Seq<u8> {
    settings_bytes(p.max_players, p.view_distance, p.simulation_distance, p.reduced_debug_info, p.enable_respawn_screen, p.do_limited_crafting) + d
}

pub open spec fn settings_bytes(a: i32, b: i32, c: i32, x: bool, y: bool, z: bool) -> Seq<u8> {
    varint_bytes(a) + varint_bytes(b) + varint_bytes(c) + bool_bytes(x) + bool_bytes(y) + bool_bytes(z)
}

fn encode_settings(w: &mut Vec<u8>, a: i32, b: i32, c: i32, x: bool, y: bool, z: bool)
    ensures
        final(w)@ == old(w)@ + settings_bytes(a, b, c, x, y, z),
{
    VarInt(a).encode(w);
    VarInt(b).encode(w);
    VarInt(c).encode(w);
    x.encode(w);
    y.encode(w);
    z.encode(w);
    assert(w@ =~= old(w)@ + settings_bytes(a, b, c, x, y, z));
}

/// The bytes of the tail of a 1.20.2+ JoinGame.
pub open spec fn join_tail_bytes(p: CJoinGameView, version: i32) -> Result<Seq<u8>, ErrorClass> {
    match string_bytes(p.level_name) {
        Err(e) => Err(e),
        Ok(ln) => match death_location_bytes(p.death_dimension, p.death_position) {
            Err(e) => Err(e),
            Ok(death) => Ok(
                ln + i64_bytes(p.hashed_seed) + seq![p.gamemode] + i8_bytes(p.previous_gamemode)
                    + bool_bytes(p.is_debug) + bool_bytes(p.is_flat) + death + world_info_bytes(
                    p.portal_cooldown,
                    p.sea_level,
                    version,
                ) + (if version >= V1_20_5 {
                    bool_bytes(p.enforces_secure_chat)
                } else {
                    seq![]
                }),
            ),
        },
    }
}

/// The bytes of a 1.20.2+ JoinGame after the entity ID.
pub open spec fn join_modern_bytes(p: CJoinGameView, version: i32) -> Result<Seq<u8>, ErrorClass> {
    match join_head_bytes(p, version) {
        Err(e) => Err(e),
        Ok(a) => match join_tail_bytes(p, version) {
            Err(e) => Err(e),
            Ok(b) => Ok(a + b),
        },
    }
}

pub open spec fn with_head(v: CJoinGameView, h: JoinHead) -> CJoinGameView {
    CJoinGameView {
        is_hardcore: h.is_hardcore,
        max_players: h.max_players,
        view_distance: h.view_distance,
        simulation_distance: h.simulation_distance,
        reduced_debug_info: h.reduced_debug_info,
        enable_respawn_screen: h.enable_respawn_screen,
        do_limited_crafting: h.do_limited_crafting,
        level_names: h.level_names,
        dimension: h.dimension,
        ..v
    }
}

pub open spec fn with_tail(v: CJoinGameView, t: JoinTail) -> CJoinGameView {
    CJoinGameView {
        gamemode: t.gamemode,
        previous_gamemode: t.previous_gamemode,
        level_name: t.level_name,
        hashed_seed: t.hashed_seed,
        is_debug: t.is_debug,
        is_flat: t.is_flat,
        portal_cooldown: t.world.0,
        sea_level: t.world.1,
        enforces_secure_chat: t.enforces_secure_chat,
        death_dimension: t.death.0,
        death_position: t.death.1,
        ..v
    }
}

fn decode_join_head(r: &mut &[u8], version: ProtocolVersion, j: &mut CJoinGame) -> (res: ProtocolResult<()>)
    ensures
        match p_join_head(old(r)@, version.0) {
            Err(c) => res matches Err(e) && e.class() == c,
            Ok((h, rest)) => res is Ok && final(j)@ == with_head(old(j)@, h) && final(r)@ == rest,
        },
{
    proof {
        reveal(p_join_head);
    }
    let is_hardcore = match read_bool(r, true) {
        Ok(b) => b,
        Err(e) => return Err(e),
    };
    let level_count = match VarInt::read(r, true) {
        Ok(v) => v.0 as usize,
        Err(e) => return Err(e),
    };
    let level_names = match read_strings(r, level_count) {
        Ok(v) => v,
        Err(e) => return Err(e),
    };
    let max_players = match VarInt::read(r, true) {
        Ok(v) => v.0,
        Err(e) => return Err(e),
    };
    let view_distance = match VarInt::read(r, true) {
        Ok(v) => v.0,
        Err(e) => return Err(e),
    };
    let simulation_distance = match VarInt::read(r, true) {
        Ok(v) => v.0,
        Err(e) => return Err(e),
    };
    let reduced_debug_info = match read_bool(r, true) {
        Ok(b) => b,
        Err(e) => return Err(e),
    };
    let enable_respawn_screen = match read_bool(r, true) {
        Ok(b) => b,
        Err(e) => return Err(e),
    };
    let do_limited_crafting = match read_bool(r, true) {
        Ok(b) => b,
        Err(e) => return Err(e),
    };
    let dimension = if version.no_less_than(ProtocolVersion(V1_21_2)) {
        match VarInt::read(r, true) {
            Ok(v) => v.0,
            Err(e) => return Err(e),
        }
    } else {
        match read_string(r, MAX_STRING_CHARS, true) {
            Ok(_) => 0,
            Err(e) => return Err(e),
        }
    };
    j.is_hardcore = is_hardcore;
    j.level_names = level_names;
    j.max_players = max_players;
    j.view_distance = view_distance;
    j.simulation_distance = simulation_distance;
    j.reduced_debug_info = reduced_debug_info;
    j.enable_respawn_screen = enable_respawn_screen;
    j.do_limited_crafting = do_limited_crafting;
    j.dimension = dimension;
    Ok(())
}

fn decode_join_tail(r: &mut &[u8], version: ProtocolVersion, j: &mut CJoinGame) -> (res: ProtocolResult<()>)
    ensures
        match p_join_tail(old(r)@, version.0) {
            Err(c) => res matches Err(e) && e.class() == c,
            Ok((t, rest)) => res is Ok && final(j)@ == with_tail(old(j)@, t) && final(r)@ == rest,
        },
{
    proof {
        reveal(p_join_tail);
    }
    let level_name = match read_string(r, MAX_STRING_CHARS, true) {
        Ok(s) => s,
        Err(e) => return Err(e),
    };
    let hashed_seed = match read_u64(r, true, "i64") {
        Ok(v) => v as i64,
        Err(e) => return Err(e),
    };
    let gamemode = match read_u8(r, true, "u8") {
        Ok(v) => v,
        Err(e) => return Err(e),
    };
    let previous_gamemode = match read_u8(r, true, "i8") {
        Ok(v) => v as i8,
        Err(e) => return Err(e),
    };
    let is_debug = match read_bool(r, true) {
        Ok(b) => b,
        Err(e) => return Err(e),
    };
    let is_flat = match read_bool(r, true) {
        Ok(b) => b,
        Err(e) => return Err(e),
    };
    let (death_dimension, death_position) = match decode_death_location(r) {
        Ok(d) => d,
        Err(e) => return Err(e),
    };
    let (portal_cooldown, sea_level) = match decode_world_info(r, version) {
        Ok(w) => w,
        Err(e) => return Err(e),
    };
    let enforces_secure_chat = if version.no_less_than(ProtocolVersion(V1_20_5)) {
        match read_bool(r, true) {
            Ok(b) => b,
            Err(e) => return Err(e),
        }
    } else {
        false
    };
    j.level_name = level_name;
    j.hashed_seed = hashed_seed;
    j.gamemode = gamemode;
    j.previous_gamemode = previous_gamemode;
    j.is_debug = is_debug;
    j.is_flat = is_flat;
    j.death_dimension = death_dimension;
    j.death_position = death_position;
    j.portal_cooldown = portal_cooldown;
    j.sea_level = sea_level;
    j.enforces_secure_chat = enforces_secure_chat;
    Ok(())
}

fn decode_1_20_2_up(r: &mut &[u8], entity_id: i32, version: ProtocolVersion) -> (res: ProtocolResult<CJoinGame>)
    ensures
        match p_join_head(old(r)@, version.0) {
            Err(c) => res matches Err(e) && e.class() == c,
            Ok((h, r1)) => match p_join_tail(r1, version.0) {
                Err(c) => res matches Err(e) && e.class() == c,
                Ok((t, r2)) => res matches Ok(j) && j@ == join_view(entity_id, h, t) && final(r)@ == r2,
            },
        },
{
    let mut j = CJoinGame::default();
    j.entity_id = entity_id;
    match decode_join_head(r, version, &mut j) {
        Ok(()) => {},
        Err(e) => return Err(e),
    }
    match decode_join_tail(r, version, &mut j) {
        Ok(()) => {},
        Err(e) => return Err(e),
    }
    Ok(j)
}

#[verifier::rlimit(60)]
fn encode_join_head(pkt: &CJoinGame, w: &mut Vec<u8>, version: ProtocolVersion) -> (res: ProtocolResult<()>)
    ensures
        crate::codec::spec::written(join_head_bytes(pkt@, version.0), res, old(w)@, final(w)@),
{
    let ghost pv = pkt@;
    pkt.is_hardcore.encode(w);
    VarInt(pkt.level_names.len() as i32).encode(w);
    let ghost a = w@;
    match write_strings(&pkt.level_names, w) {
        Ok(()) => {},
        Err(e) => return Err(e),
    }
    let ghost b = w@;
    let ghost names = strings_bytes(pv.level_names).unwrap();
    assert(b =~= old(w)@ + (bool_bytes(pv.is_hardcore) + varint_bytes(pv.level_names.len() as i32) + names));
    encode_settings(
        w,
        pkt.max_players,
        pkt.view_distance,
        pkt.simulation_distance,
        pkt.reduced_debug_info,
        pkt.enable_respawn_screen,
        pkt.do_limited_crafting,
    );
    let ghost c = w@;
    if version.no_less_than(ProtocolVersion(V1_21_2)) {
        VarInt(pkt.dimension).encode(w);
    } else {
        match encode_string(pkt.level_name.as_str(), w) {
            Ok(()) => {},
            Err(e) => return Err(e),
        }
    }
    let ghost d = w@.skip(c.len() as int);
    assert(w@ =~= c + d);
    assert(w@ =~= b + join_settings_bytes(pv, d));
    assert(w@ =~= old(w)@ + join_head_bytes(pv, version.0).unwrap());
    Ok(())
}

#[verifier::rlimit(60)]
fn encode_join_tail(pkt: &CJoinGame, w: &mut Vec<u8>, version: ProtocolVersion) -> (res: ProtocolResult<()>)
    ensures
        crate::codec::spec::written(join_tail_bytes(pkt@, version.0), res, old(w)@, final(w)@),
{
    match encode_string(pkt.level_name.as_str(), w) {
        Ok(()) => {},
        Err(e) => return Err(e),
    }
    write_u64(w, pkt.hashed_seed as u64);
    w.push(pkt.gamemode);
    w.push(pkt.previous_gamemode as u8);
    pkt.is_debug.encode(w);
    pkt.is_flat.encode(w);
    let ghost e0 = w@;
    let dd = match &pkt.death_dimension {
        Some(s) => Some(s.as_str()),
        None => None,
    };
    match encode_death_location(w, dd, pkt.death_position) {
        Ok(()) => {},
        Err(e) => return Err(e),
    }
    let ghost f = w@;
    encode_world_info(w, pkt.portal_cooldown, pkt.sea_level, version);
    if version.no_less_than(ProtocolVersion(V1_20_5)) {
        pkt.enforces_secure_chat.encode(w);
    }
    assert(w@ =~= old(w)@ + join_tail_bytes(pkt@, version.0).unwrap());
    Ok(())
}

impl Packet for CJoinGame {
    open spec fn packet_state() -> ConnectionState {
        ConnectionState::Play
    }

    open spec fn packet_direction() -> Direction {
        Direction::Clientbound
    }

    open spec fn parse(s: Seq<u8>, version: i32) -> SpecParse<CJoinGameView> {
        match p_i32(s, eof()) {
            Err(e) => Err(e),
            Ok((eid, r1)) => if version < V1_20_2 {
                Ok((default_join_game(eid, Some(r1)), seq![]))
            } else {
                match p_join_head(r1, version) {
                    Err(e) => Err(e),
                    Ok((h, r2)) => match p_join_tail(r2, version) {
                        Err(e) => Err(e),
                        Ok((t, r3)) => Ok((join_view(eid, h, t), r3)),
                    },
                }
            },
        }
    }

    open spec fn encoding(p: CJoinGameView, version: i32) -> Result<Seq<u8>, ErrorClass> {
        match p.raw_payload {
            Some(raw) => Ok(i32_bytes(p.entity_id) + raw),
            None => match join_modern_bytes(p, version) {
                Err(e) => Err(e),
                Ok(b) => Ok(i32_bytes(p.entity_id) + b),
            },
        }
    }

    open spec fn name_text() -> Seq<char> {
        "CJoinGame"@
    }

    fn name() -> (s: &'static str) {
        "CJoinGame"
    }

    open spec fn packet_kind() -> PacketKind {
        PacketKind::CJoinGame
    }

    fn kind() -> (k: PacketKind) {
        PacketKind::CJoinGame
    }

    fn state() -> (s: ConnectionState) {
        ConnectionState::Play
    }

    fn direction() -> (d: Direction) {
        Direction::Clientbound
    }

    fn decode(r: &mut &[u8], version: ProtocolVersion) -> (res: ProtocolResult<CJoinGame>) {
        let entity_id = match read_u32(r, true, "i32") {
            Ok(v) => v as i32,
            Err(e) => return Err(e),
        };
        if version.less_than(ProtocolVersion(V1_20_2)) {
            let raw = read_remaining(r);
            let mut j = CJoinGame::default();
            j.entity_id = entity_id;
            j.raw_payload = Some(raw);
            Ok(j)
        } else {
            decode_1_20_2_up(r, entity_id, version)
        }
    }

    fn encode(&self, w: &mut Vec<u8>, version: ProtocolVersion) -> (res: ProtocolResult<()>) {
        write_u32(w, self.entity_id as u32);
        match &self.raw_payload {
            Some(raw) => {
                push_all(w, raw.as_slice());
                assert(w@ =~= old(w)@ + (i32_bytes(self.entity_id) + raw@));
                return Ok(());
            },
            None => {},
        }
        let ghost mid = w@;
        match encode_join_head(self, w, version) {
            Ok(()) => {},
            Err(e) => return Err(e),
        }
        let ghost mid2 = w@;
        match encode_join_tail(self, w, version) {
            Ok(()) => {},
            Err(e) => return Err(e),
        }
        assert(w@ =~= old(w)@ + Self::encoding(self@, version.0).unwrap());
        Ok(())
    }
}

// ---------------------------------------------------------------------------
// What a JoinGame reads back as
// ---------------------------------------------------------------------------
/// Every string of `ts` fits the protocol limit.
pub open spec fn strings_fit(ts: Seq<Seq<char>>) -> bool {
    forall|i: int| 0 <= i < ts.len() ==> (#[trigger] ts[i]).len() <= MAX_STRING_CHARS
}

/// Strings that fit are written front to back.
proof fn lemma_strings_bytes_front(ts: Seq<Seq<char>>)
    requires
        strings_fit(ts),
    ensures
        strings_bytes(ts) is Ok,
        ts.len() > 0 ==> strings_bytes(ts).unwrap() == string_bytes(ts[0]).unwrap() + strings_bytes(
            ts.drop_first(),
        ).unwrap(),
    decreases ts.len(),
{
    if ts.len() > 0 {
        let m = ts.drop_last();
        assert(strings_fit(m)) by {
            assert forall|i: int| 0 <= i < m.len() implies (#[trigger] m[i]).len() <= MAX_STRING_CHARS by {
                assert(m[i] == ts[i]);
            }
        }
        assert(ts.last() == ts[ts.len() - 1]);
        lemma_strings_bytes_front(m);
        if ts.len() == 1 {
            assert(m =~= seq![]);
            assert(ts.drop_first() =~= seq![]);
            assert(seq![] + string_bytes(ts.last()).unwrap() =~= string_bytes(ts[0]).unwrap());
            assert(string_bytes(ts[0]).unwrap() + seq![] =~= string_bytes(ts[0]).unwrap());
        } else {
            let t = ts.drop_first();
            assert(strings_fit(t)) by {
                assert forall|i: int| 0 <= i < t.len() implies (#[trigger] t[i]).len() <= MAX_STRING_CHARS by {
                    assert(t[i] == ts[i + 1]);
                }
            }
            lemma_strings_bytes_front(t);
            assert(t.drop_last() =~= m.drop_first());
            assert(t.last() == ts.last());
            assert(m[0] == ts[0]);
            let a = string_bytes(ts[0]).unwrap();
            let b = strings_bytes(m.drop_first()).unwrap();
            let c = string_bytes(ts.last()).unwrap();
            assert(a + b + c =~= a + (b + c));
        }
    }
}

/// Strings that fit read back as written.
pub proof fn lemma_strings_round_trip(ts: Seq<Seq<char>>, rest: Seq<u8>)
    requires
        strings_fit(ts),
    ensures
        strings_bytes(ts) is Ok,
        p_strings(strings_bytes(ts).unwrap() + rest, ts.len()) == Ok::<(Seq<Seq<char>>, Seq<u8>), ErrorClass>(
            (ts, rest),
        ),
    decreases ts.len(),
{
    lemma_strings_bytes_front(ts);
    if ts.len() == 0 {
        assert(seq![] + rest =~= rest);
        assert(ts =~= seq![]);
    } else {
        let t = ts.drop_first();
        assert(strings_fit(t)) by {
            assert forall|i: int| 0 <= i < t.len() implies (#[trigger] t[i]).len() <= MAX_STRING_CHARS by {
                assert(t[i] == ts[i + 1]);
            }
        }
        lemma_strings_round_trip(t, rest);
        let a = string_bytes(ts[0]).unwrap();
        let b = strings_bytes(t).unwrap();
        assert(a + b + rest =~= a + (b + rest));
        lemma_string_round_trip(ts[0], b + rest, MAX_STRING_CHARS as nat, eof());
        assert(t.len() == (ts.len() - 1) as nat);
        assert(p_strings(a + (b + rest), ts.len()) == Ok::<(Seq<Seq<char>>, Seq<u8>), ErrorClass>(
            (seq![ts[0]] + t, rest),
        ));
        assert(seq![ts[0]] + t =~= ts);
    }
}

/// What a 1.20.2+ JoinGame without a raw payload reads back as: before
/// 1.21.2 the dimension is sent as the level name and reads back as 0 and
/// the sea level as 63; before 1.20.5 the secure-chat flag reads back as
/// false; a death location reads back only when both of its parts are set.
pub open spec fn join_game_as_read(p: CJoinGameView, version: i32) -> CJoinGameView {
    let both = p.death_dimension is Some && p.death_position is Some;
    CJoinGameView {
        dimension: if version >= V1_21_2 { p.dimension } else { 0 },
        sea_level: if version >= V1_21_2 { p.sea_level } else { DEFAULT_SEA_LEVEL },
        enforces_secure_chat: version >= V1_20_5 && p.enforces_secure_chat,
        death_dimension: if both { p.death_dimension } else { None },
        death_position: if both { p.death_position } else { None },
        raw_payload: None,
        ..p
    }
}

/// The strings of a JoinGame fit the protocol limit, and its level names
/// can be counted in a `VarInt`.
pub open spec fn join_game_fits(p: CJoinGameView) -> bool {
    &&& strings_fit(p.level_names)
    &&& p.level_names.len() <= i32::MAX
    &&& p.level_name.len() <= MAX_STRING_CHARS
    &&& (p.death_dimension matches Some(d) ==> d.len() <= MAX_STRING_CHARS)
}

/// Regrouping the ten parts of a JoinGame head, then what follows it.
proof fn lemma_head_layout(
    a: Seq<u8>,
    b: Seq<u8>,
    c: Seq<u8>,
    d: Seq<u8>,
    e: Seq<u8>,
    f: Seq<u8>,
    g: Seq<u8>,
    h: Seq<u8>,
    i: Seq<u8>,
    j: Seq<u8>,
    rest: Seq<u8>,
)
    ensures
        a + b + c + (d + e + f + g + h + i + j) + rest == a + (b + (c + (d + (e + (f + (g + (h + (i
            + (j + rest))))))))),
{
    assert(a + b + c + (d + e + f + g + h + i + j) + rest =~= a + (b + (c + (d + (e + (f + (g + (h
        + (i + (j + rest))))))))));
}

#[verifier::spinoff_prover]
#[verifier::rlimit(60)]
proof fn lemma_join_head_round_trip(p: CJoinGameView, version: i32, rest: Seq<u8>)
    requires
        join_game_fits(p),
    ensures
        join_head_bytes(p, version) is Ok,
        p_join_head(join_head_bytes(p, version).unwrap() + rest, version) == Ok::<(JoinHead, Seq<u8>), ErrorClass>(
            (
                JoinHead {
                    is_hardcore: p.is_hardcore,
                    level_names: p.level_names,
                    max_players: p.max_players,
                    view_distance: p.view_distance,
                    simulation_distance: p.simulation_distance,
                    reduced_debug_info: p.reduced_debug_info,
                    enable_respawn_screen: p.enable_respawn_screen,
                    do_limited_crafting: p.do_limited_crafting,
                    dimension: if version >= V1_21_2 { p.dimension } else { 0 },
                },
                rest,
            ),
        ),
{
    let n = p.level_names.len() as i32;
    lemma_strings_bytes_front(p.level_names);
    let names = strings_bytes(p.level_names).unwrap();
    lemma_string_round_trip(p.level_name, rest, MAX_STRING_CHARS as nat, eof());
    let d = if version >= V1_21_2 {
        varint_bytes(p.dimension)
    } else {
        string_bytes(p.level_name).unwrap()
    };
    if version >= V1_21_2 {
        lemma_varint_round_trip(p.dimension, rest, eof());
    }
    let r9 = d + rest;
    let r8 = bool_bytes(p.do_limited_crafting) + r9;
    let r7 = bool_bytes(p.enable_respawn_screen) + r8;
    let r6 = bool_bytes(p.reduced_debug_info) + r7;
    let r5 = varint_bytes(p.simulation_distance) + r6;
    let r4 = varint_bytes(p.view_distance) + r5;
    let r3 = varint_bytes(p.max_players) + r4;
    let r2 = names + r3;
    let r1 = varint_bytes(n) + r2;
    let x0 = join_head_bytes(p, version).unwrap();
    assert(x0 == bool_bytes(p.is_hardcore) + varint_bytes(n) + names + (varint_bytes(p.max_players)
        + varint_bytes(p.view_distance) + varint_bytes(p.simulation_distance) + bool_bytes(
        p.reduced_debug_info,
    ) + bool_bytes(p.enable_respawn_screen) + bool_bytes(p.do_limited_crafting) + d));
    lemma_head_layout(
        bool_bytes(p.is_hardcore),
        varint_bytes(n),
        names,
        varint_bytes(p.max_players),
        varint_bytes(p.view_distance),
        varint_bytes(p.simulation_distance),
        bool_bytes(p.reduced_debug_info),
        bool_bytes(p.enable_respawn_screen),
        bool_bytes(p.do_limited_crafting),
        d,
        rest,
    );
    lemma_p_byte_round_trips(0, p.is_hardcore, r1, eof());
    lemma_varint_round_trip(n, r2, eof());
    assert(n as int == p.level_names.len());
    lemma_strings_round_trip(p.level_names, r3);
    lemma_varint_round_trip(p.max_players, r4, eof());
    lemma_varint_round_trip(p.view_distance, r5, eof());
    lemma_varint_round_trip(p.simulation_distance, r6, eof());
    lemma_p_byte_round_trips(0, p.reduced_debug_info, r7, eof());
    lemma_p_byte_round_trips(0, p.enable_respawn_screen, r8, eof());
    lemma_p_byte_round_trips(0, p.do_limited_crafting, r9, eof());
    reveal(p_join_head);
}

#[verifier::spinoff_prover]
#[verifier::rlimit(60)]
proof fn lemma_join_tail_round_trip(p: CJoinGameView, version: i32, rest: Seq<u8>)
    requires
        join_game_fits(p),
    ensures
        join_tail_bytes(p, version) is Ok,
        p_join_tail(join_tail_bytes(p, version).unwrap() + rest, version) == Ok::<(JoinTail, Seq<u8>), ErrorClass>(
            (
                JoinTail {
                    level_name: p.level_name,
                    hashed_seed: p.hashed_seed,
                    gamemode: p.gamemode,
                    previous_gamemode: p.previous_gamemode,
                    is_debug: p.is_debug,
                    is_flat: p.is_flat,
                    death: (
                        join_game_as_read(p, version).death_dimension,
                        join_game_as_read(p, version).death_position,
                    ),
                    world: (p.portal_cooldown, join_game_as_read(p, version).sea_level),
                    enforces_secure_chat: join_game_as_read(p, version).enforces_secure_chat,
                },
                rest,
            ),
        ),
{
    lemma_death_location_round_trip(p.death_dimension, p.death_position, seq![]);
    let death = death_location_bytes(p.death_dimension, p.death_position).unwrap();
    let sc = if version >= V1_20_5 {
        bool_bytes(p.enforces_secure_chat)
    } else {
        seq![]
    };
    let world = world_info_bytes(p.portal_cooldown, p.sea_level, version);
    let r8 = sc + rest;
    let r7 = world + r8;
    let r6 = death + r7;
    let r5 = bool_bytes(p.is_flat) + r6;
    let r4 = bool_bytes(p.is_debug) + r5;
    let r3 = i8_bytes(p.previous_gamemode) + r4;
    let r2 = seq![p.gamemode] + r3;
    let r1 = i64_bytes(p.hashed_seed) + r2;
    lemma_string_round_trip(p.level_name, r1, MAX_STRING_CHARS as nat, eof());
    let ln = string_bytes(p.level_name).unwrap();
    assert(join_tail_bytes(p, version).unwrap() + rest =~= ln + r1);
    lemma_p_signed_round_trips(0, 0, 0, p.hashed_seed, r2, eof());
    lemma_p_byte_round_trips(p.gamemode, false, r3, eof());
    lemma_p_signed_round_trips(p.previous_gamemode, 0, 0, 0, r4, eof());
    lemma_p_byte_round_trips(0, p.is_debug, r5, eof());
    lemma_p_byte_round_trips(0, p.is_flat, r6, eof());
    lemma_death_location_round_trip(p.death_dimension, p.death_position, r7);
    lemma_world_info_round_trip(p.portal_cooldown, p.sea_level, version, r8);
    if version >= V1_20_5 {
        lemma_p_byte_round_trips(0, p.enforces_secure_chat, rest, eof());
    } else {
        assert(r8 =~= rest);
    }
    reveal(p_join_tail);
}

/// A 1.20.2+ JoinGame without a raw payload, whose strings fit, reads
/// back as [`join_game_as_read`] gives it, with what follows untouched.
#[verifier::spinoff_prover]
#[verifier::rlimit(60)]
pub proof fn law_join_game_round_trip(p: CJoinGameView, version: i32, rest: Seq<u8>)
    requires
        version >= V1_20_2,
        p.raw_payload is None,
        join_game_fits(p),
    ensures
        CJoinGame::encoding(p, version) is Ok,
        CJoinGame::parse(CJoinGame::encoding(p, version).unwrap() + rest, version) == Ok::<
            (CJoinGameView, Seq<u8>),
            ErrorClass,
        >((join_game_as_read(p, version), rest)),
{
    lemma_join_tail_round_trip(p, version, rest);
    let tail = join_tail_bytes(p, version).unwrap();
    lemma_join_head_round_trip(p, version, tail + rest);
    let head = join_head_bytes(p, version).unwrap();
    assert(CJoinGame::encoding(p, version).unwrap() + rest =~= i32_bytes(p.entity_id) + (head + (tail
        + rest)));
    assert(head + tail + rest =~= head + (tail + rest));
    lemma_p_signed_round_trips(0, 0, p.entity_id, 0, head + (tail + rest), eof());
}

} // verus!
