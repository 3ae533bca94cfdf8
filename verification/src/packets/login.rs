//! Login-state packets.

use vstd::prelude::*;

use super::{packet_round_trips, Packet};
use crate::codec::raw::{push_all, read_exact, read_u128, read_u16, read_u64, read_u8, write_u128, write_u16, write_u64};
use crate::codec::spec::{
    bool_bytes, byte_array_bytes, i16_bytes, i64_bytes, lemma_byte_array_round_trip,
    lemma_p_byte_round_trips, lemma_p_signed_round_trips, lemma_string_round_trip,
    lemma_p_u128_round_trip, lemma_varint_round_trip, p_bool, p_byte_array_max, p_bytes, p_i16, p_i64, p_string,
    p_u128, p_varint, string_bytes, u128_bytes, u64_bytes, varint_bytes, SpecParse,
    MAX_STRING_CHARS,
};
use crate::codec::uuid_text::{
    parse_uuid, uuid_hyphenated, uuid_hyphenated_text, uuid_text_value, uuid_simple, law_uuid_text_round_trip, uuid_simple_text,
};
use crate::codec::types::{encode_byte_array, encode_string, read_byte_array_max, read_remaining, read_string};
use crate::codec::{Decode, Encode, VarInt};
use crate::error::{eof, ErrorClass, ProtocolError, ProtocolResult};
use crate::version::{
    ConnectionState, Direction, ProtocolVersion, V1_16, V1_19, V1_19_1, V1_19_3, V1_20_2, V1_20_5,
    V1_21, V1_7_6, V1_8,
};

use crate::registry::PacketKind;

verus! {

/// A game profile property (textures, skin data, etc.).
#[derive(Debug, Clone, PartialEq, Eq)]
pub struct Property {
    pub name: String,
    pub value: String,
    pub signature: Option<String>,
}

// ---------------------------------------------------------------------------
// Byte arrays with an `i16` length (before 1.8)
// ---------------------------------------------------------------------------
/// An `i16`-prefixed byte array; a negative length is `Invalid`.
pub open spec fn p_short_array(s: Seq<u8>) -> SpecParse<Seq<u8>> {
    match p_i16(s, eof()) {
        Err(e) => Err(e),
        Ok((n, r)) => if n < 0 {
            Err(ErrorClass::Invalid)
        } else {
            p_bytes(r, n as nat, eof())
        },
    }
}

/// The bytes of an `i16`-prefixed byte array; more than 32767 bytes is `TooLarge`.
pub open spec fn short_array_bytes(b: Seq<u8>) -> Result<Seq<u8>, ErrorClass> {
    if b.len() > i16::MAX {
        Err(ErrorClass::TooLarge)
    } else {
        Ok(i16_bytes(b.len() as i16) + b)
    }
}

fn read_byte_array_short(r: &mut &[u8]) -> (res: ProtocolResult<Vec<u8>>)
    ensures
        crate::codec::spec::parsed(p_short_array(old(r)@), res, final(r)@),
{
    let len = match read_u16(r, true, "i16") {
        Ok(v) => v as i16,
        Err(e) => return Err(e),
    };
    if len < 0 {
        return Err(ProtocolError::invalid("negative byte array length"));
    }
    read_exact(r, len as usize, true, "byte array")
}

fn write_byte_array_short(w: &mut Vec<u8>, data: &[u8]) -> (res: ProtocolResult<()>)
    ensures
        crate::codec::spec::written(short_array_bytes(data@), res, old(w)@, final(w)@),
{
    if data.len() > 32767 {
        return Err(ProtocolError::too_large(32767, data.len()));
    }
    write_u16(w, data.len() as u16);
    push_all(w, data);
    assert(w@ =~= old(w)@ + (i16_bytes(data@.len() as i16) + data@));
    Ok(())
}

proof fn lemma_short_array_round_trip(b: Seq<u8>, rest: Seq<u8>)
    requires
        b.len() <= i16::MAX,
    ensures
        p_short_array(short_array_bytes(b).unwrap() + rest) == Ok::<(Seq<u8>, Seq<u8>), ErrorClass>(
            (b, rest),
        ),
{
    let n = b.len() as i16;
    assert(short_array_bytes(b).unwrap() + rest =~= i16_bytes(n) + (b + rest));
    lemma_p_signed_round_trips(0, n, 0, 0, b + rest, eof());
    assert((b + rest).take(n as int) =~= b);
    assert((b + rest).skip(n as int) =~= rest);
}

// ---------------------------------------------------------------------------
// Encryption request
// ---------------------------------------------------------------------------
/// Encryption request packet (Clientbound, 0x01): the server's RSA public
/// key and a verify token; 1.20.5+ also says whether Mojang authentication
/// is required (before that it always is).
#[derive(Debug, Clone)]
pub struct CEncryptionRequest {
    pub server_id: String,
    pub public_key: Vec<u8>,
    pub verify_token: Vec<u8>,
    pub should_authenticate: bool,
}

pub struct CEncryptionRequestView {
    pub server_id: Seq<char>,
    pub public_key: Seq<u8>,
    pub verify_token: Seq<u8>,
    pub should_authenticate: bool,
}

impl View for CEncryptionRequest {
    type V = CEncryptionRequestView;

    open spec fn view(&self) -> CEncryptionRequestView {
        CEncryptionRequestView {
            server_id: self.server_id@,
            public_key: self.public_key@,
            verify_token: self.verify_token@,
            should_authenticate: self.should_authenticate,
        }
    }
}

/// The two key arrays: `VarInt`-prefixed (at most 256 and 16 bytes) from
/// 1.8, `i16`-prefixed before.
pub open spec fn p_key_pair(s: Seq<u8>, version: i32, max_a: nat, max_b: nat) -> SpecParse<(Seq<u8>, Seq<u8>)> {
    if version >= V1_8 {
        match p_byte_array_max(s, max_a, eof()) {
            Err(e) => Err(e),
            Ok((a, r1)) => match p_byte_array_max(r1, max_b, eof()) {
                Err(e) => Err(e),
                Ok((b, r2)) => Ok(((a, b), r2)),
            },
        }
    } else {
        match p_short_array(s) {
            Err(e) => Err(e),
            Ok((a, r1)) => match p_short_array(r1) {
                Err(e) => Err(e),
                Ok((b, r2)) => Ok(((a, b), r2)),
            },
        }
    }
}

/// The bytes of the two key arrays.
pub open spec fn key_pair_bytes(a: Seq<u8>, b: Seq<u8>, version: i32) -> Result<Seq<u8>, ErrorClass> {
    if version >= V1_8 {
        Ok(byte_array_bytes(a) + byte_array_bytes(b))
    } else {
        match short_array_bytes(a) {
            Err(e) => Err(e),
            Ok(x) => match short_array_bytes(b) {
                Err(e) => Err(e),
                Ok(y) => Ok(x + y),
            },
        }
    }
}

fn read_key_pair(r: &mut &[u8], version: ProtocolVersion, max_a: usize, max_b: usize) -> (res: ProtocolResult<(Vec<u8>, Vec<u8>)>)
    ensures
        match p_key_pair(old(r)@, version.0, max_a as nat, max_b as nat) {
            Ok(((a, b), rest)) => res matches Ok((x, y)) && x@ == a && y@ == b && final(r)@ == rest,
            Err(c) => res matches Err(e) && e.class() == c,
        },
{
    if version.no_less_than(ProtocolVersion(V1_8)) {
        let a = match read_byte_array_max(r, max_a, true) {
            Ok(a) => a,
            Err(e) => return Err(e),
        };
        let b = match read_byte_array_max(r, max_b, true) {
            Ok(b) => b,
            Err(e) => return Err(e),
        };
        assert(a.deep_view() =~= a@);
        assert(b.deep_view() =~= b@);
        Ok((a, b))
    } else {
        let a = match read_byte_array_short(r) {
            Ok(a) => a,
            Err(e) => return Err(e),
        };
        let b = match read_byte_array_short(r) {
            Ok(b) => b,
            Err(e) => return Err(e),
        };
        assert(a.deep_view() =~= a@);
        assert(b.deep_view() =~= b@);
        Ok((a, b))
    }
}

fn write_key_pair(w: &mut Vec<u8>, a: &[u8], b: &[u8], version: ProtocolVersion) -> (res: ProtocolResult<()>)
    ensures
        crate::codec::spec::written(key_pair_bytes(a@, b@, version.0), res, old(w)@, final(w)@),
{
    if version.no_less_than(ProtocolVersion(V1_8)) {
        encode_byte_array(a, w);
        encode_byte_array(b, w);
        assert(w@ =~= old(w)@ + (byte_array_bytes(a@) + byte_array_bytes(b@)));
        Ok(())
    } else {
        match write_byte_array_short(w, a) {
            Ok(()) => {},
            Err(e) => return Err(e),
        }
        let ghost mid = w@;
        match write_byte_array_short(w, b) {
            Ok(()) => {},
            Err(e) => return Err(e),
        }
        assert(w@ =~= old(w)@ + (short_array_bytes(a@).unwrap() + short_array_bytes(b@).unwrap()));
        Ok(())
    }
}

impl Packet for CEncryptionRequest {
    open spec fn packet_state() -> ConnectionState {
        ConnectionState::Login
    }

    open spec fn packet_direction() -> Direction {
        Direction::Clientbound
    }

    open spec fn parse(s: Seq<u8>, version: i32) -> SpecParse<CEncryptionRequestView> {
        match p_string(s, 20, eof()) {
            Err(e) => Err(e),
            Ok((id, r1)) => match p_key_pair(r1, version, 256, 16) {
                Err(e) => Err(e),
                Ok(((pk, vt), r2)) => if version >= V1_20_5 {
                    match p_bool(r2, eof()) {
                        Err(e) => Err(e),
                        Ok((auth, r3)) => Ok(
                            (
                                CEncryptionRequestView {
                                    server_id: id,
                                    public_key: pk,
                                    verify_token: vt,
                                    should_authenticate: auth,
                                },
                                r3,
                            ),
                        ),
                    }
                } else {
                    Ok(
                        (
                            CEncryptionRequestView {
                                server_id: id,
                                public_key: pk,
                                verify_token: vt,
                                should_authenticate: true,
                            },
                            r2,
                        ),
                    )
                },
            },
        }
    }

    open spec fn encoding(p: CEncryptionRequestView, version: i32) -> Result<Seq<u8>, ErrorClass> {
        match string_bytes(p.server_id) {
            Err(e) => Err(e),
            Ok(id) => match key_pair_bytes(p.public_key, p.verify_token, version) {
                Err(e) => Err(e),
                Ok(keys) => Ok(
                    id + keys + if version >= V1_20_5 {
                        bool_bytes(p.should_authenticate)
                    } else {
                        seq![]
                    },
                ),
            },
        }
    }

    open spec fn name_text() -> Seq<char> {
        "CEncryptionRequest"@
    }

    fn name() -> (s: &'static str) {
        "CEncryptionRequest"
    }

    open spec fn packet_kind() -> PacketKind {
        PacketKind::CEncryptionRequest
    }

    fn kind() -> (k: PacketKind) {
        PacketKind::CEncryptionRequest
    }

    fn state() -> (s: ConnectionState) {
        ConnectionState::Login
    }

    fn direction() -> (d: Direction) {
        Direction::Clientbound
    }

    fn decode(r: &mut &[u8], version: ProtocolVersion) -> (res: ProtocolResult<CEncryptionRequest>) {
        let server_id = match read_string(r, 20, true) {
            Ok(s) => s,
            Err(e) => return Err(e),
        };
        let (public_key, verify_token) = match read_key_pair(r, version, 256, 16) {
            Ok(p) => p,
            Err(e) => return Err(e),
        };
        let should_authenticate = if version.no_less_than(ProtocolVersion(V1_20_5)) {
            match read_u8(r, true, "bool") {
                Ok(0u8) => false,
                Ok(1u8) => true,
                Ok(_) => return Err(ProtocolError::invalid("bool value must be 0 or 1")),
                Err(e) => return Err(e),
            }
        } else {
            true
        };
        Ok(CEncryptionRequest { server_id, public_key, verify_token, should_authenticate })
    }

    fn encode(&self, w: &mut Vec<u8>, version: ProtocolVersion) -> (res: ProtocolResult<()>) {
        match encode_string(self.server_id.as_str(), w) {
            Ok(()) => {},
            Err(e) => return Err(e),
        }
        let ghost a = w@;
        match write_key_pair(w, self.public_key.as_slice(), self.verify_token.as_slice(), version) {
            Ok(()) => {},
            Err(e) => return Err(e),
        }
        let ghost b = w@;
        if version.no_less_than(ProtocolVersion(V1_20_5)) {
            self.should_authenticate.encode(w);
        }
        assert(w@ =~= old(w)@ + Self::encoding(self@, version.0).unwrap());
        Ok(())
    }
}

// ---------------------------------------------------------------------------
// Encryption response
// ---------------------------------------------------------------------------
/// Encryption response packet (Serverbound, 0x01): the encrypted shared
/// secret and verify token. In 1.19–1.19.2 a `false` flag before the verify
/// token announces a signing salt instead.
#[derive(Debug, Clone)]
pub struct SEncryptionResponse {
    pub shared_secret: Vec<u8>,
    pub verify_token: Vec<u8>,
    pub salt: Option<i64>,
}

pub struct SEncryptionResponseView {
    pub shared_secret: Seq<u8>,
    pub verify_token: Seq<u8>,
    pub salt: Option<i64>,
}

impl View for SEncryptionResponse {
    type V = SEncryptionResponseView;

    open spec fn view(&self) -> SEncryptionResponseView {
        SEncryptionResponseView {
            shared_secret: self.shared_secret@,
            verify_token: self.verify_token@,
            salt: self.salt,
        }
    }
}

/// Whether the salt flag is on the wire: 1.19 to 1.19.2.
pub open spec fn has_salt_flag(version: i32) -> bool {
    V1_19 <= version < V1_19_3
}

/// The optional salt of 1.19–1.19.2: a flag, `false` meaning a salt follows.
pub open spec fn p_salt(s: Seq<u8>, version: i32) -> SpecParse<Option<i64>> {
    if has_salt_flag(version) {
        match p_bool(s, eof()) {
            Err(e) => Err(e),
            Ok((flag, r)) => if !flag {
                match p_i64(r, eof()) {
                    Err(e) => Err(e),
                    Ok((v, r2)) => Ok((Some(v), r2)),
                }
            } else {
                Ok((None, r))
            },
        }
    } else {
        Ok((None, s))
    }
}

pub open spec fn salt_bytes(salt: Option<i64>, version: i32) -> Seq<u8> {
    if has_salt_flag(version) {
        match salt {
            Some(v) => bool_bytes(false) + i64_bytes(v),
            None => bool_bytes(true),
        }
    } else {
        seq![]
    }
}

impl Packet for SEncryptionResponse {
    open spec fn packet_state() -> ConnectionState {
        ConnectionState::Login
    }

    open spec fn packet_direction() -> Direction {
        Direction::Serverbound
    }

    /// From 1.8: a secret of at most 128 bytes, the salt, and a verify
    /// token of at most 256 bytes (128 before 1.19). Before 1.8: two
    /// `i16`-prefixed arrays.
    open spec fn parse(s: Seq<u8>, version: i32) -> SpecParse<SEncryptionResponseView> {
        if version >= V1_8 {
            match p_byte_array_max(s, 128, eof()) {
                Err(e) => Err(e),
                Ok((secret, r1)) => match p_salt(r1, version) {
                    Err(e) => Err(e),
                    Ok((salt, r2)) => match p_byte_array_max(
                        r2,
                        if version >= V1_19 {
                            256
                        } else {
                            128
                        },
                        eof(),
                    ) {
                        Err(e) => Err(e),
                        Ok((token, r3)) => Ok(
                            (
                                SEncryptionResponseView {
                                    shared_secret: secret,
                                    verify_token: token,
                                    salt,
                                },
                                r3,
                            ),
                        ),
                    },
                },
            }
        } else {
            match p_key_pair(s, version, 0, 0) {
                Err(e) => Err(e),
                Ok(((secret, token), r)) => Ok(
                    (
                        SEncryptionResponseView {
                            shared_secret: secret,
                            verify_token: token,
                            salt: None,
                        },
                        r,
                    ),
                ),
            }
        }
    }

    open spec fn encoding(p: SEncryptionResponseView, version: i32) -> Result<Seq<u8>, ErrorClass> {
        if version >= V1_8 {
            Ok(
                byte_array_bytes(p.shared_secret) + salt_bytes(p.salt, version) + byte_array_bytes(
                    p.verify_token,
                ),
            )
        } else {
            key_pair_bytes(p.shared_secret, p.verify_token, version)
        }
    }

    open spec fn name_text() -> Seq<char> {
        "SEncryptionResponse"@
    }

    fn name() -> (s: &'static str) {
        "SEncryptionResponse"
    }

    open spec fn packet_kind() -> PacketKind {
        PacketKind::SEncryptionResponse
    }

    fn kind() -> (k: PacketKind) {
        PacketKind::SEncryptionResponse
    }

    fn state() -> (s: ConnectionState) {
        ConnectionState::Login
    }

    fn direction() -> (d: Direction) {
        Direction::Serverbound
    }

    fn decode(r: &mut &[u8], version: ProtocolVersion) -> (res: ProtocolResult<SEncryptionResponse>) {
        if version.no_less_than(ProtocolVersion(V1_8)) {
            let shared_secret = match read_byte_array_max(r, 128, true) {
                Ok(v) => v,
                Err(e) => return Err(e),
            };
            let mut salt: Option<i64> = None;
            if version.no_less_than(ProtocolVersion(V1_19)) && version.less_than(
                ProtocolVersion(V1_19_3),
            ) {
                let flag = match read_u8(r, true, "bool") {
                    Ok(0u8) => false,
                    Ok(1u8) => true,
                    Ok(_) => return Err(ProtocolError::invalid("bool value must be 0 or 1")),
                    Err(e) => return Err(e),
                };
                if !flag {
                    match read_u64(r, true, "i64") {
                        Ok(v) => {
                            salt = Some(v as i64);
                        },
                        Err(e) => return Err(e),
                    }
                }
            }
            let max_vt: usize = if version.no_less_than(ProtocolVersion(V1_19)) {
                256
            } else {
                128
            };
            let verify_token = match read_byte_array_max(r, max_vt, true) {
                Ok(v) => v,
                Err(e) => return Err(e),
            };
            assert(shared_secret.deep_view() =~= shared_secret@);
            assert(verify_token.deep_view() =~= verify_token@);
            Ok(SEncryptionResponse { shared_secret, verify_token, salt })
        } else {
            match read_key_pair(r, version, 0, 0) {
                Ok((shared_secret, verify_token)) => Ok(
                    SEncryptionResponse { shared_secret, verify_token, salt: None },
                ),
                Err(e) => Err(e),
            }
        }
    }

    fn encode(&self, w: &mut Vec<u8>, version: ProtocolVersion) -> (res: ProtocolResult<()>) {
        if version.no_less_than(ProtocolVersion(V1_8)) {
            encode_byte_array(self.shared_secret.as_slice(), w);
            if version.no_less_than(ProtocolVersion(V1_19)) && version.less_than(
                ProtocolVersion(V1_19_3),
            ) {
                match self.salt {
                    Some(salt) => {
                        false.encode(w);
                        write_u64(w, salt as u64);
                    },
                    None => {
                        true.encode(w);
                    },
                }
            }
            encode_byte_array(self.verify_token.as_slice(), w);
            assert(w@ =~= old(w)@ + Self::encoding(self@, version.0).unwrap());
            Ok(())
        } else {
            write_key_pair(w, self.shared_secret.as_slice(), self.verify_token.as_slice(), version)
        }
    }
}

// ---------------------------------------------------------------------------
// Set compression, disconnect, plugin messages, acknowledgement
// ---------------------------------------------------------------------------
/// Set compression packet (Clientbound, 0x03): the compression threshold;
/// every later packet uses the compressed format.
#[derive(Debug, Clone)]
pub struct CSetCompression {
    pub threshold: VarInt,
}

impl View for CSetCompression {
    type V = i32;

    open spec fn view(&self) -> i32 {
        self.threshold.0
    }
}

impl Packet for CSetCompression {
    open spec fn packet_state() -> ConnectionState {
        ConnectionState::Login
    }

    open spec fn packet_direction() -> Direction {
        Direction::Clientbound
    }

    open spec fn parse(s: Seq<u8>, version: i32) -> SpecParse<i32> {
        p_varint(s, eof())
    }

    open spec fn encoding(p: i32, version: i32) -> Result<Seq<u8>, ErrorClass> {
        Ok(varint_bytes(p))
    }

    open spec fn name_text() -> Seq<char> {
        "CSetCompression"@
    }

    fn name() -> (s: &'static str) {
        "CSetCompression"
    }

    open spec fn packet_kind() -> PacketKind {
        PacketKind::CSetCompression
    }

    fn kind() -> (k: PacketKind) {
        PacketKind::CSetCompression
    }

    fn state() -> (s: ConnectionState) {
        ConnectionState::Login
    }

    fn direction() -> (d: Direction) {
        Direction::Clientbound
    }

    fn decode(r: &mut &[u8], version: ProtocolVersion) -> (res: ProtocolResult<CSetCompression>) {
        match VarInt::read(r, true) {
            Ok(threshold) => Ok(CSetCompression { threshold }),
            Err(e) => Err(e),
        }
    }

    fn encode(&self, w: &mut Vec<u8>, version: ProtocolVersion) -> (res: ProtocolResult<()>) {
        self.threshold.encode(w)
    }
}

/// Login disconnect packet (Clientbound, 0x00): the reason, as a JSON text.
#[derive(Debug, Clone)]
pub struct CLoginDisconnect {
    pub reason: String,
}

impl View for CLoginDisconnect {
    type V = Seq<char>;

    open spec fn view(&self) -> Seq<char> {
        self.reason@
    }
}

impl Packet for CLoginDisconnect {
    open spec fn packet_state() -> ConnectionState {
        ConnectionState::Login
    }

    open spec fn packet_direction() -> Direction {
        Direction::Clientbound
    }

    open spec fn parse(s: Seq<u8>, version: i32) -> SpecParse<Seq<char>> {
        p_string(s, MAX_STRING_CHARS as nat, eof())
    }

    open spec fn encoding(p: Seq<char>, version: i32) -> Result<Seq<u8>, ErrorClass> {
        string_bytes(p)
    }

    open spec fn name_text() -> Seq<char> {
        "CLoginDisconnect"@
    }

    fn name() -> (s: &'static str) {
        "CLoginDisconnect"
    }

    open spec fn packet_kind() -> PacketKind {
        PacketKind::CLoginDisconnect
    }

    fn kind() -> (k: PacketKind) {
        PacketKind::CLoginDisconnect
    }

    fn state() -> (s: ConnectionState) {
        ConnectionState::Login
    }

    fn direction() -> (d: Direction) {
        Direction::Clientbound
    }

    fn decode(r: &mut &[u8], version: ProtocolVersion) -> (res: ProtocolResult<CLoginDisconnect>) {
        match read_string(r, MAX_STRING_CHARS, true) {
            Ok(reason) => Ok(CLoginDisconnect { reason }),
            Err(e) => Err(e),
        }
    }

    fn encode(&self, w: &mut Vec<u8>, version: ProtocolVersion) -> (res: ProtocolResult<()>) {
        encode_string(self.reason.as_str(), w)
    }
}

/// Login plugin request packet (Clientbound, 0x04, 1.13+): a message ID, a
/// channel, and the rest of the payload as data.
#[derive(Debug, Clone)]
pub struct CLoginPluginRequest {
    pub message_id: VarInt,
    pub channel: String,
    pub data: Vec<u8>,
}

pub struct CLoginPluginRequestView {
    pub message_id: i32,
    pub channel: Seq<char>,
    pub data: Seq<u8>,
}

impl View for CLoginPluginRequest {
    type V = CLoginPluginRequestView;

    open spec fn view(&self) -> CLoginPluginRequestView {
        CLoginPluginRequestView {
            message_id: self.message_id.0,
            channel: self.channel@,
            data: self.data@,
        }
    }
}

impl Packet for CLoginPluginRequest {
    open spec fn packet_state() -> ConnectionState {
        ConnectionState::Login
    }

    open spec fn packet_direction() -> Direction {
        Direction::Clientbound
    }

    open spec fn parse(s: Seq<u8>, version: i32) -> SpecParse<CLoginPluginRequestView> {
        match p_varint(s, eof()) {
            Err(e) => Err(e),
            Ok((id, r1)) => match p_string(r1, MAX_STRING_CHARS as nat, eof()) {
                Err(e) => Err(e),
                Ok((channel, r2)) => Ok(
                    (CLoginPluginRequestView { message_id: id, channel, data: r2 }, seq![]),
                ),
            },
        }
    }

    open spec fn encoding(p: CLoginPluginRequestView, version: i32) -> Result<Seq<u8>, ErrorClass> {
        match string_bytes(p.channel) {
            Err(e) => Err(e),
            Ok(c) => Ok(varint_bytes(p.message_id) + c + p.data),
        }
    }

    open spec fn name_text() -> Seq<char> {
        "CLoginPluginRequest"@
    }

    fn name() -> (s: &'static str) {
        "CLoginPluginRequest"
    }

    open spec fn packet_kind() -> PacketKind {
        PacketKind::CLoginPluginRequest
    }

    fn kind() -> (k: PacketKind) {
        PacketKind::CLoginPluginRequest
    }

    fn state() -> (s: ConnectionState) {
        ConnectionState::Login
    }

    fn direction() -> (d: Direction) {
        Direction::Clientbound
    }

    fn decode(r: &mut &[u8], version: ProtocolVersion) -> (res: ProtocolResult<CLoginPluginRequest>) {
        let message_id = match VarInt::read(r, true) {
            Ok(v) => v,
            Err(e) => return Err(e),
        };
        let channel = match read_string(r, MAX_STRING_CHARS, true) {
            Ok(s) => s,
            Err(e) => return Err(e),
        };
        let data = read_remaining(r);
        Ok(CLoginPluginRequest { message_id, channel, data })
    }

    fn encode(&self, w: &mut Vec<u8>, version: ProtocolVersion) -> (res: ProtocolResult<()>) {
        self.message_id.encode(w);
        match encode_string(self.channel.as_str(), w) {
            Ok(()) => {},
            Err(e) => return Err(e),
        }
        push_all(w, self.data.as_slice());
        assert(w@ =~= old(w)@ + Self::encoding(self@, version.0).unwrap());
        Ok(())
    }
}

/// Login plugin response packet (Serverbound, 0x02, 1.13+): the message ID,
/// whether the client understood it, and the rest of the payload as data.
#[derive(Debug, Clone)]
pub struct SLoginPluginResponse {
    pub message_id: VarInt,
    pub successful: bool,
    pub data: Vec<u8>,
}

pub struct SLoginPluginResponseView {
    pub message_id: i32,
    pub successful: bool,
    pub data: Seq<u8>,
}

impl View for SLoginPluginResponse {
    type V = SLoginPluginResponseView;

    open spec fn view(&self) -> SLoginPluginResponseView {
        SLoginPluginResponseView {
            message_id: self.message_id.0,
            successful: self.successful,
            data: self.data@,
        }
    }
}

impl Packet for SLoginPluginResponse {
    open spec fn packet_state() -> ConnectionState {
        ConnectionState::Login
    }

    open spec fn packet_direction() -> Direction {
        Direction::Serverbound
    }

    open spec fn parse(s: Seq<u8>, version: i32) -> SpecParse<SLoginPluginResponseView> {
        match p_varint(s, eof()) {
            Err(e) => Err(e),
            Ok((id, r1)) => match p_bool(r1, eof()) {
                Err(e) => Err(e),
                Ok((ok, r2)) => Ok(
                    (SLoginPluginResponseView { message_id: id, successful: ok, data: r2 }, seq![]),
                ),
            },
        }
    }

    open spec fn encoding(p: SLoginPluginResponseView, version: i32) -> Result<Seq<u8>, ErrorClass> {
        Ok(varint_bytes(p.message_id) + bool_bytes(p.successful) + p.data)
    }

    open spec fn name_text() -> Seq<char> {
        "SLoginPluginResponse"@
    }

    fn name() -> (s: &'static str) {
        "SLoginPluginResponse"
    }

    open spec fn packet_kind() -> PacketKind {
        PacketKind::SLoginPluginResponse
    }

    fn kind() -> (k: PacketKind) {
        PacketKind::SLoginPluginResponse
    }

    fn state() -> (s: ConnectionState) {
        ConnectionState::Login
    }

    fn direction() -> (d: Direction) {
        Direction::Serverbound
    }

    fn decode(r: &mut &[u8], version: ProtocolVersion) -> (res: ProtocolResult<SLoginPluginResponse>) {
        let message_id = match VarInt::read(r, true) {
            Ok(v) => v,
            Err(e) => return Err(e),
        };
        let successful = match read_u8(r, true, "bool") {
            Ok(0u8) => false,
            Ok(1u8) => true,
            Ok(_) => return Err(ProtocolError::invalid("bool value must be 0 or 1")),
            Err(e) => return Err(e),
        };
        let data = read_remaining(r);
        Ok(SLoginPluginResponse { message_id, successful, data })
    }

    fn encode(&self, w: &mut Vec<u8>, version: ProtocolVersion) -> (res: ProtocolResult<()>) {
        self.message_id.encode(w);
        self.successful.encode(w);
        push_all(w, self.data.as_slice());
        assert(w@ =~= old(w)@ + Self::encoding(self@, version.0).unwrap());
        Ok(())
    }
}

/// Login acknowledged packet (Serverbound, 0x03, 1.20.2+): empty, marks the
/// move from Login to Config.
#[derive(Debug, Clone)]
pub struct SLoginAcknowledged;

impl View for SLoginAcknowledged {
    type V = ();

    open spec fn view(&self) -> () {
        ()
    }
}

impl Packet for SLoginAcknowledged {
    open spec fn packet_state() -> ConnectionState {
        ConnectionState::Login
    }

    open spec fn packet_direction() -> Direction {
        Direction::Serverbound
    }

    open spec fn parse(s: Seq<u8>, version: i32) -> SpecParse<()> {
        Ok(((), s))
    }

    open spec fn encoding(p: (), version: i32) -> Result<Seq<u8>, ErrorClass> {
        Ok(seq![])
    }

    open spec fn name_text() -> Seq<char> {
        "SLoginAcknowledged"@
    }

    fn name() -> (s: &'static str) {
        "SLoginAcknowledged"
    }

    open spec fn packet_kind() -> PacketKind {
        PacketKind::SLoginAcknowledged
    }

    fn kind() -> (k: PacketKind) {
        PacketKind::SLoginAcknowledged
    }

    fn state() -> (s: ConnectionState) {
        ConnectionState::Login
    }

    fn direction() -> (d: Direction) {
        Direction::Serverbound
    }

    fn decode(r: &mut &[u8], version: ProtocolVersion) -> (res: ProtocolResult<SLoginAcknowledged>) {
        Ok(SLoginAcknowledged)
    }

    fn encode(&self, w: &mut Vec<u8>, version: ProtocolVersion) -> (res: ProtocolResult<()>) {
        assert(w@ =~= old(w)@ + seq![]);
        Ok(())
    }
}

proof fn lemma_key_pair_round_trip(a: Seq<u8>, b: Seq<u8>, version: i32, max_a: nat, max_b: nat, rest: Seq<u8>)
    requires
        version >= V1_8 ==> a.len() <= max_a && b.len() <= max_b,
        a.len() <= i16::MAX,
        b.len() <= i16::MAX,
    ensures
        key_pair_bytes(a, b, version) is Ok,
        p_key_pair(key_pair_bytes(a, b, version).unwrap() + rest, version, max_a, max_b) == Ok::<
            ((Seq<u8>, Seq<u8>), Seq<u8>),
            ErrorClass,
        >(((a, b), rest)),
{
    if version >= V1_8 {
        assert(byte_array_bytes(a) + byte_array_bytes(b) + rest =~= byte_array_bytes(a) + (
        byte_array_bytes(b) + rest));
        lemma_byte_array_round_trip(a, byte_array_bytes(b) + rest, eof());
        lemma_byte_array_round_trip(b, rest, eof());
    } else {
        let x = short_array_bytes(a).unwrap();
        let y = short_array_bytes(b).unwrap();
        assert(x + y + rest =~= x + (y + rest));
        lemma_short_array_round_trip(a, y + rest);
        lemma_short_array_round_trip(b, rest);
    }
}

/// An encryption request reads back as written when its fields fit the
/// limits of the version's format.
pub proof fn law_encryption_request_round_trip(p: CEncryptionRequestView, version: i32, rest: Seq<u8>)
    requires
        p.server_id.len() <= 20,
        p.public_key.len() <= 256,
        p.verify_token.len() <= 16,
        version < V1_20_5 ==> p.should_authenticate,
    ensures
        packet_round_trips::<CEncryptionRequest>(p, version, rest),
{
    let id = string_bytes(p.server_id).unwrap();
    lemma_string_round_trip(p.server_id, seq![], 20, eof());
    let keys = key_pair_bytes(p.public_key, p.verify_token, version).unwrap();
    lemma_key_pair_round_trip(p.public_key, p.verify_token, version, 256, 16, seq![]);
    let tail = if version >= V1_20_5 { bool_bytes(p.should_authenticate) } else { seq![] };
    assert(id + keys + tail + rest =~= id + (keys + (tail + rest)));
    lemma_string_round_trip(p.server_id, keys + (tail + rest), 20, eof());
    lemma_key_pair_round_trip(p.public_key, p.verify_token, version, 256, 16, tail + rest);
    lemma_p_byte_round_trips(0, p.should_authenticate, rest, eof());
    assert(seq![] + rest =~= rest);
}

/// An encryption response reads back as written when its arrays fit the
/// limits of the version's format and a salt is only set where it is sent.
pub proof fn law_encryption_response_round_trip(p: SEncryptionResponseView, version: i32, rest: Seq<u8>)
    requires
        p.shared_secret.len() <= 128,
        p.verify_token.len() <= 128,
        !has_salt_flag(version) ==> p.salt is None,
    ensures
        packet_round_trips::<SEncryptionResponse>(p, version, rest),
{
    if version >= V1_8 {
        let a = byte_array_bytes(p.shared_secret);
        let m = salt_bytes(p.salt, version);
        let b = byte_array_bytes(p.verify_token);
        assert(a + m + b + rest =~= a + (m + (b + rest)));
        lemma_byte_array_round_trip(p.shared_secret, m + (b + rest), eof());
        if has_salt_flag(version) {
            match p.salt {
                Some(v) => {
                    assert(m + (b + rest) =~= bool_bytes(false) + (i64_bytes(v) + (b + rest)));
                    lemma_p_byte_round_trips(0, false, i64_bytes(v) + (b + rest), eof());
                    lemma_p_signed_round_trips(0, 0, 0, v, b + rest, eof());
                },
                None => {
                    lemma_p_byte_round_trips(0, true, b + rest, eof());
                },
            }
        } else {
            assert(m + (b + rest) =~= b + rest);
        }
        lemma_byte_array_round_trip(p.verify_token, rest, eof());
    } else {
        lemma_key_pair_round_trip(p.shared_secret, p.verify_token, version, 0, 0, rest);
    }
}

/// The compression threshold, the disconnect reason (at most 32767
/// characters) and the empty acknowledgement read back as written; the
/// plugin messages, whose data runs to the end of the payload, read back as
/// written when nothing follows them.
pub proof fn law_login_simple_round_trips(
    threshold: i32,
    reason: Seq<char>,
    request: CLoginPluginRequestView,
    response: SLoginPluginResponseView,
    version: i32,
    rest: Seq<u8>,
)
    requires
        reason.len() <= MAX_STRING_CHARS,
        request.channel.len() <= MAX_STRING_CHARS,
    ensures
        packet_round_trips::<CSetCompression>(threshold, version, rest),
        packet_round_trips::<CLoginDisconnect>(reason, version, rest),
        packet_round_trips::<SLoginAcknowledged>((), version, rest),
        packet_round_trips::<CLoginPluginRequest>(request, version, seq![]),
        packet_round_trips::<SLoginPluginResponse>(response, version, seq![]),
{
    lemma_varint_round_trip(threshold, rest, eof());
    lemma_string_round_trip(reason, rest, MAX_STRING_CHARS as nat, eof());
    assert(seq![] + rest =~= rest);
    let c = string_bytes(request.channel).unwrap();
    lemma_string_round_trip(request.channel, seq![], MAX_STRING_CHARS as nat, eof());
    assert(varint_bytes(request.message_id) + c + request.data + seq![] =~= varint_bytes(
        request.message_id,
    ) + (c + request.data));
    lemma_varint_round_trip(request.message_id, c + request.data, eof());
    lemma_string_round_trip(request.channel, request.data, MAX_STRING_CHARS as nat, eof());
    assert(varint_bytes(response.message_id) + bool_bytes(response.successful) + response.data
        + seq![] =~= varint_bytes(response.message_id) + (bool_bytes(response.successful)
        + response.data));
    lemma_varint_round_trip(
        response.message_id,
        bool_bytes(response.successful) + response.data,
        eof(),
    );
    lemma_p_byte_round_trips(0, response.successful, response.data, eof());
}

// ---------------------------------------------------------------------------
// Login start and login success
// ---------------------------------------------------------------------------
pub struct PropertyView {
    pub name: Seq<char>,
    pub value: Seq<char>,
    pub signature: Option<Seq<char>>,
}

impl View for Property {
    type V = PropertyView;

    open spec fn view(&self) -> PropertyView {
        PropertyView {
            name: self.name@,
            value: self.value@,
            signature: match self.signature {
                Some(s) => Some(s@),
                None => None,
            },
        }
    }
}

/// Login start packet (Serverbound, 0x00): the first packet of a login.
///
/// - before 1.19: the name only;
/// - 1.19 to 1.19.2: the name, an optional player key, and from 1.19.1 an
///   optional UUID;
/// - 1.19.3 to 1.20.1: the name and an optional UUID;
/// - 1.20.2+: the name and a UUID.
///
/// The player key is kept as opaque bytes (its timestamp, public key and
/// signature as they are on the wire), since the proxy forwards it as it is.
#[derive(Debug, Clone)]
pub struct SLoginStart {
    pub name: String,
    pub uuid: Option<u128>,
    pub signature_data: Option<Vec<u8>>,
}

pub struct SLoginStartView {
    pub name: Seq<char>,
    pub uuid: Option<u128>,
    pub signature_data: Option<Seq<u8>>,
}

impl View for SLoginStart {
    type V = SLoginStartView;

    open spec fn view(&self) -> SLoginStartView {
        SLoginStartView {
            name: self.name@,
            uuid: self.uuid,
            signature_data: match self.signature_data {
                Some(d) => Some(d@),
                None => None,
            },
        }
    }
}

/// The optional player key of 1.19 to 1.19.2: a flag, then a timestamp, a
/// public key of at most 512 bytes and a signature of at most 4096 bytes,
/// kept as the bytes they were read from.
pub open spec fn p_player_key(s: Seq<u8>, version: i32) -> SpecParse<Option<Seq<u8>>> {
    if V1_19 <= version < V1_19_3 {
        match p_bool(s, eof()) {
            Err(e) => Err(e),
            Ok((flag, r)) => if flag {
                match p_i64(r, eof()) {
                    Err(e) => Err(e),
                    Ok((ts, r1)) => match p_byte_array_max(r1, 512, eof()) {
                        Err(e) => Err(e),
                        Ok((pk, r2)) => match p_byte_array_max(r2, 4096, eof()) {
                            Err(e) => Err(e),
                            Ok((sig, r3)) => Ok(
                                (Some(i64_bytes(ts) + byte_array_bytes(pk) + byte_array_bytes(sig)), r3),
                            ),
                        },
                    },
                }
            } else {
                Ok((None, r))
            },
        }
    } else {
        Ok((None, s))
    }
}

/// The UUID of a login start: mandatory from 1.20.2, behind a flag from
/// 1.19.1, absent before.
pub open spec fn p_login_uuid(s: Seq<u8>, version: i32) -> SpecParse<Option<u128>> {
    if version >= V1_20_2 {
        match p_u128(s, eof()) {
            Err(e) => Err(e),
            Ok((u, r)) => Ok((Some(u), r)),
        }
    } else if version >= V1_19_1 {
        match p_bool(s, eof()) {
            Err(e) => Err(e),
            Ok((flag, r)) => if flag {
                match p_u128(r, eof()) {
                    Err(e) => Err(e),
                    Ok((u, r1)) => Ok((Some(u), r1)),
                }
            } else {
                Ok((None, r))
            },
        }
    } else {
        Ok((None, s))
    }
}

/// The player key field: 1.19 to 1.19.2 only.
pub open spec fn player_key_bytes(key: Option<Seq<u8>>, version: i32) -> Seq<u8> {
    if V1_19 <= version < V1_19_3 {
        match key {
            Some(d) => bool_bytes(true) + d,
            None => bool_bytes(false),
        }
    } else {
        seq![]
    }
}

/// The UUID field: from 1.20.2 always (the nil UUID when unset), behind a
/// flag from 1.19.1.
pub open spec fn login_uuid_bytes(uuid: Option<u128>, version: i32) -> Seq<u8> {
    if version >= V1_20_2 {
        u128_bytes(
            match uuid {
                Some(u) => u,
                None => 0,
            },
        )
    } else if version >= V1_19_1 {
        match uuid {
            Some(u) => bool_bytes(true) + u128_bytes(u),
            None => bool_bytes(false),
        }
    } else {
        seq![]
    }
}

fn read_flag(r: &mut &[u8]) -> (res: ProtocolResult<bool>)
    ensures
        crate::codec::spec::parsed(p_bool(old(r)@, eof()), res, final(r)@),
{
    match read_u8(r, true, "bool") {
        Ok(0u8) => Ok(false),
        Ok(1u8) => Ok(true),
        Ok(_) => Err(ProtocolError::invalid("bool value must be 0 or 1")),
        Err(e) => Err(e),
    }
}

fn read_player_key(r: &mut &[u8], version: ProtocolVersion) -> (res: ProtocolResult<Option<Vec<u8>>>)
    ensures
        match res {
            Ok(k) => p_player_key(old(r)@, version.0) == Ok::<(Option<Seq<u8>>, Seq<u8>), ErrorClass>(
                (
                    match k {
                        Some(d) => Some(d@),
                        None => None,
                    },
                    final(r)@,
                ),
            ),
            Err(e) => p_player_key(old(r)@, version.0) == Err::<(Option<Seq<u8>>, Seq<u8>), ErrorClass>(
                e.class(),
            ),
        },
{
    if version.less_than(ProtocolVersion(V1_19)) || version.no_less_than(ProtocolVersion(V1_19_3)) {
        return Ok(None);
    }
    let flag = match read_flag(r) {
        Ok(f) => f,
        Err(e) => return Err(e),
    };
    if !flag {
        return Ok(None);
    }
    let ts = match read_u64(r, true, "i64") {
        Ok(v) => v,
        Err(e) => return Err(e),
    };
    let pk = match read_byte_array_max(r, 512, true) {
        Ok(v) => v,
        Err(e) => return Err(e),
    };
    let sig = match read_byte_array_max(r, 4096, true) {
        Ok(v) => v,
        Err(e) => return Err(e),
    };
    let mut key: Vec<u8> = Vec::new();
    write_u64(&mut key, ts);
    encode_byte_array(pk.as_slice(), &mut key);
    encode_byte_array(sig.as_slice(), &mut key);
    proof {
        assert(pk.deep_view() =~= pk@);
        assert(sig.deep_view() =~= sig@);
        assert(i64_bytes(ts as i64) =~= u64_bytes(ts)) by {
            assert((ts as i64) as u64 == ts) by (bit_vector);
        }
        assert(key@ =~= i64_bytes(ts as i64) + byte_array_bytes(pk@) + byte_array_bytes(sig@));
    }
    Ok(Some(key))
}

fn read_login_uuid(r: &mut &[u8], version: ProtocolVersion) -> (res: ProtocolResult<Option<u128>>)
    ensures
        crate::codec::spec::parsed(p_login_uuid(old(r)@, version.0), res, final(r)@),
{
    let has = if version.no_less_than(ProtocolVersion(V1_20_2)) {
        true
    } else if version.no_less_than(ProtocolVersion(V1_19_1)) {
        match read_flag(r) {
            Ok(f) => f,
            Err(e) => return Err(e),
        }
    } else {
        false
    };
    if has {
        match read_u128(r, true, "uuid") {
            Ok(u) => Ok(Some(u)),
            Err(e) => Err(e),
        }
    } else {
        Ok(None)
    }
}

impl Packet for SLoginStart {
    open spec fn packet_state() -> ConnectionState {
        ConnectionState::Login
    }

    open spec fn packet_direction() -> Direction {
        Direction::Serverbound
    }

    /// A name of 1 to 16 characters (an empty one is `Invalid`), then from
    /// 1.19 the player key and the UUID.
    open spec fn parse(s: Seq<u8>, version: i32) -> SpecParse<SLoginStartView> {
        match p_string(s, 16, eof()) {
            Err(e) => Err(e),
            Ok((name, r1)) => if name.len() == 0 {
                Err(ErrorClass::Invalid)
            } else if version < V1_19 {
                Ok((SLoginStartView { name, uuid: None, signature_data: None }, r1))
            } else {
                match p_player_key(r1, version) {
                    Err(e) => Err(e),
                    Ok((key, r2)) => match p_login_uuid(r2, version) {
                        Err(e) => Err(e),
                        Ok((uuid, r3)) => Ok(
                            (SLoginStartView { name, uuid, signature_data: key }, r3),
                        ),
                    },
                }
            },
        }
    }

    open spec fn encoding(p: SLoginStartView, version: i32) -> Result<Seq<u8>, ErrorClass> {
        match string_bytes(p.name) {
            Err(e) => Err(e),
            Ok(n) => Ok(
                n + if version >= V1_19 {
                    player_key_bytes(p.signature_data, version) + login_uuid_bytes(p.uuid, version)
                } else {
                    seq![]
                },
            ),
        }
    }

    open spec fn name_text() -> Seq<char> {
        "SLoginStart"@
    }

    fn name() -> (s: &'static str) {
        "SLoginStart"
    }

    open spec fn packet_kind() -> PacketKind {
        PacketKind::SLoginStart
    }

    fn kind() -> (k: PacketKind) {
        PacketKind::SLoginStart
    }

    fn state() -> (s: ConnectionState) {
        ConnectionState::Login
    }

    fn direction() -> (d: Direction) {
        Direction::Serverbound
    }

    fn decode(r: &mut &[u8], version: ProtocolVersion) -> (res: ProtocolResult<SLoginStart>) {
        let name = match read_string(r, 16, true) {
            Ok(n) => n,
            Err(e) => return Err(e),
        };
        if name.unicode_len() == 0 {
            return Err(ProtocolError::invalid("empty username in SLoginStart"));
        }
        if version.less_than(ProtocolVersion(V1_19)) {
            return Ok(SLoginStart { name, uuid: None, signature_data: None });
        }
        let signature_data = match read_player_key(r, version) {
            Ok(k) => k,
            Err(e) => return Err(e),
        };
        match read_login_uuid(r, version) {
            Ok(uuid) => Ok(SLoginStart { name, uuid, signature_data }),
            Err(e) => Err(e),
        }
    }

    fn encode(&self, w: &mut Vec<u8>, version: ProtocolVersion) -> (res: ProtocolResult<()>) {
        match encode_string(self.name.as_str(), w) {
            Ok(()) => {},
            Err(e) => return Err(e),
        }
        let ghost mid = w@;
        if version.no_less_than(ProtocolVersion(V1_19)) {
            if version.less_than(ProtocolVersion(V1_19_3)) {
                match &self.signature_data {
                    Some(sig) => {
                        true.encode(w);
                        push_all(w, sig.as_slice());
                    },
                    None => {
                        false.encode(w);
                    },
                }
            }
            if version.no_less_than(ProtocolVersion(V1_20_2)) {
                let u = match self.uuid {
                    Some(u) => u,
                    None => 0,
                };
                write_u128(w, u);
            } else if version.no_less_than(ProtocolVersion(V1_19_1)) {
                match self.uuid {
                    Some(u) => {
                        true.encode(w);
                        write_u128(w, u);
                    },
                    None => {
                        false.encode(w);
                    },
                }
            }
        }
        assert(w@ =~= old(w)@ + Self::encoding(self@, version.0).unwrap());
        Ok(())
    }
}

/// Login success packet (Clientbound, 0x02): the player's UUID and name,
/// and from 1.19 the profile properties.
///
/// - before 1.7.6: the UUID as 32 hex digits; 1.7.6 to 1.15.2: the
///   hyphenated UUID; 1.16 to 1.18.2: four big-endian `i32`s; 1.19+: 16
///   big-endian bytes (the same bytes).
/// - `strict_error_handling` is only sent in 1.20.5 and 1.21.
#[derive(Debug, Clone)]
pub struct CLoginSuccess {
    pub uuid: u128,
    pub username: String,
    pub properties: Vec<Property>,
    pub strict_error_handling: bool,
}

pub struct CLoginSuccessView {
    pub uuid: u128,
    pub username: Seq<char>,
    pub properties: Seq<PropertyView>,
    pub strict_error_handling: bool,
}

impl View for CLoginSuccess {
    type V = CLoginSuccessView;

    open spec fn view(&self) -> CLoginSuccessView {
        CLoginSuccessView {
            uuid: self.uuid,
            username: self.username@,
            properties: self.properties@.map_values(|p: Property| p@),
            strict_error_handling: self.strict_error_handling,
        }
    }
}

/// Whether the strict error handling flag is on the wire: 1.20.5 and 1.21.
pub open spec fn has_strict_flag(version: i32) -> bool {
    version == V1_20_5 || version == V1_21
}

/// The UUID of a login success: binary from 1.16; before, text that
/// `uuid::Uuid::parse_str` must accept (36 characters at most from 1.7.6,
/// 32 before).
pub open spec fn p_success_uuid(s: Seq<u8>, version: i32) -> SpecParse<u128> {
    if version >= V1_16 {
        p_u128(s, eof())
    } else {
        match p_string(
            s,
            if version >= V1_7_6 {
                36
            } else {
                32
            },
            eof(),
        ) {
            Err(e) => Err(e),
            Ok((t, r)) => match uuid_text_value(t) {
                Some(u) => Ok((u, r)),
                None => Err(ErrorClass::Invalid),
            },
        }
    }
}

/// The bytes of the UUID of a login success.
pub open spec fn success_uuid_bytes(u: u128, version: i32) -> Result<Seq<u8>, ErrorClass> {
    if version >= V1_16 {
        Ok(u128_bytes(u))
    } else if version >= V1_7_6 {
        string_bytes(uuid_hyphenated_text(u))
    } else {
        string_bytes(uuid_simple_text(u))
    }
}

/// The end of a login success: the strict error handling flag in 1.20.5
/// and 1.21, `false` elsewhere.
pub open spec fn p_success_tail(
    uuid: u128,
    username: Seq<char>,
    properties: Seq<PropertyView>,
    s: Seq<u8>,
    version: i32,
) -> SpecParse<CLoginSuccessView> {
    if has_strict_flag(version) {
        match p_bool(s, eof()) {
            Err(e) => Err(e),
            Ok((strict, r)) => Ok(
                (CLoginSuccessView { uuid, username, properties, strict_error_handling: strict }, r),
            ),
        }
    } else {
        Ok((CLoginSuccessView { uuid, username, properties, strict_error_handling: false }, s))
    }
}

/// One profile property: name, value, and a flagged optional signature.
pub open spec fn p_property(s: Seq<u8>) -> SpecParse<PropertyView> {
    match p_string(s, MAX_STRING_CHARS as nat, eof()) {
        Err(e) => Err(e),
        Ok((name, r1)) => match p_string(r1, MAX_STRING_CHARS as nat, eof()) {
            Err(e) => Err(e),
            Ok((value, r2)) => match p_bool(r2, eof()) {
                Err(e) => Err(e),
                Ok((flag, r3)) => if flag {
                    match p_string(r3, MAX_STRING_CHARS as nat, eof()) {
                        Err(e) => Err(e),
                        Ok((sig, r4)) => Ok((PropertyView { name, value, signature: Some(sig) }, r4)),
                    }
                } else {
                    Ok((PropertyView { name, value, signature: None }, r3))
                },
            },
        },
    }
}

/// `n` profile properties.
pub open spec fn p_properties(s: Seq<u8>, n: nat) -> SpecParse<Seq<PropertyView>>
    decreases n,
{
    if n == 0 {
        Ok((seq![], s))
    } else {
        match p_property(s) {
            Err(e) => Err(e),
            Ok((p, r1)) => match p_properties(r1, (n - 1) as nat) {
                Err(e) => Err(e),
                Ok((ps, r2)) => Ok((seq![p] + ps, r2)),
            },
        }
    }
}

/// The bytes of one profile property.
pub open spec fn property_bytes(p: PropertyView) -> Result<Seq<u8>, ErrorClass> {
    match string_bytes(p.name) {
        Err(e) => Err(e),
        Ok(n) => match string_bytes(p.value) {
            Err(e) => Err(e),
            Ok(v) => match p.signature {
                Some(sig) => match string_bytes(sig) {
                    Err(e) => Err(e),
                    Ok(g) => Ok(n + v + bool_bytes(true) + g),
                },
                None => Ok(n + v + bool_bytes(false)),
            },
        },
    }
}

/// The bytes of a sequence of properties; the first that fails decides.
pub open spec fn properties_bytes(ps: Seq<PropertyView>) -> Result<Seq<u8>, ErrorClass>
    decreases ps.len(),
{
    if ps.len() == 0 {
        Ok(seq![])
    } else {
        match properties_bytes(ps.drop_last()) {
            Err(e) => Err(e),
            Ok(a) => match property_bytes(ps.last()) {
                Err(e) => Err(e),
                Ok(b) => Ok(a + b),
            },
        }
    }
}

proof fn lemma_properties_bytes_prefix_err(ps: Seq<PropertyView>, k: int)
    requires
        0 <= k <= ps.len(),
        properties_bytes(ps.take(k)) is Err,
    ensures
        properties_bytes(ps) == properties_bytes(ps.take(k)),
    decreases ps.len() - k,
{
    if k < ps.len() {
        let m = ps.drop_last();
        assert(m.take(k) =~= ps.take(k));
        lemma_properties_bytes_prefix_err(m, k);
    } else {
        assert(ps.take(k) =~= ps);
    }
}

fn decode_property(r: &mut &[u8]) -> (res: ProtocolResult<Property>)
    ensures
        crate::codec::spec::parsed_view(p_property(old(r)@), res, final(r)@),
{
    let name = match read_string(r, MAX_STRING_CHARS, true) {
        Ok(t) => t,
        Err(e) => return Err(e),
    };
    let value = match read_string(r, MAX_STRING_CHARS, true) {
        Ok(t) => t,
        Err(e) => return Err(e),
    };
    let flag = match read_flag(r) {
        Ok(f) => f,
        Err(e) => return Err(e),
    };
    if flag {
        match read_string(r, MAX_STRING_CHARS, true) {
            Ok(sig) => Ok(Property { name, value, signature: Some(sig) }),
            Err(e) => Err(e),
        }
    } else {
        Ok(Property { name, value, signature: None })
    }
}

fn encode_property(p: &Property, w: &mut Vec<u8>) -> (res: ProtocolResult<()>)
    ensures
        crate::codec::spec::written(property_bytes(p@), res, old(w)@, final(w)@),
{
    match encode_string(p.name.as_str(), w) {
        Ok(()) => {},
        Err(e) => return Err(e),
    }
    match encode_string(p.value.as_str(), w) {
        Ok(()) => {},
        Err(e) => return Err(e),
    }
    match &p.signature {
        Some(sig) => {
            true.encode(w);
            match encode_string(sig.as_str(), w) {
                Ok(()) => {},
                Err(e) => return Err(e),
            }
        },
        None => {
            false.encode(w);
        },
    }
    assert(w@ =~= old(w)@ + property_bytes(p@).unwrap());
    Ok(())
}

fn read_success_uuid(r: &mut &[u8], version: ProtocolVersion) -> (res: ProtocolResult<u128>)
    ensures
        crate::codec::spec::parsed(p_success_uuid(old(r)@, version.0), res, final(r)@),
{
    if version.no_less_than(ProtocolVersion(V1_16)) {
        return read_u128(r, true, "uuid");
    }
    let max: usize = if version.no_less_than(ProtocolVersion(V1_7_6)) {
        36
    } else {
        32
    };
    let text = match read_string(r, max, true) {
        Ok(t) => t,
        Err(e) => return Err(e),
    };
    match parse_uuid(text.as_str()) {
        Some(u) => Ok(u),
        None => Err(ProtocolError::invalid("invalid UUID string")),
    }
}

fn write_success_uuid(u: u128, w: &mut Vec<u8>, version: ProtocolVersion) -> (res: ProtocolResult<()>)
    ensures
        crate::codec::spec::written(success_uuid_bytes(u, version.0), res, old(w)@, final(w)@),
{
    if version.no_less_than(ProtocolVersion(V1_16)) {
        write_u128(w, u);
        Ok(())
    } else if version.no_less_than(ProtocolVersion(V1_7_6)) {
        let text = uuid_hyphenated(u);
        encode_string(text.as_str(), w)
    } else {
        let text = uuid_simple(u);
        encode_string(text.as_str(), w)
    }
}

impl Packet for CLoginSuccess {
    open spec fn packet_state() -> ConnectionState {
        ConnectionState::Login
    }

    open spec fn packet_direction() -> Direction {
        Direction::Clientbound
    }

    /// The UUID, a name of at most 16 characters, the properties from 1.19
    /// (a `VarInt` count, taken as unsigned, then the properties), and the
    /// strict error handling flag in 1.20.5 and 1.21.
    open spec fn parse(s: Seq<u8>, version: i32) -> SpecParse<CLoginSuccessView> {
        match p_success_uuid(s, version) {
            Err(e) => Err(e),
            Ok((uuid, r1)) => match p_string(r1, 16, eof()) {
                Err(e) => Err(e),
                Ok((username, r2)) => match (if version >= V1_19 {
                    match p_varint(r2, eof()) {
                        Err(e) => Err(e),
                        Ok((count, r3)) => p_properties(r3, (count as usize) as nat),
                    }
                } else {
                    Ok((seq![], r2))
                }) {
                    Err(e) => Err(e),
                    Ok((properties, r4)) => p_success_tail(uuid, username, properties, r4, version),
                },
            },
        }
    }

    open spec fn encoding(p: CLoginSuccessView, version: i32) -> Result<Seq<u8>, ErrorClass> {
        match success_uuid_bytes(p.uuid, version) {
            Err(e) => Err(e),
            Ok(u) => match string_bytes(p.username) {
                Err(e) => Err(e),
                Ok(n) => match (if version >= V1_19 {
                    match properties_bytes(p.properties) {
                        Err(e) => Err(e),
                        Ok(b) => Ok(varint_bytes(p.properties.len() as i32) + b),
                    }
                } else {
                    Ok(seq![])
                }) {
                    Err(e) => Err(e),
                    Ok(props) => Ok(
                        u + n + props + if has_strict_flag(version) {
                            bool_bytes(p.strict_error_handling)
                        } else {
                            seq![]
                        },
                    ),
                },
            },
        }
    }

    open spec fn name_text() -> Seq<char> {
        "CLoginSuccess"@
    }

    fn name() -> (s: &'static str) {
        "CLoginSuccess"
    }

    open spec fn packet_kind() -> PacketKind {
        PacketKind::CLoginSuccess
    }

    fn kind() -> (k: PacketKind) {
        PacketKind::CLoginSuccess
    }

    fn state() -> (s: ConnectionState) {
        ConnectionState::Login
    }

    fn direction() -> (d: Direction) {
        Direction::Clientbound
    }

    fn decode(r: &mut &[u8], version: ProtocolVersion) -> (res: ProtocolResult<CLoginSuccess>) {
        let uuid = match read_success_uuid(r, version) {
            Ok(u) => u,
            Err(e) => return Err(e),
        };
        let username = match read_string(r, 16, true) {
            Ok(n) => n,
            Err(e) => return Err(e),
        };
        let ghost after_name = r@;
        let mut properties: Vec<Property> = Vec::new();
        if version.no_less_than(ProtocolVersion(V1_19)) {
            let count = match VarInt::read(r, true) {
                Ok(v) => v.0 as usize,
                Err(e) => return Err(e),
            };
            let ghost s0 = r@;
            let ghost mut acc: Seq<PropertyView> = seq![];
            let mut i: usize = 0;
            while i < count
                invariant
                    i <= count,
                    Self::parse(old(r)@, version.0) == match p_properties(s0, count as nat) {
                        Err(e) => Err(e),
                        Ok((ps, r4)) => p_success_tail(uuid, username@, ps, r4, version.0),
                    },
                    acc.len() == properties@.len(),
                    forall|k: int| 0 <= k < acc.len() ==> acc[k] == #[trigger] properties@[k]@,
                    p_properties(s0, count as nat) == match p_properties(r@, (count - i) as nat) {
                        Ok((ps, rest)) => Ok((acc + ps, rest)),
                        Err(e) => Err(e),
                    },
                decreases count - i,
            {
                let p = match decode_property(r) {
                    Ok(p) => p,
                    Err(e) => return Err(e),
                };
                let ghost pv = p@;
                properties.push(p);
                i = i + 1;
                proof {
                    let prev = acc;
                    acc = acc.push(pv);
                    match p_properties(r@, (count - i) as nat) {
                        Ok((ps, rest)) => {
                            assert(prev + (seq![pv] + ps) =~= acc + ps);
                        },
                        Err(_) => {},
                    }
                }
            }
            assert(properties@.map_values(|p: Property| p@) =~= acc);
            assert(acc + seq![] =~= acc);
        } else {
            assert(properties@.map_values(|p: Property| p@) =~= seq![]);
        }
        let strict_error_handling = if version.0 == V1_20_5 || version.0 == V1_21 {
            match read_flag(r) {
                Ok(f) => f,
                Err(e) => return Err(e),
            }
        } else {
            false
        };
        Ok(CLoginSuccess { uuid, username, properties, strict_error_handling })
    }

    fn encode(&self, w: &mut Vec<u8>, version: ProtocolVersion) -> (res: ProtocolResult<()>) {
        match write_success_uuid(self.uuid, w, version) {
            Ok(()) => {},
            Err(e) => return Err(e),
        }
        match encode_string(self.username.as_str(), w) {
            Ok(()) => {},
            Err(e) => return Err(e),
        }
        let ghost before_props = w@;
        if version.no_less_than(ProtocolVersion(V1_19)) {
            VarInt(self.properties.len() as i32).encode(w);
            let ghost vs = self@.properties;
            let ghost start = w@;
            let n = self.properties.len();
            let mut i: usize = 0;
            while i < n
                invariant
                    i <= n,
                    n == self.properties@.len(),
                    version.0 >= V1_19,
                    success_uuid_bytes(self.uuid, version.0) is Ok,
                    string_bytes(self.username@) is Ok,
                    vs == self@.properties,
                    vs == self.properties@.map_values(|x: Property| x@),
                    properties_bytes(vs.take(i as int)) is Ok,
                    w@ == start + properties_bytes(vs.take(i as int)).unwrap(),
                decreases n - i,
            {
                assert(vs.take(i + 1).drop_last() =~= vs.take(i as int));
                assert(vs[i as int] == self.properties@[i as int]@);
                match encode_property(&self.properties[i], w) {
                    Ok(()) => {},
                    Err(e) => {
                        proof {
                            lemma_properties_bytes_prefix_err(vs, i + 1);
                        }
                        return Err(e);
                    },
                }
                i = i + 1;
            }
            assert(vs.take(n as int) =~= vs);
        }
        if version.0 == V1_20_5 || version.0 == V1_21 {
            self.strict_error_handling.encode(w);
        }
        assert(w@ =~= old(w)@ + Self::encoding(self@, version.0).unwrap());
        Ok(())
    }
}

/// The opaque bytes a player key is kept as: timestamp, public key,
/// signature.
pub open spec fn player_key_data(key: Option<(i64, Seq<u8>, Seq<u8>)>) -> Option<Seq<u8>> {
    match key {
        Some((ts, pk, sg)) => Some(i64_bytes(ts) + byte_array_bytes(pk) + byte_array_bytes(sg)),
        None => None,
    }
}

#[verifier::spinoff_prover]
proof fn lemma_present_player_key_round_trip(ts: i64, pk: Seq<u8>, sg: Seq<u8>, version: i32, rest: Seq<u8>)
    requires
        V1_19 <= version < V1_19_3,
        pk.len() <= 512,
        sg.len() <= 4096,
    ensures
        p_player_key(player_key_bytes(player_key_data(Some((ts, pk, sg))), version) + rest, version) == Ok::<
            (Option<Seq<u8>>, Seq<u8>),
            ErrorClass,
        >((player_key_data(Some((ts, pk, sg))), rest)),
{
    let key = Some((ts, pk, sg));
    let a = i64_bytes(ts);
    let b = byte_array_bytes(pk);
    let c = byte_array_bytes(sg);
    assert(player_key_bytes(player_key_data(key), version) + rest =~= bool_bytes(true) + (a + (b + (c
        + rest))));
    lemma_p_byte_round_trips(0, true, a + (b + (c + rest)), eof());
    lemma_p_signed_round_trips(0, 0, 0, ts, b + (c + rest), eof());
    lemma_byte_array_round_trip(pk, c + rest, eof());
    lemma_byte_array_round_trip(sg, rest, eof());
    assert(a + b + c =~= a + (b + c));
}

#[verifier::spinoff_prover]
proof fn lemma_player_key_round_trip(key: Option<(i64, Seq<u8>, Seq<u8>)>, version: i32, rest: Seq<u8>)
    requires
        key matches Some((ts, pk, sg)) ==> V1_19 <= version < V1_19_3 && pk.len() <= 512 && sg.len() <= 4096,
    ensures
        p_player_key(player_key_bytes(player_key_data(key), version) + rest, version) == Ok::<
            (Option<Seq<u8>>, Seq<u8>),
            ErrorClass,
        >((player_key_data(key), rest)),
{
    if V1_19 <= version < V1_19_3 {
        match key {
            Some((ts, pk, sg)) => {
                lemma_present_player_key_round_trip(ts, pk, sg, version, rest);
            },
            None => {
                lemma_p_byte_round_trips(0, false, rest, eof());
            },
        }
    } else {
        assert(seq![] + rest =~= rest);
    }
}

proof fn lemma_login_uuid_round_trip(uuid: Option<u128>, version: i32, rest: Seq<u8>)
    requires
        version < V1_19_1 ==> uuid is None,
        version >= V1_20_2 ==> uuid is Some,
    ensures
        p_login_uuid(login_uuid_bytes(uuid, version) + rest, version) == Ok::<
            (Option<u128>, Seq<u8>),
            ErrorClass,
        >((uuid, rest)),
{
    if version >= V1_20_2 {
        lemma_p_u128_round_trip(uuid.unwrap(), rest, eof());
    } else if version >= V1_19_1 {
        match uuid {
            Some(u) => {
                assert(bool_bytes(true) + u128_bytes(u) + rest =~= bool_bytes(true) + (u128_bytes(u)
                    + rest));
                lemma_p_byte_round_trips(0, true, u128_bytes(u) + rest, eof());
                lemma_p_u128_round_trip(u, rest, eof());
            },
            None => {
                lemma_p_byte_round_trips(0, false, rest, eof());
            },
        }
    } else {
        assert(seq![] + rest =~= rest);
    }
}

/// A login start reads back as written when its name has 1 to 16
/// characters, a player key is only set in 1.19 to 1.19.2 (with a public
/// key of at most 512 bytes and a signature of at most 4096), and the UUID
/// is unset before 1.19.1 and set from 1.20.2.
#[verifier::spinoff_prover]
#[verifier::rlimit(40)]
pub proof fn law_login_start_round_trip(
    name: Seq<char>,
    uuid: Option<u128>,
    key: Option<(i64, Seq<u8>, Seq<u8>)>,
    version: i32,
    rest: Seq<u8>,
)
    requires
        1 <= name.len() <= 16,
        key matches Some((ts, pk, sg)) ==> V1_19 <= version < V1_19_3 && pk.len() <= 512 && sg.len() <= 4096,
        version < V1_19_1 ==> uuid is None,
        version >= V1_20_2 ==> uuid is Some,
    ensures
        packet_round_trips::<SLoginStart>(
            SLoginStartView { name, uuid, signature_data: player_key_data(key) },
            version,
            rest,
        ),
{
    let p = SLoginStartView { name, uuid, signature_data: player_key_data(key) };
    lemma_string_round_trip(name, seq![], 16, eof());
    let n = string_bytes(name).unwrap();
    if version >= V1_19 {
        let k = player_key_bytes(player_key_data(key), version);
        let u = login_uuid_bytes(uuid, version);
        assert(n + (k + u) + rest =~= n + (k + (u + rest)));
        lemma_string_round_trip(name, k + (u + rest), 16, eof());
        lemma_player_key_round_trip(key, version, u + rest);
        lemma_login_uuid_round_trip(uuid, version, rest);
    } else {
        assert(n + seq![] + rest =~= n + rest);
        lemma_string_round_trip(name, rest, 16, eof());
    }
}

/// A property whose strings fit the protocol limit.
pub open spec fn property_fits(q: PropertyView) -> bool {
    &&& q.name.len() <= MAX_STRING_CHARS
    &&& q.value.len() <= MAX_STRING_CHARS
    &&& q.signature matches Some(s) ==> s.len() <= MAX_STRING_CHARS
}

/// Properties whose strings all fit the protocol limit.
pub open spec fn properties_fit(ps: Seq<PropertyView>) -> bool {
    forall|i: int| 0 <= i < ps.len() ==> property_fits(#[trigger] ps[i])
}

proof fn lemma_properties_bytes_cons(q: PropertyView, ps: Seq<PropertyView>)
    requires
        property_fits(q),
        properties_fit(ps),
    ensures
        property_bytes(q) is Ok,
        properties_bytes(ps) is Ok,
        properties_bytes(seq![q] + ps) == Ok::<Seq<u8>, ErrorClass>(
            property_bytes(q).unwrap() + properties_bytes(ps).unwrap(),
        ),
    decreases ps.len(),
{
    lemma_property_round_trip(q, seq![]);
    assert(properties_bytes(Seq::<PropertyView>::empty()) == Ok::<Seq<u8>, ErrorClass>(seq![]));
    if ps.len() == 0 {
        assert(seq![q] + ps =~= seq![q]);
        assert(seq![q].drop_last() =~= Seq::<PropertyView>::empty());
        assert(Seq::<u8>::empty() + property_bytes(q).unwrap() =~= property_bytes(q).unwrap()
            + Seq::<u8>::empty());
    } else {
        let init = ps.drop_last();
        assert(properties_fit(init)) by {
            assert forall|i: int| 0 <= i < init.len() implies property_fits(#[trigger] init[i]) by {
                assert(init[i] == ps[i]);
            }
        }
        assert(property_fits(ps.last())) by {
            assert(ps.last() == ps[ps.len() - 1]);
        }
        lemma_property_round_trip(ps.last(), seq![]);
        lemma_properties_bytes_cons(q, init);
        assert((seq![q] + ps).drop_last() =~= seq![q] + init);
        assert((seq![q] + ps).last() == ps.last());
        let a = property_bytes(q).unwrap();
        let b = properties_bytes(init).unwrap();
        let c = property_bytes(ps.last()).unwrap();
        assert(a + b + c =~= a + (b + c));
    }
}

#[verifier::spinoff_prover]
#[verifier::rlimit(40)]
proof fn lemma_properties_round_trip(ps: Seq<PropertyView>, rest: Seq<u8>)
    requires
        properties_fit(ps),
    ensures
        properties_bytes(ps) is Ok,
        p_properties(properties_bytes(ps).unwrap() + rest, ps.len()) == Ok::<
            (Seq<PropertyView>, Seq<u8>),
            ErrorClass,
        >((ps, rest)),
    decreases ps.len(),
{
    if ps.len() == 0 {
        assert(ps =~= Seq::<PropertyView>::empty());
        assert(properties_bytes(ps) == Ok::<Seq<u8>, ErrorClass>(seq![]));
        assert(Seq::<u8>::empty() + rest =~= rest);
    } else {
        let q = ps[0];
        let tl = ps.drop_first();
        assert(ps =~= seq![q] + tl);
        assert(properties_fit(tl)) by {
            assert forall|i: int| 0 <= i < tl.len() implies property_fits(#[trigger] tl[i]) by {
                assert(tl[i] == ps[i + 1]);
            }
        }
        lemma_properties_bytes_cons(q, tl);
        lemma_properties_round_trip(tl, rest);
        let a = property_bytes(q).unwrap();
        let b = properties_bytes(tl).unwrap();
        assert(properties_bytes(ps).unwrap() + rest =~= a + (b + rest));
        lemma_property_round_trip(q, b + rest);
        assert(p_property(a + (b + rest)) == Ok::<(PropertyView, Seq<u8>), ErrorClass>((q, b + rest)));
        assert(p_properties(b + rest, tl.len()) == Ok::<(Seq<PropertyView>, Seq<u8>), ErrorClass>(
            (tl, rest),
        ));
        assert(p_properties(a + (b + rest), ps.len()) == Ok::<(Seq<PropertyView>, Seq<u8>), ErrorClass>(
            (seq![q] + tl, rest),
        ));
    }
}

proof fn lemma_property_round_trip(q: PropertyView, rest: Seq<u8>)
    requires
        q.name.len() <= MAX_STRING_CHARS,
        q.value.len() <= MAX_STRING_CHARS,
        q.signature matches Some(s) ==> s.len() <= MAX_STRING_CHARS,
    ensures
        property_bytes(q) is Ok,
        p_property(property_bytes(q).unwrap() + rest) == Ok::<(PropertyView, Seq<u8>), ErrorClass>(
            (q, rest),
        ),
{
    lemma_string_round_trip(q.name, seq![], MAX_STRING_CHARS as nat, eof());
    lemma_string_round_trip(q.value, seq![], MAX_STRING_CHARS as nat, eof());
    let nb = string_bytes(q.name).unwrap();
    let vb = string_bytes(q.value).unwrap();
    match q.signature {
        Some(sig) => {
            lemma_string_round_trip(sig, seq![], MAX_STRING_CHARS as nat, eof());
            let sb = string_bytes(sig).unwrap();
            assert(nb + vb + bool_bytes(true) + sb + rest =~= nb + (vb + (bool_bytes(true) + (sb
                + rest))));
            lemma_string_round_trip(q.name, vb + (bool_bytes(true) + (sb + rest)), MAX_STRING_CHARS as nat, eof());
            lemma_string_round_trip(q.value, bool_bytes(true) + (sb + rest), MAX_STRING_CHARS as nat, eof());
            lemma_p_byte_round_trips(0, true, sb + rest, eof());
            lemma_string_round_trip(sig, rest, MAX_STRING_CHARS as nat, eof());
        },
        None => {
            assert(nb + vb + bool_bytes(false) + rest =~= nb + (vb + (bool_bytes(false) + rest)));
            lemma_string_round_trip(q.name, vb + (bool_bytes(false) + rest), MAX_STRING_CHARS as nat, eof());
            lemma_string_round_trip(q.value, bool_bytes(false) + rest, MAX_STRING_CHARS as nat, eof());
            lemma_p_byte_round_trips(0, false, rest, eof());
        },
    }
}

/// The UUID of a login success reads back as written: in binary from 1.16,
/// as the text `uuid` writes and parses before.
proof fn lemma_success_uuid_round_trip(u: u128, version: i32, rest: Seq<u8>)
    ensures
        success_uuid_bytes(u, version) is Ok,
        p_success_uuid(success_uuid_bytes(u, version).unwrap() + rest, version) == Ok::<
            (u128, Seq<u8>),
            ErrorClass,
        >((u, rest)),
{
    law_uuid_text_round_trip(u);
    if version >= V1_16 {
        lemma_p_u128_round_trip(u, rest, eof());
    } else if version >= V1_7_6 {
        assert(uuid_hyphenated_text(u).len() == 36);
        lemma_string_round_trip(uuid_hyphenated_text(u), rest, 36, eof());
    } else {
        assert(uuid_simple_text(u).len() == 32);
        lemma_string_round_trip(uuid_simple_text(u), rest, 32, eof());
    }
}

#[verifier::spinoff_prover]
#[verifier::rlimit(40)]
proof fn lemma_login_success_exact_round_trip(p: CLoginSuccessView, version: i32, rest: Seq<u8>)
    requires
        p.username.len() <= 16,
        properties_fit(p.properties),
        p.properties.len() <= i32::MAX,
        version < V1_19 ==> p.properties.len() == 0,
        !has_strict_flag(version) ==> !p.strict_error_handling,
    ensures
        packet_round_trips::<CLoginSuccess>(p, version, rest),
{
    lemma_success_uuid_round_trip(p.uuid, version, seq![]);
    let u = success_uuid_bytes(p.uuid, version).unwrap();
    lemma_string_round_trip(p.username, seq![], 16, eof());
    let n = string_bytes(p.username).unwrap();
    lemma_properties_round_trip(p.properties, seq![]);
    let props = if version >= V1_19 {
        varint_bytes(p.properties.len() as i32) + properties_bytes(p.properties).unwrap()
    } else {
        seq![]
    };
    let tail = if has_strict_flag(version) {
        bool_bytes(p.strict_error_handling)
    } else {
        seq![]
    };
    assert(u + n + props + tail + rest =~= u + (n + (props + (tail + rest))));
    lemma_success_uuid_round_trip(p.uuid, version, n + (props + (tail + rest)));
    lemma_string_round_trip(p.username, props + (tail + rest), 16, eof());
    if version >= V1_19 {
        let c = p.properties.len() as i32;
        let pb = properties_bytes(p.properties).unwrap();
        assert(props + (tail + rest) =~= varint_bytes(c) + (pb + (tail + rest)));
        lemma_varint_round_trip(c, pb + (tail + rest), eof());
        assert((c as usize) as nat == p.properties.len());
        lemma_properties_round_trip(p.properties, tail + rest);
    } else {
        assert(props + (tail + rest) =~= tail + rest);
        assert(p.properties =~= Seq::<PropertyView>::empty());
    }
    assert((if version >= V1_19 {
        match p_varint(props + (tail + rest), eof()) {
            Err(e) => Err(e),
            Ok((count, r3)) => p_properties(r3, (count as usize) as nat),
        }
    } else {
        Ok((seq![], props + (tail + rest)))
    }) == Ok::<(Seq<PropertyView>, Seq<u8>), ErrorClass>((p.properties, tail + rest)));
    if has_strict_flag(version) {
        lemma_p_byte_round_trips(0, p.strict_error_handling, rest, eof());
    } else {
        assert(tail + rest =~= rest);
    }
    assert(p_success_tail(p.uuid, p.username, p.properties, tail + rest, version) == Ok::<
        (CLoginSuccessView, Seq<u8>),
        ErrorClass,
    >((p, rest)));
    assert(CLoginSuccess::encoding(p, version) == Ok::<Seq<u8>, ErrorClass>(u + n + props + tail));
}

/// What a login success written for `version` reads back as: the
/// properties only from 1.19, the strict error handling flag only in
/// 1.20.5 and 1.21; the rest as written.
pub open spec fn login_success_read_back(p: CLoginSuccessView, version: i32) -> CLoginSuccessView {
    CLoginSuccessView {
        properties: if version >= V1_19 { p.properties } else { Seq::empty() },
        strict_error_handling: p.strict_error_handling && has_strict_flag(version),
        ..p
    }
}

/// A login success reads back as [`login_success_read_back`] gives (its
/// UUID in binary from 1.16, as text before), whatever follows it, when the
/// name has at most 16 characters and, from 1.19, the properties' strings
/// fit the protocol limit and their count an `i32`.
pub proof fn law_login_success_round_trip(p: CLoginSuccessView, version: i32, rest: Seq<u8>)
    requires
        p.username.len() <= 16,
        version >= V1_19 ==> properties_fit(p.properties) && p.properties.len() <= i32::MAX,
    ensures
        CLoginSuccess::encoding(p, version) is Ok,
        CLoginSuccess::parse(CLoginSuccess::encoding(p, version).unwrap() + rest, version) == Ok::<
            (CLoginSuccessView, Seq<u8>),
            ErrorClass,
        >((login_success_read_back(p, version), rest)),
{
    let q = login_success_read_back(p, version);
    assert(properties_fit(q.properties)) by {
        if version < V1_19 {
            assert(q.properties =~= Seq::<PropertyView>::empty());
        }
    }
    lemma_login_success_exact_round_trip(q, version, rest);
    assert(CLoginSuccess::encoding(p, version) == CLoginSuccess::encoding(q, version));
}

} // verus!
