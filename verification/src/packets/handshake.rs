//! The handshake packet, first of every modern connection.

use vstd::prelude::*;

use super::{packet_round_trips, Packet};
use crate::codec::raw::{read_u16, write_u16};
use crate::codec::spec::{
    lemma_p_u16_round_trip, lemma_string_round_trip, lemma_varint_round_trip, p_string, p_u16, p_varint, string_bytes,
    u16_bytes, varint_bytes, SpecParse,
};
use crate::codec::types::{encode_string, read_string};
use crate::codec::VarInt;
use crate::error::{eof, ErrorClass, ProtocolError, ProtocolResult};
use crate::version::{handshake_id_of, state_of_handshake_id, ConnectionState, Direction, ProtocolVersion};

use crate::registry::PacketKind;

verus! {

/// Maximum length of the server address, in characters.
pub const MAX_ADDRESS_CHARS: usize = 255;

/// Handshake packet (Serverbound, 0x00).
///
/// Always the first packet sent by the client: its protocol version, the
/// server address it targets (used for domain-based routing; it may carry
/// Forge markers such as `"play.example.com\0FML\0"`, which are kept), the
/// port, and the intent: Status (1), Login (2) or Transfer (3, read as Login).
#[derive(Debug, Clone)]
pub struct SHandshake {
    /// Client's protocol version (e.g., 767 for MC 1.21).
    pub protocol_version: VarInt,
    /// Server address as entered by the player. Max 255 chars.
    pub server_address: String,
    /// Server port.
    pub server_port: u16,
    /// Client's intent.
    pub next_state: ConnectionState,
}

/// The content of an [`SHandshake`].
pub struct SHandshakeView {
    pub protocol_version: i32,
    pub server_address: Seq<char>,
    pub server_port: u16,
    pub next_state: ConnectionState,
}

impl View for SHandshake {
    type V = SHandshakeView;

    open spec fn view(&self) -> SHandshakeView {
        SHandshakeView {
            protocol_version: self.protocol_version.0,
            server_address: self.server_address@,
            server_port: self.server_port,
            next_state: self.next_state,
        }
    }
}

impl Packet for SHandshake {
    open spec fn packet_state() -> ConnectionState {
        ConnectionState::Handshake
    }

    open spec fn packet_direction() -> Direction {
        Direction::Serverbound
    }

    /// A `VarInt` version, a string of at most 255 characters, a big-endian
    /// port and a `VarInt` intent; an unknown intent is `Invalid`.
    open spec fn parse(s: Seq<u8>, version: i32) -> SpecParse<SHandshakeView> {
        match p_varint(s, eof()) {
            Err(e) => Err(e),
            Ok((pv, r1)) => match p_string(r1, MAX_ADDRESS_CHARS as nat, eof()) {
                Err(e) => Err(e),
                Ok((addr, r2)) => match p_u16(r2, eof()) {
                    Err(e) => Err(e),
                    Ok((port, r3)) => match p_varint(r3, eof()) {
                        Err(e) => Err(e),
                        Ok((id, r4)) => match state_of_handshake_id(id) {
                            None => Err(ErrorClass::Invalid),
                            Some(st) => Ok(
                                (
                                    SHandshakeView {
                                        protocol_version: pv,
                                        server_address: addr,
                                        server_port: port,
                                        next_state: st,
                                    },
                                    r4,
                                ),
                            ),
                        },
                    },
                },
            },
        }
    }

    /// A state that a handshake cannot request is `Invalid`.
    open spec fn encoding(p: SHandshakeView, version: i32) -> Result<Seq<u8>, ErrorClass> {
        match string_bytes(p.server_address) {
            Err(e) => Err(e),
            Ok(addr) => match handshake_id_of(p.next_state) {
                None => Err(ErrorClass::Invalid),
                Some(id) => Ok(
                    varint_bytes(p.protocol_version) + addr + u16_bytes(p.server_port)
                        + varint_bytes(id),
                ),
            },
        }
    }

    open spec fn name_text() -> Seq<char> {
        "SHandshake"@
    }

    fn name() -> (s: &'static str) {
        "SHandshake"
    }

    open spec fn packet_kind() -> PacketKind {
        PacketKind::SHandshake
    }

    fn kind() -> (k: PacketKind) {
        PacketKind::SHandshake
    }

    fn state() -> (s: ConnectionState) {
        ConnectionState::Handshake
    }

    fn direction() -> (d: Direction) {
        Direction::Serverbound
    }

    fn decode(r: &mut &[u8], version: ProtocolVersion) -> (res: ProtocolResult<SHandshake>) {
        let protocol_version = match VarInt::read(r, true) {
            Ok(v) => v,
            Err(e) => return Err(e),
        };
        let server_address = match read_string(r, MAX_ADDRESS_CHARS, true) {
            Ok(s) => s,
            Err(e) => return Err(e),
        };
        let server_port = match read_u16(r, true, "u16") {
            Ok(p) => p,
            Err(e) => return Err(e),
        };
        let next_state_id = match VarInt::read(r, true) {
            Ok(v) => v,
            Err(e) => return Err(e),
        };
        let next_state = match ConnectionState::from_handshake_id(next_state_id.0) {
            Some(s) => s,
            None => return Err(ProtocolError::invalid("invalid handshake next_state")),
        };
        Ok(SHandshake { protocol_version, server_address, server_port, next_state })
    }

    fn encode(&self, w: &mut Vec<u8>, version: ProtocolVersion) -> (res: ProtocolResult<()>) {
        self.protocol_version.encode(w);
        let ghost a = w@;
        match encode_string(self.server_address.as_str(), w) {
            Ok(()) => {},
            Err(e) => return Err(e),
        }
        let ghost b = w@;
        write_u16(w, self.server_port);
        let state_id = match self.next_state.handshake_id() {
            Some(id) => id,
            None => return Err(ProtocolError::invalid("cannot encode handshake next_state")),
        };
        VarInt(state_id).encode(w);
        assert(w@ =~= old(w)@ + (varint_bytes(self.protocol_version.0) + string_bytes(
            self.server_address@,
        ).unwrap() + u16_bytes(self.server_port) + varint_bytes(state_id)));
        Ok(())
    }
}

/// A handshake whose address fits in 255 characters and whose intent is
/// Status or Login reads back as written.
pub proof fn law_handshake_round_trip(p: SHandshakeView, version: i32, rest: Seq<u8>)
    requires
        p.server_address.len() <= MAX_ADDRESS_CHARS,
        p.next_state == ConnectionState::Status || p.next_state == ConnectionState::Login,
    ensures
        packet_round_trips::<SHandshake>(p, version, rest),
{
    let id: i32 = if p.next_state == ConnectionState::Status { 1 } else { 2 };
    let addr = string_bytes(p.server_address).unwrap();
    lemma_string_round_trip(p.server_address, seq![], MAX_ADDRESS_CHARS as nat, eof());
    let tail = u16_bytes(p.server_port) + varint_bytes(id) + rest;
    let all = varint_bytes(p.protocol_version) + addr + u16_bytes(p.server_port) + varint_bytes(id)
        + rest;
    assert(all =~= varint_bytes(p.protocol_version) + (addr + tail));
    lemma_varint_round_trip(p.protocol_version, addr + tail, eof());
    lemma_string_round_trip(p.server_address, tail, MAX_ADDRESS_CHARS as nat, eof());
    let t2 = varint_bytes(id) + rest;
    assert(tail =~= u16_bytes(p.server_port) + t2);
    lemma_p_u16_round_trip(p.server_port, t2, eof());
    lemma_varint_round_trip(id, rest, eof());
}

} // verus!
