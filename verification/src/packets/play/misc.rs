//! Small play-state packets: keep-alive, transfer, center chunk,
//! configuration handshakes and the chat session update.

use vstd::prelude::*;

use crate::codec::raw::{read_u32, read_u64, write_u32, write_u64};
use crate::codec::spec::{
    i32_bytes, i64_bytes, lemma_p_signed_round_trips, lemma_string_round_trip,
    lemma_varint_round_trip, p_i32, p_i64, p_string, p_varint, string_bytes, varint_bytes,
    SpecParse, MAX_STRING_CHARS,
};
use crate::codec::types::{encode_string, read_string};
use crate::codec::VarInt;
use crate::error::{eof, ErrorClass, ProtocolError, ProtocolResult};
use crate::packets::{packet_round_trips, Packet};
use crate::version::{ConnectionState, Direction, ProtocolVersion, V1_12_2, V1_8};

use crate::registry::PacketKind;

verus! {

/// A keep-alive ID as read for `version`: a big-endian `i64` from 1.12.2, a
/// `VarInt` from 1.8, a big-endian `i32` before.
pub open spec fn p_keepalive_id(s: Seq<u8>, version: i32) -> SpecParse<i64> {
    if version >= V1_12_2 {
        p_i64(s, eof())
    } else if version >= V1_8 {
        match p_varint(s, eof()) {
            Err(e) => Err(e),
            Ok((v, r)) => Ok((v as i64, r)),
        }
    } else {
        match p_i32(s, eof()) {
            Err(e) => Err(e),
            Ok((v, r)) => Ok((v as i64, r)),
        }
    }
}

/// The bytes of a keep-alive ID for `version`; before 1.12.2 the ID is
/// truncated to 32 bits.
pub open spec fn keepalive_id_bytes(id: i64, version: i32) -> Seq<u8> {
    if version >= V1_12_2 {
        i64_bytes(id)
    } else if version >= V1_8 {
        varint_bytes(id as i32)
    } else {
        i32_bytes(id as i32)
    }
}

fn decode_keepalive_id(r: &mut &[u8], version: ProtocolVersion) -> (res: ProtocolResult<i64>)
    ensures
        crate::codec::spec::parsed(p_keepalive_id(old(r)@, version.0), res, final(r)@),
{
    if version.no_less_than(ProtocolVersion(V1_12_2)) {
        match read_u64(r, true, "i64") {
            Ok(v) => Ok(v as i64),
            Err(e) => Err(e),
        }
    } else if version.no_less_than(ProtocolVersion(V1_8)) {
        match VarInt::read(r, true) {
            Ok(v) => Ok(v.0 as i64),
            Err(e) => Err(e),
        }
    } else {
        match read_u32(r, true, "i32") {
            Ok(v) => Ok((v as i32) as i64),
            Err(e) => Err(e),
        }
    }
}

fn encode_keepalive_id(w: &mut Vec<u8>, id: i64, version: ProtocolVersion)
    ensures
        final(w)@ == old(w)@ + keepalive_id_bytes(id, version.0),
{
    if version.no_less_than(ProtocolVersion(V1_12_2)) {
        write_u64(w, id as u64);
    } else if version.no_less_than(ProtocolVersion(V1_8)) {
        VarInt(id as i32).encode(w);
    } else {
        write_u32(w, (id as i32) as u32);
    }
}

/// Keep-alive packet (Clientbound): the server's liveness probe.
#[derive(Debug, Clone)]
pub struct CKeepAlive {
    pub id: i64,
}

/// Keep-alive packet (Serverbound): the client's answer, same format.
#[derive(Debug, Clone)]
pub struct SKeepAlive {
    pub id: i64,
}

impl View for CKeepAlive {
    type V = i64;

    open spec fn view(&self) -> i64 {
        self.id
    }
}

impl View for SKeepAlive {
    type V = i64;

    open spec fn view(&self) -> i64 {
        self.id
    }
}

impl Packet for CKeepAlive {
    open spec fn packet_state() -> ConnectionState {
        ConnectionState::Play
    }

    open spec fn packet_direction() -> Direction {
        Direction::Clientbound
    }

    open spec fn parse(s: Seq<u8>, version: i32) -> SpecParse<i64> {
        p_keepalive_id(s, version)
    }

    open spec fn encoding(p: i64, version: i32) -> Result<Seq<u8>, ErrorClass> {
        Ok(keepalive_id_bytes(p, version))
    }

    open spec fn name_text() -> Seq<char> {
        "CKeepAlive"@
    }

    fn name() -> (s: &'static str) {
        "CKeepAlive"
    }

    open spec fn packet_kind() -> PacketKind {
        PacketKind::CKeepAlive
    }

    fn kind() -> (k: PacketKind) {
        PacketKind::CKeepAlive
    }

    fn state() -> (s: ConnectionState) {
        ConnectionState::Play
    }

    fn direction() -> (d: Direction) {
        Direction::Clientbound
    }

    fn decode(r: &mut &[u8], version: ProtocolVersion) -> (res: ProtocolResult<CKeepAlive>) {
        match decode_keepalive_id(r, version) {
            Ok(id) => Ok(CKeepAlive { id }),
            Err(e) => Err(e),
        }
    }

    fn encode(&self, w: &mut Vec<u8>, version: ProtocolVersion) -> (res: ProtocolResult<()>) {
        encode_keepalive_id(w, self.id, version);
        Ok(())
    }
}

impl Packet for SKeepAlive {
    open spec fn packet_state() -> ConnectionState {
        ConnectionState::Play
    }

    open spec fn packet_direction() -> Direction {
        Direction::Serverbound
    }

    open spec fn parse(s: Seq<u8>, version: i32) -> SpecParse<i64> {
        p_keepalive_id(s, version)
    }

    open spec fn encoding(p: i64, version: i32) -> Result<Seq<u8>, ErrorClass> {
        Ok(keepalive_id_bytes(p, version))
    }

    open spec fn name_text() -> Seq<char> {
        "SKeepAlive"@
    }

    fn name() -> (s: &'static str) {
        "SKeepAlive"
    }

    open spec fn packet_kind() -> PacketKind {
        PacketKind::SKeepAlive
    }

    fn kind() -> (k: PacketKind) {
        PacketKind::SKeepAlive
    }

    fn state() -> (s: ConnectionState) {
        ConnectionState::Play
    }

    fn direction() -> (d: Direction) {
        Direction::Serverbound
    }

    fn decode(r: &mut &[u8], version: ProtocolVersion) -> (res: ProtocolResult<SKeepAlive>) {
        match decode_keepalive_id(r, version) {
            Ok(id) => Ok(SKeepAlive { id }),
            Err(e) => Err(e),
        }
    }

    fn encode(&self, w: &mut Vec<u8>, version: ProtocolVersion) -> (res: ProtocolResult<()>) {
        encode_keepalive_id(w, self.id, version);
        Ok(())
    }
}

/// Transfer packet (Clientbound, 1.20.5+): sends the client to another host.
#[derive(Debug, Clone)]
pub struct CTransfer {
    pub host: String,
    pub port: i32,
}

pub struct CTransferView {
    pub host: Seq<char>,
    pub port: i32,
}

impl View for CTransfer {
    type V = CTransferView;

    open spec fn view(&self) -> CTransferView {
        CTransferView { host: self.host@, port: self.port }
    }
}

impl Packet for CTransfer {
    open spec fn packet_state() -> ConnectionState {
        ConnectionState::Play
    }

    open spec fn packet_direction() -> Direction {
        Direction::Clientbound
    }

    open spec fn parse(s: Seq<u8>, version: i32) -> SpecParse<CTransferView> {
        match p_string(s, MAX_STRING_CHARS as nat, eof()) {
            Err(e) => Err(e),
            Ok((host, r1)) => match p_varint(r1, eof()) {
                Err(e) => Err(e),
                Ok((port, r2)) => Ok((CTransferView { host, port }, r2)),
            },
        }
    }

    open spec fn encoding(p: CTransferView, version: i32) -> Result<Seq<u8>, ErrorClass> {
        match string_bytes(p.host) {
            Err(e) => Err(e),
            Ok(h) => Ok(h + varint_bytes(p.port)),
        }
    }

    open spec fn name_text() -> Seq<char> {
        "CTransfer"@
    }

    fn name() -> (s: &'static str) {
        "CTransfer"
    }

    open spec fn packet_kind() -> PacketKind {
        PacketKind::CTransfer
    }

    fn kind() -> (k: PacketKind) {
        PacketKind::CTransfer
    }

    fn state() -> (s: ConnectionState) {
        ConnectionState::Play
    }

    fn direction() -> (d: Direction) {
        Direction::Clientbound
    }

    fn decode(r: &mut &[u8], version: ProtocolVersion) -> (res: ProtocolResult<CTransfer>) {
        let host = match read_string(r, MAX_STRING_CHARS, true) {
            Ok(h) => h,
            Err(e) => return Err(e),
        };
        match VarInt::read(r, true) {
            Ok(port) => Ok(CTransfer { host, port: port.0 }),
            Err(e) => Err(e),
        }
    }

    fn encode(&self, w: &mut Vec<u8>, version: ProtocolVersion) -> (res: ProtocolResult<()>) {
        match encode_string(self.host.as_str(), w) {
            Ok(()) => {},
            Err(e) => return Err(e),
        }
        VarInt(self.port).encode(w);
        assert(w@ =~= old(w)@ + (string_bytes(self.host@).unwrap() + varint_bytes(self.port)));
        Ok(())
    }
}

/// Set center chunk packet (Clientbound, 1.14+): the chunk at the center of
/// the view, needed before chunk data.
#[derive(Debug, Clone)]
pub struct CSetCenterChunk {
    pub chunk_x: i32,
    pub chunk_z: i32,
}

impl View for CSetCenterChunk {
    type V = (i32, i32);

    open spec fn view(&self) -> (i32, i32) {
        (self.chunk_x, self.chunk_z)
    }
}

impl Packet for CSetCenterChunk {
    open spec fn packet_state() -> ConnectionState {
        ConnectionState::Play
    }

    open spec fn packet_direction() -> Direction {
        Direction::Clientbound
    }

    open spec fn parse(s: Seq<u8>, version: i32) -> SpecParse<(i32, i32)> {
        match p_varint(s, eof()) {
            Err(e) => Err(e),
            Ok((x, r1)) => match p_varint(r1, eof()) {
                Err(e) => Err(e),
                Ok((z, r2)) => Ok(((x, z), r2)),
            },
        }
    }

    open spec fn encoding(p: (i32, i32), version: i32) -> Result<Seq<u8>, ErrorClass> {
        Ok(varint_bytes(p.0) + varint_bytes(p.1))
    }

    open spec fn name_text() -> Seq<char> {
        "CSetCenterChunk"@
    }

    fn name() -> (s: &'static str) {
        "CSetCenterChunk"
    }

    open spec fn packet_kind() -> PacketKind {
        PacketKind::CSetCenterChunk
    }

    fn kind() -> (k: PacketKind) {
        PacketKind::CSetCenterChunk
    }

    fn state() -> (s: ConnectionState) {
        ConnectionState::Play
    }

    fn direction() -> (d: Direction) {
        Direction::Clientbound
    }

    fn decode(r: &mut &[u8], version: ProtocolVersion) -> (res: ProtocolResult<CSetCenterChunk>) {
        let chunk_x = match VarInt::read(r, true) {
            Ok(v) => v.0,
            Err(e) => return Err(e),
        };
        match VarInt::read(r, true) {
            Ok(z) => Ok(CSetCenterChunk { chunk_x, chunk_z: z.0 }),
            Err(e) => Err(e),
        }
    }

    fn encode(&self, w: &mut Vec<u8>, version: ProtocolVersion) -> (res: ProtocolResult<()>) {
        VarInt(self.chunk_x).encode(w);
        VarInt(self.chunk_z).encode(w);
        assert(w@ =~= old(w)@ + (varint_bytes(self.chunk_x) + varint_bytes(self.chunk_z)));
        Ok(())
    }
}

/// Start configuration packet (Clientbound, 1.20.2+): empty, sends the client back to the Config state.
#[derive(Debug, Clone)]
pub struct CStartConfiguration;

impl View for CStartConfiguration {
    type V = ();

    open spec fn view(&self) -> () {
        ()
    }
}

impl Packet for CStartConfiguration {
    open spec fn packet_state() -> ConnectionState {
        ConnectionState::Play
    }

    open spec fn packet_direction() -> Direction {
        Direction::Clientbound
    }

    open spec fn parse(s: Seq<u8>, version: i32) -> SpecParse<()> {
        Ok(((), s))
    }

    open spec fn encoding(p: (), version: i32) -> Result<Seq<u8>, ErrorClass> {
        Ok(seq![])
    }

    open spec fn name_text() -> Seq<char> {
        "CStartConfiguration"@
    }

    fn name() -> (s: &'static str) {
        "CStartConfiguration"
    }

    open spec fn packet_kind() -> PacketKind {
        PacketKind::CStartConfiguration
    }

    fn kind() -> (k: PacketKind) {
        PacketKind::CStartConfiguration
    }

    fn state() -> (s: ConnectionState) {
        ConnectionState::Play
    }

    fn direction() -> (d: Direction) {
        Direction::Clientbound
    }

    fn decode(r: &mut &[u8], version: ProtocolVersion) -> (res: ProtocolResult<CStartConfiguration>) {
        Ok(CStartConfiguration)
    }

    fn encode(&self, w: &mut Vec<u8>, version: ProtocolVersion) -> (res: ProtocolResult<()>) {
        assert(w@ =~= old(w)@ + seq![]);
        Ok(())
    }
}

/// Acknowledge configuration packet (Serverbound, 1.20.2+): empty, the client's answer to a start configuration.
#[derive(Debug, Clone)]
pub struct SAcknowledgeConfiguration;

impl View for SAcknowledgeConfiguration {
    type V = ();

    open spec fn view(&self) -> () {
        ()
    }
}

impl Packet for SAcknowledgeConfiguration {
    open spec fn packet_state() -> ConnectionState {
        ConnectionState::Play
    }

    open spec fn packet_direction() -> Direction {
        Direction::Serverbound
    }

    open spec fn parse(s: Seq<u8>, version: i32) -> SpecParse<()> {
        Ok(((), s))
    }

    open spec fn encoding(p: (), version: i32) -> Result<Seq<u8>, ErrorClass> {
        Ok(seq![])
    }

    open spec fn name_text() -> Seq<char> {
        "SAcknowledgeConfiguration"@
    }

    fn name() -> (s: &'static str) {
        "SAcknowledgeConfiguration"
    }

    open spec fn packet_kind() -> PacketKind {
        PacketKind::SAcknowledgeConfiguration
    }

    fn kind() -> (k: PacketKind) {
        PacketKind::SAcknowledgeConfiguration
    }

    fn state() -> (s: ConnectionState) {
        ConnectionState::Play
    }

    fn direction() -> (d: Direction) {
        Direction::Serverbound
    }

    fn decode(r: &mut &[u8], version: ProtocolVersion) -> (res: ProtocolResult<SAcknowledgeConfiguration>) {
        Ok(SAcknowledgeConfiguration)
    }

    fn encode(&self, w: &mut Vec<u8>, version: ProtocolVersion) -> (res: ProtocolResult<()>) {
        assert(w@ =~= old(w)@ + seq![]);
        Ok(())
    }
}

/// Chat session update packet (Serverbound): the player's signed chat
/// session key. The proxy never decodes it (decoding is `Invalid`) and
/// writes nothing for it.
#[derive(Debug, Clone)]
pub struct SChatSessionUpdate;

impl View for SChatSessionUpdate {
    type V = ();

    open spec fn view(&self) -> () {
        ()
    }
}

impl Packet for SChatSessionUpdate {
    open spec fn packet_state() -> ConnectionState {
        ConnectionState::Play
    }

    open spec fn packet_direction() -> Direction {
        Direction::Serverbound
    }

    open spec fn parse(s: Seq<u8>, version: i32) -> SpecParse<()> {
        Err(ErrorClass::Invalid)
    }

    open spec fn encoding(p: (), version: i32) -> Result<Seq<u8>, ErrorClass> {
        Ok(seq![])
    }

    open spec fn name_text() -> Seq<char> {
        "SChatSessionUpdate"@
    }

    fn name() -> (s: &'static str) {
        "SChatSessionUpdate"
    }

    open spec fn packet_kind() -> PacketKind {
        PacketKind::SChatSessionUpdate
    }

    fn kind() -> (k: PacketKind) {
        PacketKind::SChatSessionUpdate
    }

    fn state() -> (s: ConnectionState) {
        ConnectionState::Play
    }

    fn direction() -> (d: Direction) {
        Direction::Serverbound
    }

    fn decode(r: &mut &[u8], version: ProtocolVersion) -> (res: ProtocolResult<SChatSessionUpdate>) {
        Err(ProtocolError::invalid("SChatSessionUpdate is not decoded by the proxy"))
    }

    fn encode(&self, w: &mut Vec<u8>, version: ProtocolVersion) -> (res: ProtocolResult<()>) {
        assert(w@ =~= old(w)@ + seq![]);
        Ok(())
    }
}

/// Keep-alive IDs read back as written, for the clientbound and the
/// serverbound packet alike, when they fit the version's format (32 bits
/// before 1.12.2); the two directions share one wire format.
pub proof fn law_keepalive_round_trip(id: i64, version: i32, rest: Seq<u8>)
    requires
        version < V1_12_2 ==> i32::MIN <= id <= i32::MAX,
    ensures
        packet_round_trips::<CKeepAlive>(id, version, rest),
        packet_round_trips::<SKeepAlive>(id, version, rest),
        CKeepAlive::encoding(id, version) == SKeepAlive::encoding(id, version),
{
    lemma_p_signed_round_trips(0, 0, id as i32, id, rest, eof());
    lemma_varint_round_trip(id as i32, rest, eof());
}

/// Transfer and center-chunk packets, and the empty configuration packets,
/// read back as written (a transfer host of at most 32767 characters).
pub proof fn law_play_small_round_trips(t: CTransferView, center: (i32, i32), version: i32, rest: Seq<u8>)
    requires
        t.host.len() <= MAX_STRING_CHARS,
    ensures
        packet_round_trips::<CTransfer>(t, version, rest),
        packet_round_trips::<CSetCenterChunk>(center, version, rest),
        packet_round_trips::<CStartConfiguration>((), version, rest),
        packet_round_trips::<SAcknowledgeConfiguration>((), version, rest),
{
    let h = string_bytes(t.host).unwrap();
    lemma_string_round_trip(t.host, seq![], MAX_STRING_CHARS as nat, eof());
    assert(h + varint_bytes(t.port) + rest =~= h + (varint_bytes(t.port) + rest));
    lemma_string_round_trip(t.host, varint_bytes(t.port) + rest, MAX_STRING_CHARS as nat, eof());
    lemma_varint_round_trip(t.port, rest, eof());
    assert(varint_bytes(center.0) + varint_bytes(center.1) + rest =~= varint_bytes(center.0) + (
    varint_bytes(center.1) + rest));
    lemma_varint_round_trip(center.0, varint_bytes(center.1) + rest, eof());
    lemma_varint_round_trip(center.1, rest, eof());
    assert(seq![] + rest =~= rest);
}

} // verus!
