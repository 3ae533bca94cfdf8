//! Server-list status packets.

use vstd::prelude::*;

use super::{packet_round_trips, Packet};
use crate::codec::raw::{read_u64, write_u64};
use crate::codec::spec::{
    i64_bytes, lemma_p_signed_round_trips, lemma_string_round_trip, p_i64, p_string,
    string_bytes, SpecParse, MAX_STRING_CHARS,
};
use crate::codec::types::{encode_string, read_string};
use crate::error::{eof, ErrorClass, ProtocolResult};
use crate::version::{ConnectionState, Direction, ProtocolVersion};

use crate::registry::PacketKind;

verus! {

/// Status request packet (Serverbound, 0x00): empty, asks for the status JSON.
#[derive(Debug, Clone)]
pub struct SStatusRequest;

impl View for SStatusRequest {
    type V = ();

    open spec fn view(&self) -> () {
        ()
    }
}

impl Packet for SStatusRequest {
    open spec fn packet_state() -> ConnectionState {
        ConnectionState::Status
    }

    open spec fn packet_direction() -> Direction {
        Direction::Serverbound
    }

    open spec fn parse(s: Seq<u8>, version: i32) -> SpecParse<()> {
        Ok(((), s))
    }

    open spec fn encoding(p: (), version: i32) -> Result<Seq<u8>, ErrorClass> {
        Ok(seq![])
    }

    open spec fn name_text() -> Seq<char> {
        "SStatusRequest"@
    }

    fn name() -> (s: &'static str) {
        "SStatusRequest"
    }

    open spec fn packet_kind() -> PacketKind {
        PacketKind::SStatusRequest
    }

    fn kind() -> (k: PacketKind) {
        PacketKind::SStatusRequest
    }

    fn state() -> (s: ConnectionState) {
        ConnectionState::Status
    }

    fn direction() -> (d: Direction) {
        Direction::Serverbound
    }

    fn decode(r: &mut &[u8], version: ProtocolVersion) -> (res: ProtocolResult<SStatusRequest>) {
        Ok(SStatusRequest)
    }

    fn encode(&self, w: &mut Vec<u8>, version: ProtocolVersion) -> (res: ProtocolResult<()>) {
        assert(w@ =~= old(w)@ + seq![]);
        Ok(())
    }
}

/// Status response packet (Clientbound, 0x00): the server's status as a JSON
/// string, which the proxy treats as opaque text.
#[derive(Debug, Clone)]
pub struct CStatusResponse {
    pub json_response: String,
}

impl View for CStatusResponse {
    type V = Seq<char>;

    open spec fn view(&self) -> Seq<char> {
        self.json_response@
    }
}

impl Packet for CStatusResponse {
    open spec fn packet_state() -> ConnectionState {
        ConnectionState::Status
    }

    open spec fn packet_direction() -> Direction {
        Direction::Clientbound
    }

    open spec fn parse(s: Seq<u8>, version: i32) -> SpecParse<Seq<char>> {
        p_string(s, MAX_STRING_CHARS as nat, eof())
    }

    open spec fn encoding(p: Seq<char>, version: i32) -> Result<Seq<u8>, ErrorClass> {
        string_bytes(p)
    }

    open spec fn name_text() -> Seq<char> {
        "CStatusResponse"@
    }

    fn name() -> (s: &'static str) {
        "CStatusResponse"
    }

    open spec fn packet_kind() -> PacketKind {
        PacketKind::CStatusResponse
    }

    fn kind() -> (k: PacketKind) {
        PacketKind::CStatusResponse
    }

    fn state() -> (s: ConnectionState) {
        ConnectionState::Status
    }

    fn direction() -> (d: Direction) {
        Direction::Clientbound
    }

    fn decode(r: &mut &[u8], version: ProtocolVersion) -> (res: ProtocolResult<CStatusResponse>) {
        match read_string(r, MAX_STRING_CHARS, true) {
            Ok(json_response) => Ok(CStatusResponse { json_response }),
            Err(e) => Err(e),
        }
    }

    fn encode(&self, w: &mut Vec<u8>, version: ProtocolVersion) -> (res: ProtocolResult<()>) {
        encode_string(self.json_response.as_str(), w)
    }
}

/// Ping request packet (Serverbound, 0x01): a payload (typically a
/// timestamp) for the server to echo.
#[derive(Debug, Clone)]
pub struct SPingRequest {
    pub payload: i64,
}

impl View for SPingRequest {
    type V = i64;

    open spec fn view(&self) -> i64 {
        self.payload
    }
}

impl Packet for SPingRequest {
    open spec fn packet_state() -> ConnectionState {
        ConnectionState::Status
    }

    open spec fn packet_direction() -> Direction {
        Direction::Serverbound
    }

    open spec fn parse(s: Seq<u8>, version: i32) -> SpecParse<i64> {
        p_i64(s, eof())
    }

    open spec fn encoding(p: i64, version: i32) -> Result<Seq<u8>, ErrorClass> {
        Ok(i64_bytes(p))
    }

    open spec fn name_text() -> Seq<char> {
        "SPingRequest"@
    }

    fn name() -> (s: &'static str) {
        "SPingRequest"
    }

    open spec fn packet_kind() -> PacketKind {
        PacketKind::SPingRequest
    }

    fn kind() -> (k: PacketKind) {
        PacketKind::SPingRequest
    }

    fn state() -> (s: ConnectionState) {
        ConnectionState::Status
    }

    fn direction() -> (d: Direction) {
        Direction::Serverbound
    }

    fn decode(r: &mut &[u8], version: ProtocolVersion) -> (res: ProtocolResult<SPingRequest>) {
        match read_u64(r, true, "i64") {
            Ok(v) => Ok(SPingRequest { payload: v as i64 }),
            Err(e) => Err(e),
        }
    }

    fn encode(&self, w: &mut Vec<u8>, version: ProtocolVersion) -> (res: ProtocolResult<()>) {
        write_u64(w, self.payload as u64);
        Ok(())
    }
}

/// Ping response packet (Clientbound, 0x01): echoes the client's payload.
#[derive(Debug, Clone)]
pub struct CPingResponse {
    pub payload: i64,
}

impl View for CPingResponse {
    type V = i64;

    open spec fn view(&self) -> i64 {
        self.payload
    }
}

impl Packet for CPingResponse {
    open spec fn packet_state() -> ConnectionState {
        ConnectionState::Status
    }

    open spec fn packet_direction() -> Direction {
        Direction::Clientbound
    }

    open spec fn parse(s: Seq<u8>, version: i32) -> SpecParse<i64> {
        p_i64(s, eof())
    }

    open spec fn encoding(p: i64, version: i32) -> Result<Seq<u8>, ErrorClass> {
        Ok(i64_bytes(p))
    }

    open spec fn name_text() -> Seq<char> {
        "CPingResponse"@
    }

    fn name() -> (s: &'static str) {
        "CPingResponse"
    }

    open spec fn packet_kind() -> PacketKind {
        PacketKind::CPingResponse
    }

    fn kind() -> (k: PacketKind) {
        PacketKind::CPingResponse
    }

    fn state() -> (s: ConnectionState) {
        ConnectionState::Status
    }

    fn direction() -> (d: Direction) {
        Direction::Clientbound
    }

    fn decode(r: &mut &[u8], version: ProtocolVersion) -> (res: ProtocolResult<CPingResponse>) {
        match read_u64(r, true, "i64") {
            Ok(v) => Ok(CPingResponse { payload: v as i64 }),
            Err(e) => Err(e),
        }
    }

    fn encode(&self, w: &mut Vec<u8>, version: ProtocolVersion) -> (res: ProtocolResult<()>) {
        write_u64(w, self.payload as u64);
        Ok(())
    }
}

/// The status packets read back as written (a status JSON of at most 32767
/// characters); a ping response echoes exactly the bytes of the ping request.
pub proof fn law_status_round_trips(json: Seq<char>, payload: i64, version: i32, rest: Seq<u8>)
    requires
        json.len() <= MAX_STRING_CHARS,
    ensures
        packet_round_trips::<SStatusRequest>((), version, rest),
        packet_round_trips::<CStatusResponse>(json, version, rest),
        packet_round_trips::<SPingRequest>(payload, version, rest),
        packet_round_trips::<CPingResponse>(payload, version, rest),
        SPingRequest::encoding(payload, version) == CPingResponse::encoding(payload, version),
{
    assert(seq![] + rest =~= rest);
    lemma_string_round_trip(json, rest, MAX_STRING_CHARS as nat, eof());
    lemma_p_signed_round_trips(0, 0, 0, payload, rest, eof());
}

} // verus!
