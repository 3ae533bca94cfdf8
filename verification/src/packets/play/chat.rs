//! Chat packets.

use vstd::prelude::*;
use vstd::utf8::*;

use crate::codec::raw::{push_all, read_bool, read_u128, read_u8, write_u128};
use crate::codec::spec::{
    bool_bytes, lemma_p_byte_round_trips, lemma_p_u128_round_trip, lemma_string_round_trip, p_bool,
    p_string, p_u128, p_u8, string_bytes, u128_bytes, SpecParse, MAX_STRING_CHARS,
};
use crate::codec::types::{encode_string, read_remaining, read_string, utf8_text};
use crate::codec::Encode;
use crate::error::{eof, ErrorClass, ProtocolError, ProtocolResult};
use crate::packets::{packet_round_trips, Packet};
use crate::version::{ConnectionState, Direction, ProtocolVersion, V1_16, V1_20_3, V1_8};

use crate::registry::PacketKind;

verus! {

/// The UTF-8 bytes of a string, as an owned vector.
fn utf8_bytes(s: &str) -> (v: Vec<u8>)
    ensures
        v@ == encode_utf8(s@),
{
    let mut v: Vec<u8> = Vec::new();
    push_all(&mut v, s.as_bytes());
    assert(v@ =~= encode_utf8(s@));
    v
}

/// System chat message (Clientbound, 1.19+): the content is JSON text
/// before 1.20.3 and network NBT from 1.20.3, kept as raw bytes; `overlay`
/// puts it on the action bar.
#[derive(Debug, Clone)]
pub struct CSystemChatMessage {
    pub content: Vec<u8>,
    pub overlay: bool,
}

pub struct CSystemChatMessageView {
    pub content: Seq<u8>,
    pub overlay: bool,
}

impl View for CSystemChatMessage {
    type V = CSystemChatMessageView;

    open spec fn view(&self) -> CSystemChatMessageView {
        CSystemChatMessageView { content: self.content@, overlay: self.overlay }
    }
}

impl CSystemChatMessage {
    /// A message whose content is the given JSON text.
    pub fn from_json(json: &str, overlay: bool) -> (m: CSystemChatMessage)
        ensures
            m@ == (CSystemChatMessageView { content: encode_utf8(json@), overlay }),
    {
        CSystemChatMessage { content: utf8_bytes(json), overlay }
    }

    /// A message whose content is the given network NBT.
    pub fn from_nbt(nbt: Vec<u8>, overlay: bool) -> (m: CSystemChatMessage)
        ensures
            m@ == (CSystemChatMessageView { content: nbt@, overlay }),
    {
        CSystemChatMessage { content: nbt, overlay }
    }
}

impl Packet for CSystemChatMessage {
    open spec fn packet_state() -> ConnectionState {
        ConnectionState::Play
    }

    open spec fn packet_direction() -> Direction {
        Direction::Clientbound
    }

    open spec fn parse(s: Seq<u8>, version: i32) -> SpecParse<CSystemChatMessageView> {
        if version < V1_20_3 {
            match p_string(s, MAX_STRING_CHARS as nat, eof()) {
                Err(e) => Err(e),
                Ok((text, r1)) => match p_bool(r1, eof()) {
                    Err(e) => Err(e),
                    Ok((overlay, r2)) => Ok(
                        (CSystemChatMessageView { content: encode_utf8(text), overlay }, r2),
                    ),
                },
            }
        } else if s.len() == 0 {
            Err(ErrorClass::Invalid)
        } else {
            Ok(
                (
                    CSystemChatMessageView { content: s.drop_last(), overlay: s.last() != 0 },
                    seq![],
                ),
            )
        }
    }

    open spec fn encoding(p: CSystemChatMessageView, version: i32) -> Result<Seq<u8>, ErrorClass> {
        if version < V1_20_3 {
            if !valid_utf8(p.content) {
                Err(ErrorClass::Invalid)
            } else {
                match string_bytes(decode_utf8(p.content)) {
                    Err(e) => Err(e),
                    Ok(b) => Ok(b + bool_bytes(p.overlay)),
                }
            }
        } else {
            Ok(p.content + bool_bytes(p.overlay))
        }
    }

    open spec fn name_text() -> Seq<char> {
        "CSystemChatMessage"@
    }

    fn name() -> (s: &'static str) {
        "CSystemChatMessage"
    }

    open spec fn packet_kind() -> PacketKind {
        PacketKind::CSystemChatMessage
    }

    fn kind() -> (k: PacketKind) {
        PacketKind::CSystemChatMessage
    }

    fn state() -> (s: ConnectionState) {
        ConnectionState::Play
    }

    fn direction() -> (d: Direction) {
        Direction::Clientbound
    }

    fn decode(r: &mut &[u8], version: ProtocolVersion) -> (res: ProtocolResult<CSystemChatMessage>) {
        if version.less_than(ProtocolVersion(V1_20_3)) {
            let text = match read_string(r, MAX_STRING_CHARS, true) {
                Ok(t) => t,
                Err(e) => return Err(e),
            };
            let overlay = match read_bool(r, true) {
                Ok(b) => b,
                Err(e) => return Err(e),
            };
            Ok(CSystemChatMessage { content: utf8_bytes(text.as_str()), overlay })
        } else {
            let mut remaining = read_remaining(r);
            let n = remaining.len();
            if n == 0 {
                return Err(ProtocolError::invalid("CSystemChatMessage: empty payload"));
            }
            let last = remaining[n - 1];
            let overlay = last != 0;
            remaining.truncate(n - 1);
            assert(remaining@ =~= old(r)@.drop_last());
            Ok(CSystemChatMessage { content: remaining, overlay })
        }
    }

    fn encode(&self, w: &mut Vec<u8>, version: ProtocolVersion) -> (res: ProtocolResult<()>) {
        if version.less_than(ProtocolVersion(V1_20_3)) {
            let json = match utf8_text(self.content.as_slice()) {
                Some(t) => t,
                None => return Err(
                    ProtocolError::invalid("CSystemChatMessage content is not valid UTF-8 for JSON version"),
                ),
            };
            match encode_string(json.as_str(), w) {
                Ok(()) => {},
                Err(e) => return Err(e),
            }
        } else {
            push_all(w, self.content.as_slice());
        }
        self.overlay.encode(w);
        assert(w@ =~= old(w)@ + Self::encoding(self@, version.0).unwrap());
        Ok(())
    }
}

/// Chat message (Clientbound, before 1.19): JSON text, a position from 1.8
/// (read as 0 before), and from 1.16 a sender UUID that is skipped on
/// reading and written as the nil UUID.
#[derive(Debug, Clone)]
pub struct CChatMessageLegacy {
    pub content: String,
    pub position: u8,
}

pub struct CChatMessageLegacyView {
    pub content: Seq<char>,
    pub position: u8,
}

impl View for CChatMessageLegacy {
    type V = CChatMessageLegacyView;

    open spec fn view(&self) -> CChatMessageLegacyView {
        CChatMessageLegacyView { content: self.content@, position: self.position }
    }
}

impl Packet for CChatMessageLegacy {
    open spec fn packet_state() -> ConnectionState {
        ConnectionState::Play
    }

    open spec fn packet_direction() -> Direction {
        Direction::Clientbound
    }

    open spec fn parse(s: Seq<u8>, version: i32) -> SpecParse<CChatMessageLegacyView> {
        match p_string(s, MAX_STRING_CHARS as nat, eof()) {
            Err(e) => Err(e),
            Ok((text, r1)) => {
                let pos = if version >= V1_8 {
                    p_u8(r1, eof())
                } else {
                    Ok((0u8, r1))
                };
                match pos {
                    Err(e) => Err(e),
                    Ok((position, r2)) => if version >= V1_16 {
                        match p_u128(r2, eof()) {
                            Err(e) => Err(e),
                            Ok((_, r3)) => Ok(
                                (CChatMessageLegacyView { content: text, position }, r3),
                            ),
                        }
                    } else {
                        Ok((CChatMessageLegacyView { content: text, position }, r2))
                    },
                }
            },
        }
    }

    open spec fn encoding(p: CChatMessageLegacyView, version: i32) -> Result<Seq<u8>, ErrorClass> {
        match string_bytes(p.content) {
            Err(e) => Err(e),
            Ok(b) => Ok(
                b + (if version >= V1_8 {
                    seq![p.position]
                } else {
                    seq![]
                }) + (if version >= V1_16 {
                    u128_bytes(0)
                } else {
                    seq![]
                }),
            ),
        }
    }

    open spec fn name_text() -> Seq<char> {
        "CChatMessageLegacy"@
    }

    fn name() -> (s: &'static str) {
        "CChatMessageLegacy"
    }

    open spec fn packet_kind() -> PacketKind {
        PacketKind::CChatMessageLegacy
    }

    fn kind() -> (k: PacketKind) {
        PacketKind::CChatMessageLegacy
    }

    fn state() -> (s: ConnectionState) {
        ConnectionState::Play
    }

    fn direction() -> (d: Direction) {
        Direction::Clientbound
    }

    fn decode(r: &mut &[u8], version: ProtocolVersion) -> (res: ProtocolResult<CChatMessageLegacy>) {
        let content = match read_string(r, MAX_STRING_CHARS, true) {
            Ok(t) => t,
            Err(e) => return Err(e),
        };
        let position = if version.no_less_than(ProtocolVersion(V1_8)) {
            match read_u8(r, true, "u8") {
                Ok(p) => p,
                Err(e) => return Err(e),
            }
        } else {
            0
        };
        if version.no_less_than(ProtocolVersion(V1_16)) {
            match read_u128(r, true, "UUID") {
                Ok(_) => {},
                Err(e) => return Err(e),
            }
        }
        Ok(CChatMessageLegacy { content, position })
    }

    fn encode(&self, w: &mut Vec<u8>, version: ProtocolVersion) -> (res: ProtocolResult<()>) {
        match encode_string(self.content.as_str(), w) {
            Ok(()) => {},
            Err(e) => return Err(e),
        }
        if version.no_less_than(ProtocolVersion(V1_8)) {
            w.push(self.position);
        }
        if version.no_less_than(ProtocolVersion(V1_16)) {
            write_u128(w, 0);
        }
        assert(w@ =~= old(w)@ + Self::encoding(self@, version.0).unwrap());
        Ok(())
    }
}

/// Chat message (Serverbound): the message, then the rest of the payload (signature data) kept as raw bytes.
#[derive(Debug, Clone)]
pub struct SChatMessage {
    pub message: String,
    pub remaining: Vec<u8>,
}

pub struct SChatMessageView {
    pub message: Seq<char>,
    pub remaining: Seq<u8>,
}

impl View for SChatMessage {
    type V = SChatMessageView;

    open spec fn view(&self) -> SChatMessageView {
        SChatMessageView { message: self.message@, remaining: self.remaining@ }
    }
}

impl Packet for SChatMessage {
    open spec fn packet_state() -> ConnectionState {
        ConnectionState::Play
    }

    open spec fn packet_direction() -> Direction {
        Direction::Serverbound
    }

    open spec fn parse(s: Seq<u8>, version: i32) -> SpecParse<SChatMessageView> {
        match p_string(s, MAX_STRING_CHARS as nat, eof()) {
            Err(e) => Err(e),
            Ok((text, r1)) => Ok((SChatMessageView { message: text, remaining: r1 }, seq![])),
        }
    }

    open spec fn encoding(p: SChatMessageView, version: i32) -> Result<Seq<u8>, ErrorClass> {
        match string_bytes(p.message) {
            Err(e) => Err(e),
            Ok(b) => Ok(b + p.remaining),
        }
    }

    open spec fn name_text() -> Seq<char> {
        "SChatMessage"@
    }

    fn name() -> (s: &'static str) {
        "SChatMessage"
    }

    open spec fn packet_kind() -> PacketKind {
        PacketKind::SChatMessage
    }

    fn kind() -> (k: PacketKind) {
        PacketKind::SChatMessage
    }

    fn state() -> (s: ConnectionState) {
        ConnectionState::Play
    }

    fn direction() -> (d: Direction) {
        Direction::Serverbound
    }

    fn decode(r: &mut &[u8], version: ProtocolVersion) -> (res: ProtocolResult<SChatMessage>) {
        let message = match read_string(r, MAX_STRING_CHARS, true) {
            Ok(t) => t,
            Err(e) => return Err(e),
        };
        let remaining = read_remaining(r);
        Ok(SChatMessage { message, remaining })
    }

    fn encode(&self, w: &mut Vec<u8>, version: ProtocolVersion) -> (res: ProtocolResult<()>) {
        match encode_string(self.message.as_str(), w) {
            Ok(()) => {},
            Err(e) => return Err(e),
        }
        push_all(w, self.remaining.as_slice());
        assert(w@ =~= old(w)@ + Self::encoding(self@, version.0).unwrap());
        Ok(())
    }
}

/// Chat command (Serverbound, 1.19+): the command, then the rest of the payload (signature data) kept as raw bytes.
#[derive(Debug, Clone)]
pub struct SChatCommand {
    pub command: String,
    pub remaining: Vec<u8>,
}

pub struct SChatCommandView {
    pub command: Seq<char>,
    pub remaining: Seq<u8>,
}

impl View for SChatCommand {
    type V = SChatCommandView;

    open spec fn view(&self) -> SChatCommandView {
        SChatCommandView { command: self.command@, remaining: self.remaining@ }
    }
}

impl Packet for SChatCommand {
    open spec fn packet_state() -> ConnectionState {
        ConnectionState::Play
    }

    open spec fn packet_direction() -> Direction {
        Direction::Serverbound
    }

    open spec fn parse(s: Seq<u8>, version: i32) -> SpecParse<SChatCommandView> {
        match p_string(s, MAX_STRING_CHARS as nat, eof()) {
            Err(e) => Err(e),
            Ok((text, r1)) => Ok((SChatCommandView { command: text, remaining: r1 }, seq![])),
        }
    }

    open spec fn encoding(p: SChatCommandView, version: i32) -> Result<Seq<u8>, ErrorClass> {
        match string_bytes(p.command) {
            Err(e) => Err(e),
            Ok(b) => Ok(b + p.remaining),
        }
    }

    open spec fn name_text() -> Seq<char> {
        "SChatCommand"@
    }

    fn name() -> (s: &'static str) {
        "SChatCommand"
    }

    open spec fn packet_kind() -> PacketKind {
        PacketKind::SChatCommand
    }

    fn kind() -> (k: PacketKind) {
        PacketKind::SChatCommand
    }

    fn state() -> (s: ConnectionState) {
        ConnectionState::Play
    }

    fn direction() -> (d: Direction) {
        Direction::Serverbound
    }

    fn decode(r: &mut &[u8], version: ProtocolVersion) -> (res: ProtocolResult<SChatCommand>) {
        let command = match read_string(r, MAX_STRING_CHARS, true) {
            Ok(t) => t,
            Err(e) => return Err(e),
        };
        let remaining = read_remaining(r);
        Ok(SChatCommand { command, remaining })
    }

    fn encode(&self, w: &mut Vec<u8>, version: ProtocolVersion) -> (res: ProtocolResult<()>) {
        match encode_string(self.command.as_str(), w) {
            Ok(()) => {},
            Err(e) => return Err(e),
        }
        push_all(w, self.remaining.as_slice());
        assert(w@ =~= old(w)@ + Self::encoding(self@, version.0).unwrap());
        Ok(())
    }
}

/// System chat messages read back as written: JSON content (valid UTF-8 of
/// at most 32767 characters) before 1.20.3, any content from 1.20.3 (where
/// the payload ends with the message).
pub proof fn law_system_chat_round_trip(p: CSystemChatMessageView, version: i32, rest: Seq<u8>)
    requires
        version < V1_20_3 ==> valid_utf8(p.content) && decode_utf8(p.content).len()
            <= MAX_STRING_CHARS,
        version >= V1_20_3 ==> rest.len() == 0,
    ensures
        packet_round_trips::<CSystemChatMessage>(p, version, rest),
{
    if version < V1_20_3 {
        let t = decode_utf8(p.content);
        lemma_string_round_trip(t, seq![], MAX_STRING_CHARS as nat, eof());
        let b = string_bytes(t).unwrap();
        assert(b + bool_bytes(p.overlay) + rest =~= b + (bool_bytes(p.overlay) + rest));
        lemma_string_round_trip(t, bool_bytes(p.overlay) + rest, MAX_STRING_CHARS as nat, eof());
        lemma_p_byte_round_trips(0, p.overlay, rest, eof());
        decode_utf8_encode_utf8(p.content);
    } else {
        let all = p.content + bool_bytes(p.overlay) + rest;
        assert(rest =~= seq![]);
        assert(all =~= p.content + bool_bytes(p.overlay));
        assert(all.drop_last() =~= p.content);
        assert(all.last() == (if p.overlay { 1u8 } else { 0u8 }));
    }
}

/// Chat messages and commands whose text fits 32767 characters read back
/// as written when nothing follows them (their raw tail runs to the end).
pub proof fn law_chat_round_trips(m: SChatMessageView, c: SChatCommandView, version: i32)
    requires
        m.message.len() <= MAX_STRING_CHARS,
        c.command.len() <= MAX_STRING_CHARS,
    ensures
        packet_round_trips::<SChatMessage>(m, version, seq![]),
        packet_round_trips::<SChatCommand>(c, version, seq![]),
{
    lemma_string_round_trip(m.message, m.remaining, MAX_STRING_CHARS as nat, eof());
    assert(string_bytes(m.message).unwrap() + m.remaining + seq![] =~= string_bytes(m.message).unwrap() + m.remaining);
    lemma_string_round_trip(c.command, c.remaining, MAX_STRING_CHARS as nat, eof());
    assert(string_bytes(c.command).unwrap() + c.remaining + seq![] =~= string_bytes(c.command).unwrap() + c.remaining);
}

/// A legacy chat message whose text fits 32767 characters reads back as
/// written, with what follows untouched; before 1.8, which has no position
/// byte, the position reads back as 0.
pub proof fn law_chat_legacy_round_trip(p: CChatMessageLegacyView, version: i32, rest: Seq<u8>)
    requires
        p.content.len() <= MAX_STRING_CHARS,
    ensures
        CChatMessageLegacy::encoding(p, version) is Ok,
        CChatMessageLegacy::parse(CChatMessageLegacy::encoding(p, version).unwrap() + rest, version)
            == Ok::<(CChatMessageLegacyView, Seq<u8>), ErrorClass>(
            (
                CChatMessageLegacyView {
                    position: if version >= V1_8 { p.position } else { 0 },
                    ..p
                },
                rest,
            ),
        ),
        version >= V1_8 ==> packet_round_trips::<CChatMessageLegacy>(p, version, rest),
{
    lemma_string_round_trip(p.content, seq![], MAX_STRING_CHARS as nat, eof());
    let b = string_bytes(p.content).unwrap();
    let pos: Seq<u8> = if version >= V1_8 { seq![p.position] } else { seq![] };
    let sender: Seq<u8> = if version >= V1_16 { u128_bytes(0) } else { seq![] };
    assert(b + pos + sender + rest =~= b + (pos + (sender + rest)));
    lemma_string_round_trip(p.content, pos + (sender + rest), MAX_STRING_CHARS as nat, eof());
    if version >= V1_8 {
        lemma_p_byte_round_trips(p.position, false, sender + rest, eof());
    } else {
        assert(pos + (sender + rest) =~= sender + rest);
    }
    if version >= V1_16 {
        lemma_p_u128_round_trip(0, rest, eof());
    } else {
        assert(sender + rest =~= rest);
    }
}

} // verus!
