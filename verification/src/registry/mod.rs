//! Version-aware packet registry: which packet ID a packet has, and which
//! packet an ID decodes to, per connection state, direction and protocol
//! version.

pub mod builder;

pub use builder::{build_default_registry, PacketMapping, PacketRegistration};

use std::collections::HashMap;

use vstd::prelude::*;

use crate::error::{ErrorClass, ProtocolError, ProtocolResult};
use crate::io::PacketFrame;
use crate::packets::login::{
    CEncryptionRequest, CLoginDisconnect, CLoginPluginRequest, CLoginSuccess, CSetCompression,
    SEncryptionResponse, SLoginAcknowledged, SLoginPluginResponse, SLoginStart,
};
use crate::packets::play::chat::{CChatMessageLegacy, CSystemChatMessage, SChatCommand, SChatMessage};
use crate::packets::play::commands::CCommands;
use crate::packets::play::join_game::CJoinGame;
use crate::packets::play::misc::{
    CKeepAlive, CSetCenterChunk, CStartConfiguration, CTransfer, SAcknowledgeConfiguration,
    SChatSessionUpdate, SKeepAlive,
};
use crate::packets::play::respawn::CRespawn;
use crate::packets::play::spawn_position::CSetDefaultSpawnPosition;
use crate::packets::play::tab_complete::{CTabCompleteResponse, STabCompleteRequest};
use crate::packets::status::{CPingResponse, CStatusResponse, SPingRequest, SStatusRequest};
use crate::packets::{Packet, SHandshake};
use crate::version::{ConnectionState, Direction, ProtocolVersion};

verus! {

broadcast use vstd::std_specs::hash::group_hash_axioms;

/// Every packet the proxy registers, by name.
#[derive(Debug, Clone, Copy, PartialEq, Eq, Hash, Structural)]
pub enum PacketKind {
    SHandshake,
    SStatusRequest,
    SPingRequest,
    CStatusResponse,
    CPingResponse,
    SLoginStart,
    SEncryptionResponse,
    SLoginPluginResponse,
    SLoginAcknowledged,
    CLoginDisconnect,
    CEncryptionRequest,
    CLoginSuccess,
    CSetCompression,
    CLoginPluginRequest,
    SConfigPluginMessage,
    SAcknowledgeFinishConfig,
    SKnownPacks,
    CConfigPluginMessage,
    CConfigDisconnect,
    CFinishConfig,
    CRegistryData,
    CKnownPacks,
    CCommands,
    STabCompleteRequest,
    CTabCompleteResponse,
    CKeepAlive,
    CDisconnect,
    CJoinGame,
    CRespawn,
    CPluginMessage,
    CChatMessageLegacy,
    CSystemChatMessage,
    CTitleLegacy,
    CSetTitle,
    CSetSubtitle,
    CSetTitleTimes,
    CTransfer,
    CStartConfiguration,
    CGameEvent,
    CSetCenterChunk,
    CChunkBatchStart,
    CChunkBatchFinished,
    CSetDefaultSpawnPosition,
    CSynchronizePlayerPosition,
    SAcknowledgeConfiguration,
    SKeepAlive,
    SChatMessage,
    SChatCommand,
    SChatSessionUpdate,
    SPluginMessage,
}

/// The index of a packet kind, distinct for each kind.
pub open spec fn kind_index(k: PacketKind) -> u32 {
    match k {
        PacketKind::SHandshake => 0u32,
        PacketKind::SStatusRequest => 1u32,
        PacketKind::SPingRequest => 2u32,
        PacketKind::CStatusResponse => 3u32,
        PacketKind::CPingResponse => 4u32,
        PacketKind::SLoginStart => 5u32,
        PacketKind::SEncryptionResponse => 6u32,
        PacketKind::SLoginPluginResponse => 7u32,
        PacketKind::SLoginAcknowledged => 8u32,
        PacketKind::CLoginDisconnect => 9u32,
        PacketKind::CEncryptionRequest => 10u32,
        PacketKind::CLoginSuccess => 11u32,
        PacketKind::CSetCompression => 12u32,
        PacketKind::CLoginPluginRequest => 13u32,
        PacketKind::SConfigPluginMessage => 14u32,
        PacketKind::SAcknowledgeFinishConfig => 15u32,
        PacketKind::SKnownPacks => 16u32,
        PacketKind::CConfigPluginMessage => 17u32,
        PacketKind::CConfigDisconnect => 18u32,
        PacketKind::CFinishConfig => 19u32,
        PacketKind::CRegistryData => 20u32,
        PacketKind::CKnownPacks => 21u32,
        PacketKind::CCommands => 22u32,
        PacketKind::STabCompleteRequest => 23u32,
        PacketKind::CTabCompleteResponse => 24u32,
        PacketKind::CKeepAlive => 25u32,
        PacketKind::CDisconnect => 26u32,
        PacketKind::CJoinGame => 27u32,
        PacketKind::CRespawn => 28u32,
        PacketKind::CPluginMessage => 29u32,
        PacketKind::CChatMessageLegacy => 30u32,
        PacketKind::CSystemChatMessage => 31u32,
        PacketKind::CTitleLegacy => 32u32,
        PacketKind::CSetTitle => 33u32,
        PacketKind::CSetSubtitle => 34u32,
        PacketKind::CSetTitleTimes => 35u32,
        PacketKind::CTransfer => 36u32,
        PacketKind::CStartConfiguration => 37u32,
        PacketKind::CGameEvent => 38u32,
        PacketKind::CSetCenterChunk => 39u32,
        PacketKind::CChunkBatchStart => 40u32,
        PacketKind::CChunkBatchFinished => 41u32,
        PacketKind::CSetDefaultSpawnPosition => 42u32,
        PacketKind::CSynchronizePlayerPosition => 43u32,
        PacketKind::SAcknowledgeConfiguration => 44u32,
        PacketKind::SKeepAlive => 45u32,
        PacketKind::SChatMessage => 46u32,
        PacketKind::SChatCommand => 47u32,
        PacketKind::SChatSessionUpdate => 48u32,
        PacketKind::SPluginMessage => 49u32,
    }
}

/// The index of a packet kind.
pub fn kind_code(k: PacketKind) -> (c: u32)
    ensures
        c == kind_index(k),
{
    match k {
        PacketKind::SHandshake => 0,
        PacketKind::SStatusRequest => 1,
        PacketKind::SPingRequest => 2,
        PacketKind::CStatusResponse => 3,
        PacketKind::CPingResponse => 4,
        PacketKind::SLoginStart => 5,
        PacketKind::SEncryptionResponse => 6,
        PacketKind::SLoginPluginResponse => 7,
        PacketKind::SLoginAcknowledged => 8,
        PacketKind::CLoginDisconnect => 9,
        PacketKind::CEncryptionRequest => 10,
        PacketKind::CLoginSuccess => 11,
        PacketKind::CSetCompression => 12,
        PacketKind::CLoginPluginRequest => 13,
        PacketKind::SConfigPluginMessage => 14,
        PacketKind::SAcknowledgeFinishConfig => 15,
        PacketKind::SKnownPacks => 16,
        PacketKind::CConfigPluginMessage => 17,
        PacketKind::CConfigDisconnect => 18,
        PacketKind::CFinishConfig => 19,
        PacketKind::CRegistryData => 20,
        PacketKind::CKnownPacks => 21,
        PacketKind::CCommands => 22,
        PacketKind::STabCompleteRequest => 23,
        PacketKind::CTabCompleteResponse => 24,
        PacketKind::CKeepAlive => 25,
        PacketKind::CDisconnect => 26,
        PacketKind::CJoinGame => 27,
        PacketKind::CRespawn => 28,
        PacketKind::CPluginMessage => 29,
        PacketKind::CChatMessageLegacy => 30,
        PacketKind::CSystemChatMessage => 31,
        PacketKind::CTitleLegacy => 32,
        PacketKind::CSetTitle => 33,
        PacketKind::CSetSubtitle => 34,
        PacketKind::CSetTitleTimes => 35,
        PacketKind::CTransfer => 36,
        PacketKind::CStartConfiguration => 37,
        PacketKind::CGameEvent => 38,
        PacketKind::CSetCenterChunk => 39,
        PacketKind::CChunkBatchStart => 40,
        PacketKind::CChunkBatchFinished => 41,
        PacketKind::CSetDefaultSpawnPosition => 42,
        PacketKind::CSynchronizePlayerPosition => 43,
        PacketKind::SAcknowledgeConfiguration => 44,
        PacketKind::SKeepAlive => 45,
        PacketKind::SChatMessage => 46,
        PacketKind::SChatCommand => 47,
        PacketKind::SChatSessionUpdate => 48,
        PacketKind::SPluginMessage => 49,
    }
}

pub open spec fn state_index(s: ConnectionState) -> u128 {
    match s {
        ConnectionState::Handshake => 0,
        ConnectionState::Status => 1,
        ConnectionState::Login => 2,
        ConnectionState::Config => 3,
        ConnectionState::Play => 4,
    }
}

pub open spec fn direction_index(d: Direction) -> u128 {
    match d {
        Direction::Serverbound => 0,
        Direction::Clientbound => 1,
    }
}

/// The key under which the registry files `x` (a packet ID, or a kind
/// index) for a state, a direction and a protocol version.
pub open spec fn registry_key(s: ConnectionState, d: Direction, v: i32, x: u32) -> u128 {
    (state_index(s) << 65u128) | (direction_index(d) << 64u128) | (((v as u32) as u128) << 32u128)
        | (x as u128)
}

proof fn lemma_key_parts_injective(a: u128, b: u128, c: u32, x: u32, a2: u128, b2: u128, c2: u32, x2: u32)
    requires
        a < 8,
        b < 2,
        a2 < 8,
        b2 < 2,
        (a << 65u128) | (b << 64u128) | ((c as u128) << 32u128) | (x as u128) == (a2 << 65u128) | (
        b2 << 64u128) | ((c2 as u128) << 32u128) | (x2 as u128),
    ensures
        a == a2 && b == b2 && c == c2 && x == x2,
{
    assert(a == a2 && b == b2 && c == c2 && x == x2) by (bit_vector)
        requires
            a < 8,
            b < 2,
            a2 < 8,
            b2 < 2,
            (a << 65u128) | (b << 64u128) | ((c as u128) << 32u128) | (x as u128) == (a2 << 65u128)
                | (b2 << 64u128) | ((c2 as u128) << 32u128) | (x2 as u128),
    ;
}

/// Two coordinates share a key only when they are the same.
pub proof fn lemma_registry_key_injective(s: ConnectionState, d: Direction, v: i32, x: u32, s2: ConnectionState, d2: Direction, v2: i32, x2: u32)
    requires
        registry_key(s, d, v, x) == registry_key(s2, d2, v2, x2),
    ensures
        s == s2 && d == d2 && v == v2 && x == x2,
{
    lemma_key_parts_injective(
        state_index(s),
        direction_index(d),
        v as u32,
        x,
        state_index(s2),
        direction_index(d2),
        v2 as u32,
        x2,
    );
    assert((v as u32) == (v2 as u32) ==> v == v2) by (bit_vector);
}

/// Computes [`registry_key`].
pub fn key_of(s: ConnectionState, d: Direction, v: ProtocolVersion, x: u32) -> (k: u128)
    ensures
        k == registry_key(s, d, v.0, x),
{
    let si: u128 = match s {
        ConnectionState::Handshake => 0,
        ConnectionState::Status => 1,
        ConnectionState::Login => 2,
        ConnectionState::Config => 3,
        ConnectionState::Play => 4,
    };
    let di: u128 = match d {
        Direction::Serverbound => 0,
        Direction::Clientbound => 1,
    };
    (si << 65u128) | (di << 64u128) | (((v.0 as u32) as u128) << 32u128) | (x as u128)
}

/// Whether this library has a typed packet for kind `k`, and so a decoder:
/// the configuration packets, the play disconnect, plugin message, title,
/// game event, chunk batch and player position packets are known only by
/// their IDs, for encoding.
pub open spec fn decodable(k: PacketKind) -> bool {
    match k {
        PacketKind::SConfigPluginMessage
        | PacketKind::SAcknowledgeFinishConfig
        | PacketKind::SKnownPacks
        | PacketKind::CConfigPluginMessage
        | PacketKind::CConfigDisconnect
        | PacketKind::CFinishConfig
        | PacketKind::CRegistryData
        | PacketKind::CKnownPacks
        | PacketKind::CDisconnect
        | PacketKind::CPluginMessage
        | PacketKind::CTitleLegacy
        | PacketKind::CSetTitle
        | PacketKind::CSetSubtitle
        | PacketKind::CSetTitleTimes
        | PacketKind::CGameEvent
        | PacketKind::CChunkBatchStart
        | PacketKind::CChunkBatchFinished
        | PacketKind::CSynchronizePlayerPosition
        | PacketKind::SPluginMessage => false,
        _ => true,
    }
}

/// The complete packet registry.
///
/// Two lookups per (state, direction, version): packet ID to the packet it
/// decodes to, and packet kind to its ID for encoding.
pub struct PacketRegistry {
    decoders: HashMap<u128, PacketKind>,
    ids: HashMap<u128, i32>,
}

impl PacketRegistry {
    /// Every decoder leads to a packet this library can decode.
    #[verifier::type_invariant]
    spec fn decoders_decodable(self) -> bool {
        forall|k: u128| #[trigger] self.decoders@.contains_key(k) ==> decodable(self.decoders@[k])
    }

    /// The packet that `id` decodes to, if any.
    pub closed spec fn decoder_for(&self, s: ConnectionState, d: Direction, v: i32, id: i32) -> Option<PacketKind> {
        let k = registry_key(s, d, v, id as u32);
        if self.decoders@.contains_key(k) {
            Some(self.decoders@[k])
        } else {
            None
        }
    }

    /// The ID packet `kind` is encoded with, if any.
    pub closed spec fn id_for(&self, s: ConnectionState, d: Direction, v: i32, kind: PacketKind) -> Option<i32> {
        let k = registry_key(s, d, v, kind_index(kind));
        if self.ids@.contains_key(k) {
            Some(self.ids@[k])
        } else {
            None
        }
    }

    /// Creates an empty registry.
    pub fn new() -> (r: PacketRegistry)
        ensures
            forall|s, d, v, id| r.decoder_for(s, d, v, id) is None,
            forall|s, d, v, k| r.id_for(s, d, v, k) is None,
    {
        PacketRegistry { decoders: HashMap::new(), ids: HashMap::new() }
    }

    /// Whether a decoder is registered for `packet_id`.
    pub fn has_decoder(&self, state: ConnectionState, direction: Direction, version: ProtocolVersion, packet_id: i32) -> (b: bool)
        ensures
            b == self.decoder_for(state, direction, version.0, packet_id) is Some,
    {
        let k = key_of(state, direction, version, packet_id as u32);
        self.decoders.contains_key(&k)
    }

    /// The packet `packet_id` decodes to, if any.
    pub fn decoder_kind(&self, state: ConnectionState, direction: Direction, version: ProtocolVersion, packet_id: i32) -> (r: Option<PacketKind>)
        ensures
            r == self.decoder_for(state, direction, version.0, packet_id),
            r matches Some(kind) ==> decodable(kind),
    {
        proof {
            use_type_invariant(self);
        }
        let k = key_of(state, direction, version, packet_id as u32);
        match self.decoders.get(&k) {
            Some(kind) => Some(*kind),
            None => None,
        }
    }

    /// The ID `kind` is encoded with, or `None` when it is not registered.
    pub fn get_kind_id(&self, kind: PacketKind, state: ConnectionState, direction: Direction, version: ProtocolVersion) -> (r: Option<i32>)
        ensures
            r == self.id_for(state, direction, version.0, kind),
    {
        let k = key_of(state, direction, version, kind_code(kind));
        match self.ids.get(&k) {
            Some(id) => Some(*id),
            None => None,
        }
    }

    /// The ID packet type `P` is encoded with, or `None` when it is not registered.
    pub fn get_packet_id<P: Packet>(&self, state: ConnectionState, direction: Direction, version: ProtocolVersion) -> (r: Option<i32>)
        ensures
            r == self.id_for(state, direction, version.0, P::packet_kind()),
    {
        self.get_kind_id(P::kind(), state, direction, version)
    }

    /// Registers the ID `packet_id` of `kind`, for encoding.
    pub fn insert_type_mapping(&mut self, key: (ConnectionState, Direction, ProtocolVersion), kind: PacketKind, packet_id: i32)
        ensures
            forall|s, d, v, id| #[trigger] final(self).decoder_for(s, d, v, id) == old(self).decoder_for(s, d, v, id),
            forall|s, d, v, k| #[trigger] final(self).id_for(s, d, v, k) == if s == key.0 && d == key.1 && v == key.2.0 && k == kind {
                Some(packet_id)
            } else {
                old(self).id_for(s, d, v, k)
            },
    {
        let k = key_of(key.0, key.1, key.2, kind_code(kind));
        proof {
            use_type_invariant(&*self);
        }
        let mut ids: HashMap<u128, i32> = HashMap::new();
        std::mem::swap(&mut ids, &mut self.ids);
        ids.insert(k, packet_id);
        self.ids = ids;
        assert forall|s, d, v, x| #[trigger] self.id_for(s, d, v, x) == if s == key.0 && d == key.1 && v == key.2.0 && x == kind {
            Some(packet_id)
        } else {
            old(self).id_for(s, d, v, x)
        } by {
            if registry_key(s, d, v, kind_index(x)) == k {
                lemma_registry_key_injective(s, d, v, kind_index(x), key.0, key.1, key.2.0, kind_index(kind));
                lemma_kind_index_injective(x, kind);
            }
        }
    }

    /// Registers `decoder` as the packet `packet_id` decodes to; only a
    /// packet this library decodes can have a decoder.
    pub fn insert_decoder(&mut self, key: (ConnectionState, Direction, ProtocolVersion), packet_id: i32, decoder: PacketKind)
        requires
            decodable(decoder),
        ensures
            forall|s, d, v, id| #[trigger] final(self).decoder_for(s, d, v, id) == if s == key.0 && d == key.1 && v == key.2.0 && id == packet_id {
                Some(decoder)
            } else {
                old(self).decoder_for(s, d, v, id)
            },
            forall|s, d, v, k| #[trigger] final(self).id_for(s, d, v, k) == old(self).id_for(s, d, v, k),
    {
        let k = key_of(key.0, key.1, key.2, packet_id as u32);
        proof {
            use_type_invariant(&*self);
        }
        let mut decoders: HashMap<u128, PacketKind> = HashMap::new();
        std::mem::swap(&mut decoders, &mut self.decoders);
        decoders.insert(k, decoder);
        self.decoders = decoders;
        assert forall|s, d, v, id| #[trigger] self.decoder_for(s, d, v, id) == if s == key.0 && d == key.1 && v == key.2.0 && id == packet_id {
            Some(decoder)
        } else {
            old(self).decoder_for(s, d, v, id)
        } by {
            if registry_key(s, d, v, id as u32) == k {
                lemma_registry_key_injective(s, d, v, id as u32, key.0, key.1, key.2.0, packet_id as u32);
                assert((id as u32) == (packet_id as u32) ==> id == packet_id) by (bit_vector);
            }
        }
    }

    /// Decodes a frame: a registered decoder gives a typed packet, or the
    /// decoder's error; only a frame without a decoder comes back as opaque
    /// bytes (a missing decoder is never an error).
    pub fn decode_frame(&self, frame: &PacketFrame, state: ConnectionState, direction: Direction, version: ProtocolVersion) -> (res: ProtocolResult<DecodedPacket>)
        ensures
            match self.decoder_for(state, direction, version.0, frame.id) {
                None => res matches Ok(DecodedPacket::Opaque { id, payload }) && id == frame.id && payload@ == frame.payload@,
                Some(k) => decodable(k) && frame_decoded(k, frame.id, frame.payload@, version.0, res),
            },
    {
        match self.decoder_kind(state, direction, version, frame.id) {
            Some(kind) => match decode_kind(kind, frame.payload.as_slice(), version) {
                Ok(packet) => Ok(DecodedPacket::Typed { id: frame.id, packet }),
                Err(e) => Err(e),
            },
            None => Ok(DecodedPacket::Opaque { id: frame.id, payload: frame.payload.clone() }),
        }
    }
}

/// There are fifty packet kinds.
pub proof fn lemma_kind_index_bound(k: PacketKind)
    ensures
        kind_index(k) < 50,
{
}

pub proof fn lemma_kind_index_injective(a: PacketKind, b: PacketKind)
    requires
        kind_index(a) == kind_index(b),
    ensures
        a == b,
{
}

/// A packet decoded through the registry.
#[derive(Debug, Clone)]
pub enum AnyPacket {
    SHandshake(SHandshake),
    SStatusRequest(SStatusRequest),
    SPingRequest(SPingRequest),
    CStatusResponse(CStatusResponse),
    CPingResponse(CPingResponse),
    SLoginStart(SLoginStart),
    SEncryptionResponse(SEncryptionResponse),
    SLoginPluginResponse(SLoginPluginResponse),
    SLoginAcknowledged(SLoginAcknowledged),
    CLoginDisconnect(CLoginDisconnect),
    CEncryptionRequest(CEncryptionRequest),
    CLoginSuccess(CLoginSuccess),
    CSetCompression(CSetCompression),
    CLoginPluginRequest(CLoginPluginRequest),
    CCommands(CCommands),
    STabCompleteRequest(STabCompleteRequest),
    CTabCompleteResponse(CTabCompleteResponse),
    CKeepAlive(CKeepAlive),
    CJoinGame(CJoinGame),
    CRespawn(CRespawn),
    CChatMessageLegacy(CChatMessageLegacy),
    CSystemChatMessage(CSystemChatMessage),
    CTransfer(CTransfer),
    CStartConfiguration(CStartConfiguration),
    CSetCenterChunk(CSetCenterChunk),
    CSetDefaultSpawnPosition(CSetDefaultSpawnPosition),
    SAcknowledgeConfiguration(SAcknowledgeConfiguration),
    SKeepAlive(SKeepAlive),
    SChatMessage(SChatMessage),
    SChatCommand(SChatCommand),
    SChatSessionUpdate(SChatSessionUpdate),
}

impl AnyPacket {
    /// The kind of packet this is.
    pub open spec fn kind_of(self) -> PacketKind {
        match self {
            AnyPacket::SHandshake(_) => PacketKind::SHandshake,
            AnyPacket::SStatusRequest(_) => PacketKind::SStatusRequest,
            AnyPacket::SPingRequest(_) => PacketKind::SPingRequest,
            AnyPacket::CStatusResponse(_) => PacketKind::CStatusResponse,
            AnyPacket::CPingResponse(_) => PacketKind::CPingResponse,
            AnyPacket::SLoginStart(_) => PacketKind::SLoginStart,
            AnyPacket::SEncryptionResponse(_) => PacketKind::SEncryptionResponse,
            AnyPacket::SLoginPluginResponse(_) => PacketKind::SLoginPluginResponse,
            AnyPacket::SLoginAcknowledged(_) => PacketKind::SLoginAcknowledged,
            AnyPacket::CLoginDisconnect(_) => PacketKind::CLoginDisconnect,
            AnyPacket::CEncryptionRequest(_) => PacketKind::CEncryptionRequest,
            AnyPacket::CLoginSuccess(_) => PacketKind::CLoginSuccess,
            AnyPacket::CSetCompression(_) => PacketKind::CSetCompression,
            AnyPacket::CLoginPluginRequest(_) => PacketKind::CLoginPluginRequest,
            AnyPacket::CCommands(_) => PacketKind::CCommands,
            AnyPacket::STabCompleteRequest(_) => PacketKind::STabCompleteRequest,
            AnyPacket::CTabCompleteResponse(_) => PacketKind::CTabCompleteResponse,
            AnyPacket::CKeepAlive(_) => PacketKind::CKeepAlive,
            AnyPacket::CJoinGame(_) => PacketKind::CJoinGame,
            AnyPacket::CRespawn(_) => PacketKind::CRespawn,
            AnyPacket::CChatMessageLegacy(_) => PacketKind::CChatMessageLegacy,
            AnyPacket::CSystemChatMessage(_) => PacketKind::CSystemChatMessage,
            AnyPacket::CTransfer(_) => PacketKind::CTransfer,
            AnyPacket::CStartConfiguration(_) => PacketKind::CStartConfiguration,
            AnyPacket::CSetCenterChunk(_) => PacketKind::CSetCenterChunk,
            AnyPacket::CSetDefaultSpawnPosition(_) => PacketKind::CSetDefaultSpawnPosition,
            AnyPacket::SAcknowledgeConfiguration(_) => PacketKind::SAcknowledgeConfiguration,
            AnyPacket::SKeepAlive(_) => PacketKind::SKeepAlive,
            AnyPacket::SChatMessage(_) => PacketKind::SChatMessage,
            AnyPacket::SChatCommand(_) => PacketKind::SChatCommand,
            AnyPacket::SChatSessionUpdate(_) => PacketKind::SChatSessionUpdate,
        }
    }

    /// Which packet this is.
    pub fn kind(&self) -> (k: PacketKind)
        ensures
            k == self.kind_of(),
    {
        match self {
            AnyPacket::SHandshake(_) => PacketKind::SHandshake,
            AnyPacket::SStatusRequest(_) => PacketKind::SStatusRequest,
            AnyPacket::SPingRequest(_) => PacketKind::SPingRequest,
            AnyPacket::CStatusResponse(_) => PacketKind::CStatusResponse,
            AnyPacket::CPingResponse(_) => PacketKind::CPingResponse,
            AnyPacket::SLoginStart(_) => PacketKind::SLoginStart,
            AnyPacket::SEncryptionResponse(_) => PacketKind::SEncryptionResponse,
            AnyPacket::SLoginPluginResponse(_) => PacketKind::SLoginPluginResponse,
            AnyPacket::SLoginAcknowledged(_) => PacketKind::SLoginAcknowledged,
            AnyPacket::CLoginDisconnect(_) => PacketKind::CLoginDisconnect,
            AnyPacket::CEncryptionRequest(_) => PacketKind::CEncryptionRequest,
            AnyPacket::CLoginSuccess(_) => PacketKind::CLoginSuccess,
            AnyPacket::CSetCompression(_) => PacketKind::CSetCompression,
            AnyPacket::CLoginPluginRequest(_) => PacketKind::CLoginPluginRequest,
            AnyPacket::CCommands(_) => PacketKind::CCommands,
            AnyPacket::STabCompleteRequest(_) => PacketKind::STabCompleteRequest,
            AnyPacket::CTabCompleteResponse(_) => PacketKind::CTabCompleteResponse,
            AnyPacket::CKeepAlive(_) => PacketKind::CKeepAlive,
            AnyPacket::CJoinGame(_) => PacketKind::CJoinGame,
            AnyPacket::CRespawn(_) => PacketKind::CRespawn,
            AnyPacket::CChatMessageLegacy(_) => PacketKind::CChatMessageLegacy,
            AnyPacket::CSystemChatMessage(_) => PacketKind::CSystemChatMessage,
            AnyPacket::CTransfer(_) => PacketKind::CTransfer,
            AnyPacket::CStartConfiguration(_) => PacketKind::CStartConfiguration,
            AnyPacket::CSetCenterChunk(_) => PacketKind::CSetCenterChunk,
            AnyPacket::CSetDefaultSpawnPosition(_) => PacketKind::CSetDefaultSpawnPosition,
            AnyPacket::SAcknowledgeConfiguration(_) => PacketKind::SAcknowledgeConfiguration,
            AnyPacket::SKeepAlive(_) => PacketKind::SKeepAlive,
            AnyPacket::SChatMessage(_) => PacketKind::SChatMessage,
            AnyPacket::SChatCommand(_) => PacketKind::SChatCommand,
            AnyPacket::SChatSessionUpdate(_) => PacketKind::SChatSessionUpdate,
        }
    }
}

/// What decoding a frame through the registry gives.
#[derive(Debug)]
pub enum DecodedPacket {
    /// A known packet, decoded.
    Typed { id: i32, packet: AnyPacket },
    /// A packet without a decoder: forwarded as it is.
    Opaque { id: i32, payload: Vec<u8> },
}

/// `res` is what decoding `payload` as packet `k` gives; nothing does for
/// a packet this library does not decode. Trailing bytes are ignored.
pub open spec fn kind_decoded(k: PacketKind, payload: Seq<u8>, version: i32, res: ProtocolResult<AnyPacket>) -> bool {
    match k {
        PacketKind::SHandshake => match SHandshake::parse(payload, version) {
            Ok((v, _)) => res matches Ok(AnyPacket::SHandshake(p)) && p@ == v,
            Err(c) => res matches Err(e) && e.class() == c,
        },
        PacketKind::SStatusRequest => match SStatusRequest::parse(payload, version) {
            Ok((v, _)) => res matches Ok(AnyPacket::SStatusRequest(p)) && p@ == v,
            Err(c) => res matches Err(e) && e.class() == c,
        },
        PacketKind::SPingRequest => match SPingRequest::parse(payload, version) {
            Ok((v, _)) => res matches Ok(AnyPacket::SPingRequest(p)) && p@ == v,
            Err(c) => res matches Err(e) && e.class() == c,
        },
        PacketKind::CStatusResponse => match CStatusResponse::parse(payload, version) {
            Ok((v, _)) => res matches Ok(AnyPacket::CStatusResponse(p)) && p@ == v,
            Err(c) => res matches Err(e) && e.class() == c,
        },
        PacketKind::CPingResponse => match CPingResponse::parse(payload, version) {
            Ok((v, _)) => res matches Ok(AnyPacket::CPingResponse(p)) && p@ == v,
            Err(c) => res matches Err(e) && e.class() == c,
        },
        PacketKind::SLoginStart => match SLoginStart::parse(payload, version) {
            Ok((v, _)) => res matches Ok(AnyPacket::SLoginStart(p)) && p@ == v,
            Err(c) => res matches Err(e) && e.class() == c,
        },
        PacketKind::SEncryptionResponse => match SEncryptionResponse::parse(payload, version) {
            Ok((v, _)) => res matches Ok(AnyPacket::SEncryptionResponse(p)) && p@ == v,
            Err(c) => res matches Err(e) && e.class() == c,
        },
        PacketKind::SLoginPluginResponse => match SLoginPluginResponse::parse(payload, version) {
            Ok((v, _)) => res matches Ok(AnyPacket::SLoginPluginResponse(p)) && p@ == v,
            Err(c) => res matches Err(e) && e.class() == c,
        },
        PacketKind::SLoginAcknowledged => match SLoginAcknowledged::parse(payload, version) {
            Ok((v, _)) => res matches Ok(AnyPacket::SLoginAcknowledged(p)) && p@ == v,
            Err(c) => res matches Err(e) && e.class() == c,
        },
        PacketKind::CLoginDisconnect => match CLoginDisconnect::parse(payload, version) {
            Ok((v, _)) => res matches Ok(AnyPacket::CLoginDisconnect(p)) && p@ == v,
            Err(c) => res matches Err(e) && e.class() == c,
        },
        PacketKind::CEncryptionRequest => match CEncryptionRequest::parse(payload, version) {
            Ok((v, _)) => res matches Ok(AnyPacket::CEncryptionRequest(p)) && p@ == v,
            Err(c) => res matches Err(e) && e.class() == c,
        },
        PacketKind::CLoginSuccess => match CLoginSuccess::parse(payload, version) {
            Ok((v, _)) => res matches Ok(AnyPacket::CLoginSuccess(p)) && p@ == v,
            Err(c) => res matches Err(e) && e.class() == c,
        },
        PacketKind::CSetCompression => match CSetCompression::parse(payload, version) {
            Ok((v, _)) => res matches Ok(AnyPacket::CSetCompression(p)) && p@ == v,
            Err(c) => res matches Err(e) && e.class() == c,
        },
        PacketKind::CLoginPluginRequest => match CLoginPluginRequest::parse(payload, version) {
            Ok((v, _)) => res matches Ok(AnyPacket::CLoginPluginRequest(p)) && p@ == v,
            Err(c) => res matches Err(e) && e.class() == c,
        },
        PacketKind::CCommands => match CCommands::parse(payload, version) {
            Ok((v, _)) => res matches Ok(AnyPacket::CCommands(p)) && p@ == v,
            Err(c) => res matches Err(e) && e.class() == c,
        },
        PacketKind::STabCompleteRequest => match STabCompleteRequest::parse(payload, version) {
            Ok((v, _)) => res matches Ok(AnyPacket::STabCompleteRequest(p)) && p@ == v,
            Err(c) => res matches Err(e) && e.class() == c,
        },
        PacketKind::CTabCompleteResponse => match CTabCompleteResponse::parse(payload, version) {
            Ok((v, _)) => res matches Ok(AnyPacket::CTabCompleteResponse(p)) && p@ == v,
            Err(c) => res matches Err(e) && e.class() == c,
        },
        PacketKind::CKeepAlive => match CKeepAlive::parse(payload, version) {
            Ok((v, _)) => res matches Ok(AnyPacket::CKeepAlive(p)) && p@ == v,
            Err(c) => res matches Err(e) && e.class() == c,
        },
        PacketKind::CJoinGame => match CJoinGame::parse(payload, version) {
            Ok((v, _)) => res matches Ok(AnyPacket::CJoinGame(p)) && p@ == v,
            Err(c) => res matches Err(e) && e.class() == c,
        },
        PacketKind::CRespawn => match CRespawn::parse(payload, version) {
            Ok((v, _)) => res matches Ok(AnyPacket::CRespawn(p)) && p@ == v,
            Err(c) => res matches Err(e) && e.class() == c,
        },
        PacketKind::CChatMessageLegacy => match CChatMessageLegacy::parse(payload, version) {
            Ok((v, _)) => res matches Ok(AnyPacket::CChatMessageLegacy(p)) && p@ == v,
            Err(c) => res matches Err(e) && e.class() == c,
        },
        PacketKind::CSystemChatMessage => match CSystemChatMessage::parse(payload, version) {
            Ok((v, _)) => res matches Ok(AnyPacket::CSystemChatMessage(p)) && p@ == v,
            Err(c) => res matches Err(e) && e.class() == c,
        },
        PacketKind::CTransfer => match CTransfer::parse(payload, version) {
            Ok((v, _)) => res matches Ok(AnyPacket::CTransfer(p)) && p@ == v,
            Err(c) => res matches Err(e) && e.class() == c,
        },
        PacketKind::CStartConfiguration => match CStartConfiguration::parse(payload, version) {
            Ok((v, _)) => res matches Ok(AnyPacket::CStartConfiguration(p)) && p@ == v,
            Err(c) => res matches Err(e) && e.class() == c,
        },
        PacketKind::CSetCenterChunk => match CSetCenterChunk::parse(payload, version) {
            Ok((v, _)) => res matches Ok(AnyPacket::CSetCenterChunk(p)) && p@ == v,
            Err(c) => res matches Err(e) && e.class() == c,
        },
        PacketKind::CSetDefaultSpawnPosition => match CSetDefaultSpawnPosition::parse(payload, version) {
            Ok((v, _)) => res matches Ok(AnyPacket::CSetDefaultSpawnPosition(p)) && p@ == v,
            Err(c) => res matches Err(e) && e.class() == c,
        },
        PacketKind::SAcknowledgeConfiguration => match SAcknowledgeConfiguration::parse(payload, version) {
            Ok((v, _)) => res matches Ok(AnyPacket::SAcknowledgeConfiguration(p)) && p@ == v,
            Err(c) => res matches Err(e) && e.class() == c,
        },
        PacketKind::SKeepAlive => match SKeepAlive::parse(payload, version) {
            Ok((v, _)) => res matches Ok(AnyPacket::SKeepAlive(p)) && p@ == v,
            Err(c) => res matches Err(e) && e.class() == c,
        },
        PacketKind::SChatMessage => match SChatMessage::parse(payload, version) {
            Ok((v, _)) => res matches Ok(AnyPacket::SChatMessage(p)) && p@ == v,
            Err(c) => res matches Err(e) && e.class() == c,
        },
        PacketKind::SChatCommand => match SChatCommand::parse(payload, version) {
            Ok((v, _)) => res matches Ok(AnyPacket::SChatCommand(p)) && p@ == v,
            Err(c) => res matches Err(e) && e.class() == c,
        },
        PacketKind::SChatSessionUpdate => match SChatSessionUpdate::parse(payload, version) {
            Ok((v, _)) => res matches Ok(AnyPacket::SChatSessionUpdate(p)) && p@ == v,
            Err(c) => res matches Err(e) && e.class() == c,
        },
        _ => false,
    }
}

/// `res` is what decoding frame `id` with `payload` as packet `k` gives.
pub open spec fn frame_decoded(k: PacketKind, id: i32, payload: Seq<u8>, version: i32, res: ProtocolResult<DecodedPacket>) -> bool {
    exists|inner: ProtocolResult<AnyPacket>| {
        &&& kind_decoded(k, payload, version, inner)
        &&& match inner {
            Ok(p) => res == Ok::<DecodedPacket, crate::error::ProtocolError>(DecodedPacket::Typed { id, packet: p }),
            Err(e) => res matches Err(e2) && e2.class() == e.class(),
        }
    }
}

/// Decodes `payload` as packet `kind`.
pub fn decode_kind(kind: PacketKind, payload: &[u8], version: ProtocolVersion) -> (res: ProtocolResult<AnyPacket>)
    requires
        decodable(kind),
    ensures
        kind_decoded(kind, payload@, version.0, res),
{
    let mut r = payload;
    match kind {
        PacketKind::SHandshake => match SHandshake::decode(&mut r, version) {
            Ok(p) => Ok(AnyPacket::SHandshake(p)),
            Err(e) => Err(e),
        },
        PacketKind::SStatusRequest => match SStatusRequest::decode(&mut r, version) {
            Ok(p) => Ok(AnyPacket::SStatusRequest(p)),
            Err(e) => Err(e),
        },
        PacketKind::SPingRequest => match SPingRequest::decode(&mut r, version) {
            Ok(p) => Ok(AnyPacket::SPingRequest(p)),
            Err(e) => Err(e),
        },
        PacketKind::CStatusResponse => match CStatusResponse::decode(&mut r, version) {
            Ok(p) => Ok(AnyPacket::CStatusResponse(p)),
            Err(e) => Err(e),
        },
        PacketKind::CPingResponse => match CPingResponse::decode(&mut r, version) {
            Ok(p) => Ok(AnyPacket::CPingResponse(p)),
            Err(e) => Err(e),
        },
        PacketKind::SLoginStart => match SLoginStart::decode(&mut r, version) {
            Ok(p) => Ok(AnyPacket::SLoginStart(p)),
            Err(e) => Err(e),
        },
        PacketKind::SEncryptionResponse => match SEncryptionResponse::decode(&mut r, version) {
            Ok(p) => Ok(AnyPacket::SEncryptionResponse(p)),
            Err(e) => Err(e),
        },
        PacketKind::SLoginPluginResponse => match SLoginPluginResponse::decode(&mut r, version) {
            Ok(p) => Ok(AnyPacket::SLoginPluginResponse(p)),
            Err(e) => Err(e),
        },
        PacketKind::SLoginAcknowledged => match SLoginAcknowledged::decode(&mut r, version) {
            Ok(p) => Ok(AnyPacket::SLoginAcknowledged(p)),
            Err(e) => Err(e),
        },
        PacketKind::CLoginDisconnect => match CLoginDisconnect::decode(&mut r, version) {
            Ok(p) => Ok(AnyPacket::CLoginDisconnect(p)),
            Err(e) => Err(e),
        },
        PacketKind::CEncryptionRequest => match CEncryptionRequest::decode(&mut r, version) {
            Ok(p) => Ok(AnyPacket::CEncryptionRequest(p)),
            Err(e) => Err(e),
        },
        PacketKind::CLoginSuccess => match CLoginSuccess::decode(&mut r, version) {
            Ok(p) => Ok(AnyPacket::CLoginSuccess(p)),
            Err(e) => Err(e),
        },
        PacketKind::CSetCompression => match CSetCompression::decode(&mut r, version) {
            Ok(p) => Ok(AnyPacket::CSetCompression(p)),
            Err(e) => Err(e),
        },
        PacketKind::CLoginPluginRequest => match CLoginPluginRequest::decode(&mut r, version) {
            Ok(p) => Ok(AnyPacket::CLoginPluginRequest(p)),
            Err(e) => Err(e),
        },
        PacketKind::CCommands => match CCommands::decode(&mut r, version) {
            Ok(p) => Ok(AnyPacket::CCommands(p)),
            Err(e) => Err(e),
        },
        PacketKind::STabCompleteRequest => match STabCompleteRequest::decode(&mut r, version) {
            Ok(p) => Ok(AnyPacket::STabCompleteRequest(p)),
            Err(e) => Err(e),
        },
        PacketKind::CTabCompleteResponse => match CTabCompleteResponse::decode(&mut r, version) {
            Ok(p) => Ok(AnyPacket::CTabCompleteResponse(p)),
            Err(e) => Err(e),
        },
        PacketKind::CKeepAlive => match CKeepAlive::decode(&mut r, version) {
            Ok(p) => Ok(AnyPacket::CKeepAlive(p)),
            Err(e) => Err(e),
        },
        PacketKind::CJoinGame => match CJoinGame::decode(&mut r, version) {
            Ok(p) => Ok(AnyPacket::CJoinGame(p)),
            Err(e) => Err(e),
        },
        PacketKind::CRespawn => match CRespawn::decode(&mut r, version) {
            Ok(p) => Ok(AnyPacket::CRespawn(p)),
            Err(e) => Err(e),
        },
        PacketKind::CChatMessageLegacy => match CChatMessageLegacy::decode(&mut r, version) {
            Ok(p) => Ok(AnyPacket::CChatMessageLegacy(p)),
            Err(e) => Err(e),
        },
        PacketKind::CSystemChatMessage => match CSystemChatMessage::decode(&mut r, version) {
            Ok(p) => Ok(AnyPacket::CSystemChatMessage(p)),
            Err(e) => Err(e),
        },
        PacketKind::CTransfer => match CTransfer::decode(&mut r, version) {
            Ok(p) => Ok(AnyPacket::CTransfer(p)),
            Err(e) => Err(e),
        },
        PacketKind::CStartConfiguration => match CStartConfiguration::decode(&mut r, version) {
            Ok(p) => Ok(AnyPacket::CStartConfiguration(p)),
            Err(e) => Err(e),
        },
        PacketKind::CSetCenterChunk => match CSetCenterChunk::decode(&mut r, version) {
            Ok(p) => Ok(AnyPacket::CSetCenterChunk(p)),
            Err(e) => Err(e),
        },
        PacketKind::CSetDefaultSpawnPosition => match CSetDefaultSpawnPosition::decode(&mut r, version) {
            Ok(p) => Ok(AnyPacket::CSetDefaultSpawnPosition(p)),
            Err(e) => Err(e),
        },
        PacketKind::SAcknowledgeConfiguration => match SAcknowledgeConfiguration::decode(&mut r, version) {
            Ok(p) => Ok(AnyPacket::SAcknowledgeConfiguration(p)),
            Err(e) => Err(e),
        },
        PacketKind::SKeepAlive => match SKeepAlive::decode(&mut r, version) {
            Ok(p) => Ok(AnyPacket::SKeepAlive(p)),
            Err(e) => Err(e),
        },
        PacketKind::SChatMessage => match SChatMessage::decode(&mut r, version) {
            Ok(p) => Ok(AnyPacket::SChatMessage(p)),
            Err(e) => Err(e),
        },
        PacketKind::SChatCommand => match SChatCommand::decode(&mut r, version) {
            Ok(p) => Ok(AnyPacket::SChatCommand(p)),
            Err(e) => Err(e),
        },
        PacketKind::SChatSessionUpdate => match SChatSessionUpdate::decode(&mut r, version) {
            Ok(p) => Ok(AnyPacket::SChatSessionUpdate(p)),
            Err(e) => Err(e),
        },
        _ => {
            proof {
                assert(!decodable(kind));
            }
            Err(ProtocolError::invalid("no decoder for this packet"))
        },
    }
}

} // verus!
