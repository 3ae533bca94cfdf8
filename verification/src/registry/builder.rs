//! Fluent registration of a packet's IDs across protocol versions, and the
//! default registry of every packet the proxy knows.

use std::marker::PhantomData;

use vstd::prelude::*;

use crate::packets::login::{
    CEncryptionRequest, CLoginDisconnect, CLoginPluginRequest, CLoginSuccess, CSetCompression,
    SEncryptionResponse, SLoginAcknowledged, SLoginPluginResponse, SLoginStart,
};
use crate::packets::play::chat::{CChatMessageLegacy, CSystemChatMessage, SChatCommand, SChatMessage};
use crate::packets::play::commands::CCommands;
use crate::packets::play::join_game::CJoinGame;
use crate::packets::play::misc::{
    CKeepAlive, CSetCenterChunk, CStartConfiguration, CTransfer, SAcknowledgeConfiguration,
    SChatSessionUpdate, SKeepAlive,
};
use crate::packets::play::respawn::CRespawn;
use crate::packets::play::tab_complete::{CTabCompleteResponse, STabCompleteRequest};
use crate::packets::status::{CPingResponse, CStatusResponse, SPingRequest, SStatusRequest};
use crate::packets::{Packet, SHandshake};
use crate::registry::{decodable, kind_index, lemma_kind_index_bound, lemma_kind_index_injective, PacketKind, PacketRegistry};
use crate::version::{
    law_range_members, law_supported_versions_sorted, supported_versions, versions_between, ConnectionState, Direction, ProtocolVersion,
    V1_7_2, V1_8, V1_9, V1_12, V1_12_1, V1_13, V1_14, V1_15, V1_16, V1_16_2, V1_17, V1_18, V1_19, V1_19_1, V1_19_3, V1_19_4, V1_20_2, V1_20_3, V1_20_5, V1_21, V1_21_2, V1_21_5, V1_21_6, V1_21_9,
};

verus! {

/// A packet ID for a range of protocol versions.
#[derive(Debug, Clone, Copy, PartialEq, Eq, Structural)]
pub struct PacketMapping {
    /// The packet ID for this version range.
    pub id: i32,
    /// The first version (inclusive) where this mapping is valid.
    pub from: ProtocolVersion,
    /// The last version (inclusive) where this mapping is valid; `None`
    /// means until the next mapping, or the last supported version.
    pub to: Option<ProtocolVersion>,
    /// The proxy can send the packet but does not decode it on reception.
    pub encode_only: bool,
}

/// Where mapping `i` of `m` ends, and whether that end is itself covered:
/// its explicit end; else the start of the next mapping, excluded; else the
/// last supported version.
pub open spec fn mapping_end(m: Seq<PacketMapping>, i: int) -> (ProtocolVersion, bool) {
    match m[i].to {
        Some(t) => (t, true),
        None => if i + 1 < m.len() {
            (m[i + 1].from, false)
        } else {
            (supported_versions().last(), true)
        },
    }
}

/// Mapping `i` of `m` gives protocol `v` its ID.
pub open spec fn covers(m: Seq<PacketMapping>, i: int, v: i32) -> bool {
    let (to, inclusive) = mapping_end(m, i);
    &&& versions_between(m[i].from, to).contains(ProtocolVersion(v))
    &&& (inclusive || v != to.0)
}

/// The ID that the first `n` mappings of `m` give protocol `v`: that of the
/// last of them covering `v`.
pub open spec fn mapped_id(m: Seq<PacketMapping>, v: i32, n: int) -> Option<i32>
    decreases n,
{
    if n <= 0 {
        None
    } else if covers(m, n - 1, v) {
        Some(m[n - 1].id)
    } else {
        mapped_id(m, v, n - 1)
    }
}

/// One of the first `n` mappings of `m` covers protocol `v`, is decoded,
/// and has ID `id`.
pub open spec fn decodes(m: Seq<PacketMapping>, v: i32, id: i32, n: int) -> bool
    decreases n,
{
    n > 0 && ((covers(m, n - 1, v) && !m[n - 1].encode_only && m[n - 1].id == id) || decodes(
        m,
        v,
        id,
        n - 1,
    ))
}

/// `new` is `old` with packet `kind` registered in `state` and `direction`
/// by the first `n` mappings of `m`: each covered version gets the mapping's
/// ID for encoding, and, unless the mapping is encode-only, a decoder from
/// that ID to `kind`.
pub open spec fn registration_applied(
    old: PacketRegistry,
    new: PacketRegistry,
    state: ConnectionState,
    direction: Direction,
    kind: PacketKind,
    m: Seq<PacketMapping>,
    n: int,
) -> bool {
    &&& forall|s: ConnectionState, d: Direction, v: i32, k: PacketKind| #[trigger]
        new.id_for(s, d, v, k) == if s == state && d == direction && k == kind && mapped_id(
            m,
            v,
            n,
        ) is Some {
            mapped_id(m, v, n)
        } else {
            old.id_for(s, d, v, k)
        }
    &&& forall|s: ConnectionState, d: Direction, v: i32, id: i32| #[trigger]
        new.decoder_for(s, d, v, id) == if s == state && d == direction && decodes(m, v, id, n) {
            Some(kind)
        } else {
            old.decoder_for(s, d, v, id)
        }
}

/// One of the first `j` versions of `r` is protocol `v`.
pub open spec fn seen(r: Seq<ProtocolVersion>, j: int, v: i32) -> bool
    decreases j,
{
    j > 0 && (r[j - 1].0 == v || seen(r, j - 1, v))
}

proof fn lemma_seen_contains(r: Seq<ProtocolVersion>, j: int, v: i32)
    requires
        0 <= j <= r.len(),
    ensures
        seen(r, j, v) <==> exists|u: int| 0 <= u < j && r[u] == ProtocolVersion(v),
    decreases j,
{
    if j > 0 {
        lemma_seen_contains(r, j - 1, v);
        if r[j - 1].0 == v {
            assert(r[j - 1] == ProtocolVersion(v));
        }
    }
}

/// Registers packet `kind` in `state` and `direction` by `mappings`.
pub fn register_mappings(
    registry: &mut PacketRegistry,
    state: ConnectionState,
    direction: Direction,
    kind: PacketKind,
    mappings: &Vec<PacketMapping>,
)
    requires
        decodable(kind) || forall|i: int| 0 <= i < mappings@.len() ==> (#[trigger] mappings@[i]).encode_only,
    ensures
        registration_applied(
            *old(registry),
            *final(registry),
            state,
            direction,
            kind,
            mappings@,
            mappings@.len() as int,
        ),
{
    let ghost r0 = *registry;
    let ghost m = mappings@;
    let all = ProtocolVersion::supported();
    let last = all[all.len() - 1];
    let mut i: usize = 0;
    while i < mappings.len()
        invariant
            0 <= i <= mappings@.len(),
            m == mappings@,
            last == supported_versions().last(),
            decodable(kind) || forall|i: int| 0 <= i < m.len() ==> (#[trigger] m[i]).encode_only,
            registration_applied(r0, *registry, state, direction, kind, m, i as int),
        decreases mappings@.len() - i,
    {
        let mapping = mappings[i];
        let (to, inclusive) = match mapping.to {
            Some(t) => (t, true),
            None => if i + 1 < mappings.len() {
                (mappings[i + 1].from, false)
            } else {
                (last, true)
            },
        };
        assert((to, inclusive) == mapping_end(m, i as int));
        let range = ProtocolVersion::range(mapping.from, to);
        let mut j: usize = 0;
        while j < range.len()
            invariant
                0 <= i < m.len(),
                0 <= j <= range@.len(),
                m == mappings@,
                mapping == m[i as int],
                decodable(kind) || mapping.encode_only,
                range@ == versions_between(mapping.from, to),
                forall|s: ConnectionState, d: Direction, v: i32, k: PacketKind| #[trigger]
                    registry.id_for(s, d, v, k) == if s == state && d == direction && k == kind {
                        if seen(range@, j as int, v) && (inclusive || v != to.0) {
                            Some(mapping.id)
                        } else if mapped_id(m, v, i as int) is Some {
                            mapped_id(m, v, i as int)
                        } else {
                            r0.id_for(s, d, v, k)
                        }
                    } else {
                        r0.id_for(s, d, v, k)
                    },
                forall|s: ConnectionState, d: Direction, v: i32, id: i32| #[trigger]
                    registry.decoder_for(s, d, v, id) == if s == state && d == direction && (decodes(
                        m,
                        v,
                        id,
                        i as int,
                    ) || (seen(range@, j as int, v) && (inclusive || v != to.0)
                        && !mapping.encode_only && mapping.id == id)) {
                        Some(kind)
                    } else {
                        r0.decoder_for(s, d, v, id)
                    },
            decreases range@.len() - j,
        {
            let version = range[j];
            if inclusive || version.0 != to.0 {
                registry.insert_type_mapping((state, direction, version), kind, mapping.id);
                if !mapping.encode_only {
                    registry.insert_decoder((state, direction, version), mapping.id, kind);
                }
            }
            j = j + 1;
        }
        proof {
            assert forall|v: i32| seen(range@, range@.len() as int, v) && (inclusive || v != to.0)
                <==> covers(m, i as int, v) by {
                lemma_seen_contains(range@, range@.len() as int, v);
            }
        }
        i = i + 1;
    }
}

/// Fluent builder registering one packet type in the registry.
pub struct PacketRegistration<P: Packet> {
    state: ConnectionState,
    direction: Direction,
    mappings: Vec<PacketMapping>,
    _phantom: PhantomData<P>,
}

impl<P: Packet> PacketRegistration<P> {
    /// The connection state the packet is registered in.
    pub closed spec fn registered_state(&self) -> ConnectionState {
        self.state
    }

    /// The direction the packet is registered in.
    pub closed spec fn registered_direction(&self) -> Direction {
        self.direction
    }

    /// The mappings added so far, in order.
    pub closed spec fn registered_mappings(&self) -> Seq<PacketMapping> {
        self.mappings@
    }

    /// Starts the registration of `P` in a state and direction.
    pub fn new(state: ConnectionState, direction: Direction) -> (r: Self)
        ensures
            r.registered_state() == state,
            r.registered_direction() == direction,
            r.registered_mappings() == Seq::<PacketMapping>::empty(),
    {
        PacketRegistration { state, direction, mappings: Vec::new(), _phantom: PhantomData }
    }

    /// Adds a mapping: the packet has ID `id` from version `from` on, up to
    /// the version before the next mapping's start, or the last supported
    /// version for the last mapping. An `encode_only` mapping gets no
    /// decoder.
    pub fn map(self, id: i32, from: ProtocolVersion, encode_only: bool) -> (r: Self)
        ensures
            r.registered_state() == self.registered_state(),
            r.registered_direction() == self.registered_direction(),
            r.registered_mappings() == self.registered_mappings().push(
                PacketMapping { id, from, to: None, encode_only },
            ),
    {
        let mut s = self;
        s.mappings.push(PacketMapping { id, from, to: None, encode_only });
        s
    }

    /// Adds a mapping with an explicit last version (inclusive).
    pub fn map_range(self, id: i32, from: ProtocolVersion, to: ProtocolVersion, encode_only: bool) -> (r: Self)
        ensures
            r.registered_state() == self.registered_state(),
            r.registered_direction() == self.registered_direction(),
            r.registered_mappings() == self.registered_mappings().push(
                PacketMapping { id, from, to: Some(to), encode_only },
            ),
    {
        let mut s = self;
        s.mappings.push(PacketMapping { id, from, to: Some(to), encode_only });
        s
    }

    /// Registers the packet in `registry`: every version a mapping covers
    /// gets the mapping's ID for encoding, and a decoder to `P` unless the
    /// mapping is encode-only.
    pub fn register(self, registry: &mut PacketRegistry)
        ensures
            registration_applied(
                *old(registry),
                *final(registry),
                self.registered_state(),
                self.registered_direction(),
                P::packet_kind(),
                self.registered_mappings(),
                self.registered_mappings().len() as int,
            ),
    {
        let kind = P::kind();
        register_mappings(registry, self.state, self.direction, kind, &self.mappings);
    }
}

/// A mapping from protocol `from` on, to the next mapping or the last
/// supported version.
pub open spec fn open_mapping(id: i32, from: i32, encode_only: bool) -> PacketMapping {
    PacketMapping { id, from: ProtocolVersion(from), to: None, encode_only }
}

/// Where the default registry registers packet `k`, and by which mappings.
/// A packet without a typed form here (see [`decodable`]) has encode-only
/// mappings.
pub open spec fn default_registration(k: PacketKind) -> (ConnectionState, Direction, Seq<PacketMapping>) {
    match k {
        PacketKind::SHandshake => (ConnectionState::Handshake, Direction::Serverbound, Seq::empty().push(open_mapping(0x00, V1_7_2, false))),
        PacketKind::SStatusRequest => (ConnectionState::Status, Direction::Serverbound, Seq::empty().push(open_mapping(0x00, V1_7_2, false))),
        PacketKind::SPingRequest => (ConnectionState::Status, Direction::Serverbound, Seq::empty().push(open_mapping(0x01, V1_7_2, false))),
        PacketKind::CStatusResponse => (ConnectionState::Status, Direction::Clientbound, Seq::empty().push(open_mapping(0x00, V1_7_2, false))),
        PacketKind::CPingResponse => (ConnectionState::Status, Direction::Clientbound, Seq::empty().push(open_mapping(0x01, V1_7_2, false))),
        PacketKind::SLoginStart => (ConnectionState::Login, Direction::Serverbound, Seq::empty().push(open_mapping(0x00, V1_7_2, false))),
        PacketKind::SEncryptionResponse => (ConnectionState::Login, Direction::Serverbound, Seq::empty().push(open_mapping(0x01, V1_7_2, false))),
        PacketKind::SLoginPluginResponse => (ConnectionState::Login, Direction::Serverbound, Seq::empty().push(open_mapping(0x02, V1_13, false))),
        PacketKind::SLoginAcknowledged => (ConnectionState::Login, Direction::Serverbound, Seq::empty().push(open_mapping(0x03, V1_20_2, false))),
        PacketKind::CLoginDisconnect => (ConnectionState::Login, Direction::Clientbound, Seq::empty().push(open_mapping(0x00, V1_7_2, false))),
        PacketKind::CEncryptionRequest => (ConnectionState::Login, Direction::Clientbound, Seq::empty().push(open_mapping(0x01, V1_7_2, false))),
        PacketKind::CLoginSuccess => (ConnectionState::Login, Direction::Clientbound, Seq::empty().push(open_mapping(0x02, V1_7_2, false))),
        PacketKind::CSetCompression => (ConnectionState::Login, Direction::Clientbound, Seq::empty().push(open_mapping(0x03, V1_8, false))),
        PacketKind::CLoginPluginRequest => (ConnectionState::Login, Direction::Clientbound, Seq::empty().push(open_mapping(0x04, V1_13, false))),
        PacketKind::SConfigPluginMessage => (ConnectionState::Config, Direction::Serverbound, Seq::empty().push(open_mapping(0x01, V1_20_2, true)).push(open_mapping(0x02, V1_20_5, true))),
        PacketKind::SAcknowledgeFinishConfig => (ConnectionState::Config, Direction::Serverbound, Seq::empty().push(open_mapping(0x02, V1_20_2, true)).push(open_mapping(0x03, V1_20_5, true))),
        PacketKind::SKnownPacks => (ConnectionState::Config, Direction::Serverbound, Seq::empty().push(open_mapping(0x07, V1_20_5, true))),
        PacketKind::CConfigPluginMessage => (ConnectionState::Config, Direction::Clientbound, Seq::empty().push(open_mapping(0x00, V1_20_2, true)).push(open_mapping(0x01, V1_20_5, true))),
        PacketKind::CConfigDisconnect => (ConnectionState::Config, Direction::Clientbound, Seq::empty().push(open_mapping(0x01, V1_20_2, true)).push(open_mapping(0x02, V1_20_5, true))),
        PacketKind::CFinishConfig => (ConnectionState::Config, Direction::Clientbound, Seq::empty().push(open_mapping(0x02, V1_20_2, true)).push(open_mapping(0x03, V1_20_5, true))),
        PacketKind::CRegistryData => (ConnectionState::Config, Direction::Clientbound, Seq::empty().push(open_mapping(0x05, V1_20_2, true)).push(open_mapping(0x07, V1_20_5, true))),
        PacketKind::CKnownPacks => (ConnectionState::Config, Direction::Clientbound, Seq::empty().push(open_mapping(0x0E, V1_20_5, true))),
        PacketKind::CCommands => (ConnectionState::Play, Direction::Clientbound, Seq::empty().push(open_mapping(0x11, V1_13, false)).push(open_mapping(0x12, V1_15, false)).push(open_mapping(0x11, V1_16, false)).push(open_mapping(0x10, V1_16_2, false)).push(open_mapping(0x12, V1_17, false)).push(open_mapping(0x0F, V1_19, false)).push(open_mapping(0x0E, V1_19_3, false)).push(open_mapping(0x10, V1_19_4, false)).push(open_mapping(0x11, V1_20_2, false)).push(open_mapping(0x10, V1_21_5, false))),
        PacketKind::STabCompleteRequest => (ConnectionState::Play, Direction::Serverbound, Seq::empty().push(open_mapping(0x05, V1_13, false)).push(open_mapping(0x06, V1_14, false)).push(open_mapping(0x08, V1_19, false)).push(open_mapping(0x09, V1_19_1, false)).push(open_mapping(0x08, V1_19_3, false)).push(open_mapping(0x09, V1_19_4, false)).push(open_mapping(0x0A, V1_20_2, false)).push(open_mapping(0x0B, V1_20_5, false)).push(open_mapping(0x0D, V1_21_2, false)).push(open_mapping(0x0E, V1_21_6, false))),
        PacketKind::CTabCompleteResponse => (ConnectionState::Play, Direction::Clientbound, Seq::empty().push(open_mapping(0x10, V1_13, false)).push(open_mapping(0x11, V1_15, false)).push(open_mapping(0x10, V1_16, false)).push(open_mapping(0x0F, V1_16_2, false)).push(open_mapping(0x11, V1_17, false)).push(open_mapping(0x0E, V1_19, false)).push(open_mapping(0x0D, V1_19_3, false)).push(open_mapping(0x0F, V1_19_4, false)).push(open_mapping(0x10, V1_20_2, false)).push(open_mapping(0x0F, V1_21_5, false))),
        PacketKind::CKeepAlive => (ConnectionState::Play, Direction::Clientbound, Seq::empty().push(open_mapping(0x00, V1_7_2, false)).push(open_mapping(0x1F, V1_9, false)).push(open_mapping(0x21, V1_13, false)).push(open_mapping(0x20, V1_14, false)).push(open_mapping(0x21, V1_15, false)).push(open_mapping(0x20, V1_16, false)).push(open_mapping(0x1F, V1_16_2, false)).push(open_mapping(0x21, V1_17, false)).push(open_mapping(0x1E, V1_19, false)).push(open_mapping(0x20, V1_19_1, false)).push(open_mapping(0x1F, V1_19_3, false)).push(open_mapping(0x23, V1_19_4, false)).push(open_mapping(0x24, V1_20_2, false)).push(open_mapping(0x26, V1_20_5, false)).push(open_mapping(0x27, V1_21_2, false)).push(open_mapping(0x26, V1_21_5, false)).push(open_mapping(0x2B, V1_21_9, false))),
        PacketKind::CDisconnect => (ConnectionState::Play, Direction::Clientbound, Seq::empty().push(open_mapping(0x40, V1_7_2, true)).push(open_mapping(0x1A, V1_9, true)).push(open_mapping(0x1B, V1_13, true)).push(open_mapping(0x1A, V1_14, true)).push(open_mapping(0x1B, V1_15, true)).push(open_mapping(0x1A, V1_16, true)).push(open_mapping(0x19, V1_16_2, true)).push(open_mapping(0x1A, V1_17, true)).push(open_mapping(0x17, V1_19, true)).push(open_mapping(0x19, V1_19_1, true)).push(open_mapping(0x17, V1_19_3, true)).push(open_mapping(0x1A, V1_19_4, true)).push(open_mapping(0x1B, V1_20_2, true)).push(open_mapping(0x1D, V1_20_5, true)).push(open_mapping(0x1C, V1_21_5, true)).push(open_mapping(0x20, V1_21_9, true))),
        PacketKind::CJoinGame => (ConnectionState::Play, Direction::Clientbound, Seq::empty().push(open_mapping(0x01, V1_7_2, true)).push(open_mapping(0x23, V1_9, true)).push(open_mapping(0x25, V1_13, true)).push(open_mapping(0x25, V1_14, true)).push(open_mapping(0x26, V1_15, true)).push(open_mapping(0x25, V1_16, true)).push(open_mapping(0x24, V1_16_2, true)).push(open_mapping(0x26, V1_17, true)).push(open_mapping(0x23, V1_19, true)).push(open_mapping(0x25, V1_19_1, true)).push(open_mapping(0x24, V1_19_3, true)).push(open_mapping(0x28, V1_19_4, true)).push(open_mapping(0x29, V1_20_2, true)).push(open_mapping(0x2B, V1_20_5, true)).push(open_mapping(0x2C, V1_21_2, true)).push(open_mapping(0x2B, V1_21_5, true)).push(open_mapping(0x30, V1_21_9, true))),
        PacketKind::CRespawn => (ConnectionState::Play, Direction::Clientbound, Seq::empty().push(open_mapping(0x07, V1_7_2, true)).push(open_mapping(0x33, V1_9, true)).push(open_mapping(0x34, V1_12, true)).push(open_mapping(0x35, V1_12_1, true)).push(open_mapping(0x38, V1_13, true)).push(open_mapping(0x3A, V1_14, true)).push(open_mapping(0x3B, V1_15, true)).push(open_mapping(0x3A, V1_16, true)).push(open_mapping(0x39, V1_16_2, true)).push(open_mapping(0x3D, V1_17, true)).push(open_mapping(0x3B, V1_19, true)).push(open_mapping(0x3E, V1_19_1, true)).push(open_mapping(0x3D, V1_19_3, true)).push(open_mapping(0x41, V1_19_4, true)).push(open_mapping(0x43, V1_20_2, true)).push(open_mapping(0x45, V1_20_3, true)).push(open_mapping(0x47, V1_20_5, true)).push(open_mapping(0x4C, V1_21_2, true)).push(open_mapping(0x4B, V1_21_5, true)).push(open_mapping(0x50, V1_21_9, true))),
        PacketKind::CPluginMessage => (ConnectionState::Play, Direction::Clientbound, Seq::empty().push(open_mapping(0x3F, V1_7_2, true)).push(open_mapping(0x18, V1_9, true)).push(open_mapping(0x19, V1_13, true)).push(open_mapping(0x18, V1_14, true)).push(open_mapping(0x19, V1_15, true)).push(open_mapping(0x18, V1_16, true)).push(open_mapping(0x17, V1_16_2, true)).push(open_mapping(0x18, V1_17, true)).push(open_mapping(0x15, V1_19, true)).push(open_mapping(0x16, V1_19_1, true)).push(open_mapping(0x15, V1_19_3, true)).push(open_mapping(0x17, V1_19_4, true)).push(open_mapping(0x18, V1_20_2, true)).push(open_mapping(0x19, V1_20_5, true)).push(open_mapping(0x18, V1_21_5, true))),
        PacketKind::CChatMessageLegacy => (ConnectionState::Play, Direction::Clientbound, Seq::empty().push(open_mapping(0x02, V1_7_2, true)).push(open_mapping(0x0F, V1_9, true)).push(open_mapping(0x0E, V1_13, true)).push(open_mapping(0x0F, V1_15, true)).push(open_mapping(0x0E, V1_16, true)).push(open_mapping(0x0F, V1_17, true))),
        PacketKind::CSystemChatMessage => (ConnectionState::Play, Direction::Clientbound, Seq::empty().push(open_mapping(0x5F, V1_19, true)).push(open_mapping(0x62, V1_19_1, true)).push(open_mapping(0x60, V1_19_3, true)).push(open_mapping(0x64, V1_19_4, true)).push(open_mapping(0x67, V1_20_2, true)).push(open_mapping(0x69, V1_20_3, true)).push(open_mapping(0x6C, V1_20_5, true)).push(open_mapping(0x73, V1_21_2, true)).push(open_mapping(0x72, V1_21_5, true)).push(open_mapping(0x77, V1_21_9, true))),
        PacketKind::CTitleLegacy => (ConnectionState::Play, Direction::Clientbound, Seq::empty().push(open_mapping(0x45, V1_8, true)).push(open_mapping(0x47, V1_9, true)).push(open_mapping(0x48, V1_12, true)).push(open_mapping(0x4B, V1_13, true)).push(open_mapping(0x4F, V1_14, true)).push(open_mapping(0x50, V1_15, true)).push(open_mapping(0x4F, V1_16, true))),
        PacketKind::CSetTitle => (ConnectionState::Play, Direction::Clientbound, Seq::empty().push(open_mapping(0x59, V1_17, true)).push(open_mapping(0x5A, V1_18, true)).push(open_mapping(0x5D, V1_19_1, true)).push(open_mapping(0x5B, V1_19_3, true)).push(open_mapping(0x5F, V1_19_4, true)).push(open_mapping(0x61, V1_20_2, true)).push(open_mapping(0x63, V1_20_3, true)).push(open_mapping(0x65, V1_20_5, true)).push(open_mapping(0x6C, V1_21_2, true)).push(open_mapping(0x6B, V1_21_5, true)).push(open_mapping(0x70, V1_21_9, true))),
        PacketKind::CSetSubtitle => (ConnectionState::Play, Direction::Clientbound, Seq::empty().push(open_mapping(0x57, V1_17, true)).push(open_mapping(0x58, V1_18, true)).push(open_mapping(0x5B, V1_19_1, true)).push(open_mapping(0x59, V1_19_3, true)).push(open_mapping(0x5D, V1_19_4, true)).push(open_mapping(0x5F, V1_20_2, true)).push(open_mapping(0x61, V1_20_3, true)).push(open_mapping(0x63, V1_20_5, true)).push(open_mapping(0x6A, V1_21_2, true)).push(open_mapping(0x69, V1_21_5, true)).push(open_mapping(0x6E, V1_21_9, true))),
        PacketKind::CSetTitleTimes => (ConnectionState::Play, Direction::Clientbound, Seq::empty().push(open_mapping(0x5A, V1_17, true)).push(open_mapping(0x5B, V1_18, true)).push(open_mapping(0x5E, V1_19_1, true)).push(open_mapping(0x5C, V1_19_3, true)).push(open_mapping(0x60, V1_19_4, true)).push(open_mapping(0x62, V1_20_2, true)).push(open_mapping(0x64, V1_20_3, true)).push(open_mapping(0x66, V1_20_5, true)).push(open_mapping(0x6D, V1_21_2, true)).push(open_mapping(0x6C, V1_21_5, true)).push(open_mapping(0x71, V1_21_9, true))),
        PacketKind::CTransfer => (ConnectionState::Play, Direction::Clientbound, Seq::empty().push(open_mapping(0x73, V1_20_5, true)).push(open_mapping(0x7A, V1_21_2, true)).push(open_mapping(0x7F, V1_21_9, true))),
        PacketKind::CStartConfiguration => (ConnectionState::Play, Direction::Clientbound, Seq::empty().push(open_mapping(0x65, V1_20_2, true)).push(open_mapping(0x67, V1_20_3, true)).push(open_mapping(0x69, V1_20_5, true)).push(open_mapping(0x70, V1_21_2, true)).push(open_mapping(0x6F, V1_21_5, true)).push(open_mapping(0x74, V1_21_9, true))),
        PacketKind::CGameEvent => (ConnectionState::Play, Direction::Clientbound, Seq::empty().push(open_mapping(0x1B, V1_9, true)).push(open_mapping(0x1E, V1_13, true)).push(open_mapping(0x1D, V1_14, true)).push(open_mapping(0x1E, V1_15, true)).push(open_mapping(0x1D, V1_16, true)).push(open_mapping(0x1C, V1_16_2, true)).push(open_mapping(0x1D, V1_17, true)).push(open_mapping(0x1B, V1_19, true)).push(open_mapping(0x1D, V1_19_1, true)).push(open_mapping(0x1C, V1_19_3, true)).push(open_mapping(0x20, V1_19_4, true)).push(open_mapping(0x20, V1_20_2, true)).push(open_mapping(0x22, V1_20_5, true)).push(open_mapping(0x23, V1_21_2, true)).push(open_mapping(0x22, V1_21_5, true)).push(open_mapping(0x26, V1_21_9, true))),
        PacketKind::CSetCenterChunk => (ConnectionState::Play, Direction::Clientbound, Seq::empty().push(open_mapping(0x40, V1_14, true)).push(open_mapping(0x41, V1_15, true)).push(open_mapping(0x40, V1_16, true)).push(open_mapping(0x49, V1_17, true)).push(open_mapping(0x4A, V1_18, true)).push(open_mapping(0x48, V1_19, true)).push(open_mapping(0x4B, V1_19_1, true)).push(open_mapping(0x4A, V1_19_3, true)).push(open_mapping(0x4E, V1_19_4, true)).push(open_mapping(0x50, V1_20_2, true)).push(open_mapping(0x52, V1_20_3, true)).push(open_mapping(0x54, V1_20_5, true)).push(open_mapping(0x58, V1_21_2, true)).push(open_mapping(0x57, V1_21_5, true)).push(open_mapping(0x5C, V1_21_9, true))),
        PacketKind::CChunkBatchStart => (ConnectionState::Play, Direction::Clientbound, Seq::empty().push(open_mapping(0x0D, V1_20_2, true)).push(open_mapping(0x0D, V1_20_5, true)).push(open_mapping(0x0C, V1_21_5, true)).push(open_mapping(0x0C, V1_21_9, true))),
        PacketKind::CChunkBatchFinished => (ConnectionState::Play, Direction::Clientbound, Seq::empty().push(open_mapping(0x0C, V1_20_2, true)).push(open_mapping(0x0C, V1_20_5, true)).push(open_mapping(0x0B, V1_21_5, true)).push(open_mapping(0x0B, V1_21_9, true))),
        PacketKind::CSetDefaultSpawnPosition => (ConnectionState::Play, Direction::Clientbound, Seq::empty().push(open_mapping(0x05, V1_7_2, true)).push(open_mapping(0x43, V1_9, true)).push(open_mapping(0x46, V1_12, true)).push(open_mapping(0x49, V1_13, true)).push(open_mapping(0x4D, V1_14, true)).push(open_mapping(0x4E, V1_15, true)).push(open_mapping(0x42, V1_16, true)).push(open_mapping(0x4B, V1_17, true)).push(open_mapping(0x4C, V1_18, true)).push(open_mapping(0x4A, V1_19, true)).push(open_mapping(0x4D, V1_19_1, true)).push(open_mapping(0x4C, V1_19_3, true)).push(open_mapping(0x50, V1_19_4, true)).push(open_mapping(0x52, V1_20_2, true)).push(open_mapping(0x54, V1_20_3, true)).push(open_mapping(0x56, V1_20_5, true)).push(open_mapping(0x5B, V1_21_2, true)).push(open_mapping(0x5A, V1_21_5, true)).push(open_mapping(0x5F, V1_21_9, true))),
        PacketKind::CSynchronizePlayerPosition => (ConnectionState::Play, Direction::Clientbound, Seq::empty().push(open_mapping(0x08, V1_7_2, true)).push(open_mapping(0x2E, V1_9, true)).push(open_mapping(0x2F, V1_12_1, true)).push(open_mapping(0x32, V1_13, true)).push(open_mapping(0x35, V1_14, true)).push(open_mapping(0x36, V1_15, true)).push(open_mapping(0x35, V1_16, true)).push(open_mapping(0x34, V1_16_2, true)).push(open_mapping(0x38, V1_17, true)).push(open_mapping(0x39, V1_18, true)).push(open_mapping(0x36, V1_19, true)).push(open_mapping(0x39, V1_19_1, true)).push(open_mapping(0x38, V1_19_3, true)).push(open_mapping(0x3C, V1_19_4, true)).push(open_mapping(0x3E, V1_20_2, true)).push(open_mapping(0x40, V1_20_3, true)).push(open_mapping(0x42, V1_20_5, true)).push(open_mapping(0x42, V1_21_2, true)).push(open_mapping(0x41, V1_21_5, true)).push(open_mapping(0x46, V1_21_9, true))),
        PacketKind::SAcknowledgeConfiguration => (ConnectionState::Play, Direction::Serverbound, Seq::empty().push(open_mapping(0x0B, V1_20_2, false)).push(open_mapping(0x0C, V1_20_5, false)).push(open_mapping(0x0E, V1_21_2, false)).push(open_mapping(0x0F, V1_21_6, false))),
        PacketKind::SKeepAlive => (ConnectionState::Play, Direction::Serverbound, Seq::empty().push(open_mapping(0x00, V1_7_2, false)).push(open_mapping(0x0B, V1_9, false)).push(open_mapping(0x0C, V1_12, false)).push(open_mapping(0x0B, V1_12_1, false)).push(open_mapping(0x0E, V1_13, false)).push(open_mapping(0x0F, V1_14, false)).push(open_mapping(0x10, V1_16, false)).push(open_mapping(0x0F, V1_17, false)).push(open_mapping(0x11, V1_19, false)).push(open_mapping(0x12, V1_19_1, false)).push(open_mapping(0x11, V1_19_3, false)).push(open_mapping(0x12, V1_19_4, false)).push(open_mapping(0x14, V1_20_2, false)).push(open_mapping(0x15, V1_20_3, false)).push(open_mapping(0x18, V1_20_5, false)).push(open_mapping(0x1A, V1_21_2, false)).push(open_mapping(0x1B, V1_21_6, false))),
        PacketKind::SChatMessage => (ConnectionState::Play, Direction::Serverbound, Seq::empty().push(open_mapping(0x01, V1_7_2, true)).push(open_mapping(0x02, V1_9, true)).push(open_mapping(0x03, V1_12, true)).push(open_mapping(0x02, V1_12_1, true)).push(open_mapping(0x02, V1_13, true)).push(open_mapping(0x03, V1_14, true)).push(open_mapping(0x03, V1_15, true)).push(open_mapping(0x03, V1_16, true)).push(open_mapping(0x03, V1_17, true)).push(open_mapping(0x05, V1_19, true)).push(open_mapping(0x05, V1_19_1, true)).push(open_mapping(0x05, V1_19_3, true)).push(open_mapping(0x05, V1_19_4, true)).push(open_mapping(0x06, V1_20_2, true)).push(open_mapping(0x06, V1_20_5, true)).push(open_mapping(0x07, V1_21_2, true)).push(open_mapping(0x08, V1_21_6, true))),
        PacketKind::SChatCommand => (ConnectionState::Play, Direction::Serverbound, Seq::empty().push(open_mapping(0x04, V1_19, true)).push(open_mapping(0x04, V1_19_1, true)).push(open_mapping(0x04, V1_19_3, true)).push(open_mapping(0x04, V1_19_4, true)).push(open_mapping(0x04, V1_20_2, true)).push(open_mapping(0x04, V1_20_5, true)).push(open_mapping(0x05, V1_21_2, true)).push(open_mapping(0x06, V1_21_6, true))),
        PacketKind::SChatSessionUpdate => (ConnectionState::Play, Direction::Serverbound, Seq::empty().push(open_mapping(0x07, V1_21, true)).push(open_mapping(0x08, V1_21_2, true)).push(open_mapping(0x09, V1_21_6, true))),
        PacketKind::SPluginMessage => (ConnectionState::Play, Direction::Serverbound, Seq::empty().push(open_mapping(0x17, V1_7_2, true)).push(open_mapping(0x09, V1_9, true)).push(open_mapping(0x0A, V1_12, true)).push(open_mapping(0x09, V1_12_1, true)).push(open_mapping(0x0A, V1_13, true)).push(open_mapping(0x0B, V1_14, true)).push(open_mapping(0x0A, V1_17, true)).push(open_mapping(0x0C, V1_19, true)).push(open_mapping(0x0D, V1_19_1, true)).push(open_mapping(0x0C, V1_19_3, true)).push(open_mapping(0x0D, V1_19_4, true)).push(open_mapping(0x0F, V1_20_2, true)).push(open_mapping(0x10, V1_20_3, true)).push(open_mapping(0x12, V1_20_5, true)).push(open_mapping(0x14, V1_21_2, true)).push(open_mapping(0x15, V1_21_6, true))),
    }
}


/// The ID the default registry gives packet `k` in state `s`, direction `d`
/// and protocol `v`.
pub open spec fn default_id(s: ConnectionState, d: Direction, v: i32, k: PacketKind) -> Option<i32> {
    let (st, dir, m) = default_registration(k);
    if s == st && d == dir {
        mapped_id(m, v, m.len() as int)
    } else {
        None
    }
}

/// The packet the first `n` default registrations decode ID `id` to in
/// state `s`, direction `d` and protocol `v`: a later registration replaces
/// an earlier one.
pub open spec fn default_decoder(s: ConnectionState, d: Direction, v: i32, id: i32, n: int) -> Option<PacketKind>
    decreases n,
{
    if n <= 0 {
        None
    } else {
        let k = kind_at(n - 1);
        let (st, dir, m) = default_registration(k);
        if s == st && d == dir && decodes(m, v, id, m.len() as int) {
            Some(k)
        } else {
            default_decoder(s, d, v, id, n - 1)
        }
    }
}

/// `r` holds the first `n` default registrations and nothing else.
pub open spec fn holds_defaults(r: PacketRegistry, n: int) -> bool {
    &&& forall|s: ConnectionState, d: Direction, v: i32, k: PacketKind| #[trigger]
        r.id_for(s, d, v, k) == if kind_index(k) < n {
            default_id(s, d, v, k)
        } else {
            None
        }
    &&& forall|s: ConnectionState, d: Direction, v: i32, id: i32| #[trigger]
        r.decoder_for(s, d, v, id) == default_decoder(s, d, v, id, n)
}

proof fn lemma_default_step(before: PacketRegistry, after: PacketRegistry, n: int, k: PacketKind)
    requires
        holds_defaults(before, n),
        kind_index(k) == n,
        kind_at(n) == k,
        registration_applied(
            before,
            after,
            default_registration(k).0,
            default_registration(k).1,
            k,
            default_registration(k).2,
            default_registration(k).2.len() as int,
        ),
    ensures
        holds_defaults(after, n + 1),
{
    assert forall|s: ConnectionState, d: Direction, v: i32, kk: PacketKind| #[trigger]
        after.id_for(s, d, v, kk) == if kind_index(kk) < n + 1 {
            default_id(s, d, v, kk)
        } else {
            None
        } by {
        if kind_index(kk) == n {
            lemma_kind_index_injective(kk, k);
        }
    }
}

/// The packet kind with index `i` (see [`kind_index`]).
pub open spec fn kind_at(i: int) -> PacketKind {
    if i == 0 {
        PacketKind::SHandshake
    } else if i == 1 {
        PacketKind::SStatusRequest
    } else if i == 2 {
        PacketKind::SPingRequest
    } else if i == 3 {
        PacketKind::CStatusResponse
    } else if i == 4 {
        PacketKind::CPingResponse
    } else if i == 5 {
        PacketKind::SLoginStart
    } else if i == 6 {
        PacketKind::SEncryptionResponse
    } else if i == 7 {
        PacketKind::SLoginPluginResponse
    } else if i == 8 {
        PacketKind::SLoginAcknowledged
    } else if i == 9 {
        PacketKind::CLoginDisconnect
    } else if i == 10 {
        PacketKind::CEncryptionRequest
    } else if i == 11 {
        PacketKind::CLoginSuccess
    } else if i == 12 {
        PacketKind::CSetCompression
    } else if i == 13 {
        PacketKind::CLoginPluginRequest
    } else if i == 14 {
        PacketKind::SConfigPluginMessage
    } else if i == 15 {
        PacketKind::SAcknowledgeFinishConfig
    } else if i == 16 {
        PacketKind::SKnownPacks
    } else if i == 17 {
        PacketKind::CConfigPluginMessage
    } else if i == 18 {
        PacketKind::CConfigDisconnect
    } else if i == 19 {
        PacketKind::CFinishConfig
    } else if i == 20 {
        PacketKind::CRegistryData
    } else if i == 21 {
        PacketKind::CKnownPacks
    } else if i == 22 {
        PacketKind::CCommands
    } else if i == 23 {
        PacketKind::STabCompleteRequest
    } else if i == 24 {
        PacketKind::CTabCompleteResponse
    } else if i == 25 {
        PacketKind::CKeepAlive
    } else if i == 26 {
        PacketKind::CDisconnect
    } else if i == 27 {
        PacketKind::CJoinGame
    } else if i == 28 {
        PacketKind::CRespawn
    } else if i == 29 {
        PacketKind::CPluginMessage
    } else if i == 30 {
        PacketKind::CChatMessageLegacy
    } else if i == 31 {
        PacketKind::CSystemChatMessage
    } else if i == 32 {
        PacketKind::CTitleLegacy
    } else if i == 33 {
        PacketKind::CSetTitle
    } else if i == 34 {
        PacketKind::CSetSubtitle
    } else if i == 35 {
        PacketKind::CSetTitleTimes
    } else if i == 36 {
        PacketKind::CTransfer
    } else if i == 37 {
        PacketKind::CStartConfiguration
    } else if i == 38 {
        PacketKind::CGameEvent
    } else if i == 39 {
        PacketKind::CSetCenterChunk
    } else if i == 40 {
        PacketKind::CChunkBatchStart
    } else if i == 41 {
        PacketKind::CChunkBatchFinished
    } else if i == 42 {
        PacketKind::CSetDefaultSpawnPosition
    } else if i == 43 {
        PacketKind::CSynchronizePlayerPosition
    } else if i == 44 {
        PacketKind::SAcknowledgeConfiguration
    } else if i == 45 {
        PacketKind::SKeepAlive
    } else if i == 46 {
        PacketKind::SChatMessage
    } else if i == 47 {
        PacketKind::SChatCommand
    } else if i == 48 {
        PacketKind::SChatSessionUpdate
    } else {
        PacketKind::SPluginMessage
    }
}

/// Registers the default handshake, status and login packets.
fn register_handshake_status_login(registry: &mut PacketRegistry)
    requires
        holds_defaults(*old(registry), 0),
    ensures
        holds_defaults(*final(registry), 14),
{
    let ghost before = *registry;
    PacketRegistration::<SHandshake>::new(ConnectionState::Handshake, Direction::Serverbound)
        .map(0x00, ProtocolVersion(V1_7_2), false)
        .register(registry);
    proof {
        lemma_default_step(before, *registry, 0, PacketKind::SHandshake);
    }
    let ghost before = *registry;
    PacketRegistration::<SStatusRequest>::new(ConnectionState::Status, Direction::Serverbound)
        .map(0x00, ProtocolVersion(V1_7_2), false)
        .register(registry);
    proof {
        lemma_default_step(before, *registry, 1, PacketKind::SStatusRequest);
    }
    let ghost before = *registry;
    PacketRegistration::<SPingRequest>::new(ConnectionState::Status, Direction::Serverbound)
        .map(0x01, ProtocolVersion(V1_7_2), false)
        .register(registry);
    proof {
        lemma_default_step(before, *registry, 2, PacketKind::SPingRequest);
    }
    let ghost before = *registry;
    PacketRegistration::<CStatusResponse>::new(ConnectionState::Status, Direction::Clientbound)
        .map(0x00, ProtocolVersion(V1_7_2), false)
        .register(registry);
    proof {
        lemma_default_step(before, *registry, 3, PacketKind::CStatusResponse);
    }
    let ghost before = *registry;
    PacketRegistration::<CPingResponse>::new(ConnectionState::Status, Direction::Clientbound)
        .map(0x01, ProtocolVersion(V1_7_2), false)
        .register(registry);
    proof {
        lemma_default_step(before, *registry, 4, PacketKind::CPingResponse);
    }
    let ghost before = *registry;
    PacketRegistration::<SLoginStart>::new(ConnectionState::Login, Direction::Serverbound)
        .map(0x00, ProtocolVersion(V1_7_2), false)
        .register(registry);
    proof {
        lemma_default_step(before, *registry, 5, PacketKind::SLoginStart);
    }
    let ghost before = *registry;
    PacketRegistration::<SEncryptionResponse>::new(ConnectionState::Login, Direction::Serverbound)
        .map(0x01, ProtocolVersion(V1_7_2), false)
        .register(registry);
    proof {
        lemma_default_step(before, *registry, 6, PacketKind::SEncryptionResponse);
    }
    let ghost before = *registry;
    PacketRegistration::<SLoginPluginResponse>::new(ConnectionState::Login, Direction::Serverbound)
        .map(0x02, ProtocolVersion(V1_13), false)
        .register(registry);
    proof {
        lemma_default_step(before, *registry, 7, PacketKind::SLoginPluginResponse);
    }
    let ghost before = *registry;
    PacketRegistration::<SLoginAcknowledged>::new(ConnectionState::Login, Direction::Serverbound)
        .map(0x03, ProtocolVersion(V1_20_2), false)
        .register(registry);
    proof {
        lemma_default_step(before, *registry, 8, PacketKind::SLoginAcknowledged);
    }
    let ghost before = *registry;
    PacketRegistration::<CLoginDisconnect>::new(ConnectionState::Login, Direction::Clientbound)
        .map(0x00, ProtocolVersion(V1_7_2), false)
        .register(registry);
    proof {
        lemma_default_step(before, *registry, 9, PacketKind::CLoginDisconnect);
    }
    let ghost before = *registry;
    PacketRegistration::<CEncryptionRequest>::new(ConnectionState::Login, Direction::Clientbound)
        .map(0x01, ProtocolVersion(V1_7_2), false)
        .register(registry);
    proof {
        lemma_default_step(before, *registry, 10, PacketKind::CEncryptionRequest);
    }
    let ghost before = *registry;
    PacketRegistration::<CLoginSuccess>::new(ConnectionState::Login, Direction::Clientbound)
        .map(0x02, ProtocolVersion(V1_7_2), false)
        .register(registry);
    proof {
        lemma_default_step(before, *registry, 11, PacketKind::CLoginSuccess);
    }
    let ghost before = *registry;
    PacketRegistration::<CSetCompression>::new(ConnectionState::Login, Direction::Clientbound)
        .map(0x03, ProtocolVersion(V1_8), false)
        .register(registry);
    proof {
        lemma_default_step(before, *registry, 12, PacketKind::CSetCompression);
    }
    let ghost before = *registry;
    PacketRegistration::<CLoginPluginRequest>::new(ConnectionState::Login, Direction::Clientbound)
        .map(0x04, ProtocolVersion(V1_13), false)
        .register(registry);
    proof {
        lemma_default_step(before, *registry, 13, PacketKind::CLoginPluginRequest);
    }
}

/// Registers the default configuration packets. The library has no typed
/// configuration packets, so each is registered by its IDs only, for
/// encoding; their frames decode as opaque bytes.
fn register_config(registry: &mut PacketRegistry)
    requires
        holds_defaults(*old(registry), 14),
    ensures
        holds_defaults(*final(registry), 22),
{
    let ghost before = *registry;
    let mut m: Vec<PacketMapping> = Vec::new();
    m.push(PacketMapping { id: 0x01, from: ProtocolVersion(V1_20_2), to: None, encode_only: true });
    m.push(PacketMapping { id: 0x02, from: ProtocolVersion(V1_20_5), to: None, encode_only: true });
    register_mappings(registry, ConnectionState::Config, Direction::Serverbound, PacketKind::SConfigPluginMessage, &m);
    proof {
        lemma_default_step(before, *registry, 14, PacketKind::SConfigPluginMessage);
    }
    let ghost before = *registry;
    let mut m: Vec<PacketMapping> = Vec::new();
    m.push(PacketMapping { id: 0x02, from: ProtocolVersion(V1_20_2), to: None, encode_only: true });
    m.push(PacketMapping { id: 0x03, from: ProtocolVersion(V1_20_5), to: None, encode_only: true });
    register_mappings(registry, ConnectionState::Config, Direction::Serverbound, PacketKind::SAcknowledgeFinishConfig, &m);
    proof {
        lemma_default_step(before, *registry, 15, PacketKind::SAcknowledgeFinishConfig);
    }
    let ghost before = *registry;
    let mut m: Vec<PacketMapping> = Vec::new();
    m.push(PacketMapping { id: 0x07, from: ProtocolVersion(V1_20_5), to: None, encode_only: true });
    register_mappings(registry, ConnectionState::Config, Direction::Serverbound, PacketKind::SKnownPacks, &m);
    proof {
        lemma_default_step(before, *registry, 16, PacketKind::SKnownPacks);
    }
    let ghost before = *registry;
    let mut m: Vec<PacketMapping> = Vec::new();
    m.push(PacketMapping { id: 0x00, from: ProtocolVersion(V1_20_2), to: None, encode_only: true });
    m.push(PacketMapping { id: 0x01, from: ProtocolVersion(V1_20_5), to: None, encode_only: true });
    register_mappings(registry, ConnectionState::Config, Direction::Clientbound, PacketKind::CConfigPluginMessage, &m);
    proof {
        lemma_default_step(before, *registry, 17, PacketKind::CConfigPluginMessage);
    }
    let ghost before = *registry;
    let mut m: Vec<PacketMapping> = Vec::new();
    m.push(PacketMapping { id: 0x01, from: ProtocolVersion(V1_20_2), to: None, encode_only: true });
    m.push(PacketMapping { id: 0x02, from: ProtocolVersion(V1_20_5), to: None, encode_only: true });
    register_mappings(registry, ConnectionState::Config, Direction::Clientbound, PacketKind::CConfigDisconnect, &m);
    proof {
        lemma_default_step(before, *registry, 18, PacketKind::CConfigDisconnect);
    }
    let ghost before = *registry;
    let mut m: Vec<PacketMapping> = Vec::new();
    m.push(PacketMapping { id: 0x02, from: ProtocolVersion(V1_20_2), to: None, encode_only: true });
    m.push(PacketMapping { id: 0x03, from: ProtocolVersion(V1_20_5), to: None, encode_only: true });
    register_mappings(registry, ConnectionState::Config, Direction::Clientbound, PacketKind::CFinishConfig, &m);
    proof {
        lemma_default_step(before, *registry, 19, PacketKind::CFinishConfig);
    }
    let ghost before = *registry;
    let mut m: Vec<PacketMapping> = Vec::new();
    m.push(PacketMapping { id: 0x05, from: ProtocolVersion(V1_20_2), to: None, encode_only: true });
    m.push(PacketMapping { id: 0x07, from: ProtocolVersion(V1_20_5), to: None, encode_only: true });
    register_mappings(registry, ConnectionState::Config, Direction::Clientbound, PacketKind::CRegistryData, &m);
    proof {
        lemma_default_step(before, *registry, 20, PacketKind::CRegistryData);
    }
    let ghost before = *registry;
    let mut m: Vec<PacketMapping> = Vec::new();
    m.push(PacketMapping { id: 0x0E, from: ProtocolVersion(V1_20_5), to: None, encode_only: true });
    register_mappings(registry, ConnectionState::Config, Direction::Clientbound, PacketKind::CKnownPacks, &m);
    proof {
        lemma_default_step(before, *registry, 21, PacketKind::CKnownPacks);
    }
}

/// Registers the default play: commands, keep-alive, join, respawn and plugin messages packets.
fn register_play_core(registry: &mut PacketRegistry)
    requires
        holds_defaults(*old(registry), 22),
    ensures
        holds_defaults(*final(registry), 30),
{
    let ghost before = *registry;
    PacketRegistration::<CCommands>::new(ConnectionState::Play, Direction::Clientbound)
        .map(0x11, ProtocolVersion(V1_13), false)
        .map(0x12, ProtocolVersion(V1_15), false)
        .map(0x11, ProtocolVersion(V1_16), false)
        .map(0x10, ProtocolVersion(V1_16_2), false)
        .map(0x12, ProtocolVersion(V1_17), false)
        .map(0x0F, ProtocolVersion(V1_19), false)
        .map(0x0E, ProtocolVersion(V1_19_3), false)
        .map(0x10, ProtocolVersion(V1_19_4), false)
        .map(0x11, ProtocolVersion(V1_20_2), false)
        .map(0x10, ProtocolVersion(V1_21_5), false)
        .register(registry);
    proof {
        lemma_default_step(before, *registry, 22, PacketKind::CCommands);
    }
    let ghost before = *registry;
    PacketRegistration::<STabCompleteRequest>::new(ConnectionState::Play, Direction::Serverbound)
        .map(0x05, ProtocolVersion(V1_13), false)
        .map(0x06, ProtocolVersion(V1_14), false)
        .map(0x08, ProtocolVersion(V1_19), false)
        .map(0x09, ProtocolVersion(V1_19_1), false)
        .map(0x08, ProtocolVersion(V1_19_3), false)
        .map(0x09, ProtocolVersion(V1_19_4), false)
        .map(0x0A, ProtocolVersion(V1_20_2), false)
        .map(0x0B, ProtocolVersion(V1_20_5), false)
        .map(0x0D, ProtocolVersion(V1_21_2), false)
        .map(0x0E, ProtocolVersion(V1_21_6), false)
        .register(registry);
    proof {
        lemma_default_step(before, *registry, 23, PacketKind::STabCompleteRequest);
    }
    let ghost before = *registry;
    PacketRegistration::<CTabCompleteResponse>::new(ConnectionState::Play, Direction::Clientbound)
        .map(0x10, ProtocolVersion(V1_13), false)
        .map(0x11, ProtocolVersion(V1_15), false)
        .map(0x10, ProtocolVersion(V1_16), false)
        .map(0x0F, ProtocolVersion(V1_16_2), false)
        .map(0x11, ProtocolVersion(V1_17), false)
        .map(0x0E, ProtocolVersion(V1_19), false)
        .map(0x0D, ProtocolVersion(V1_19_3), false)
        .map(0x0F, ProtocolVersion(V1_19_4), false)
        .map(0x10, ProtocolVersion(V1_20_2), false)
        .map(0x0F, ProtocolVersion(V1_21_5), false)
        .register(registry);
    proof {
        lemma_default_step(before, *registry, 24, PacketKind::CTabCompleteResponse);
    }
    let ghost before = *registry;
    PacketRegistration::<CKeepAlive>::new(ConnectionState::Play, Direction::Clientbound)
        .map(0x00, ProtocolVersion(V1_7_2), false)
        .map(0x1F, ProtocolVersion(V1_9), false)
        .map(0x21, ProtocolVersion(V1_13), false)
        .map(0x20, ProtocolVersion(V1_14), false)
        .map(0x21, ProtocolVersion(V1_15), false)
        .map(0x20, ProtocolVersion(V1_16), false)
        .map(0x1F, ProtocolVersion(V1_16_2), false)
        .map(0x21, ProtocolVersion(V1_17), false)
        .map(0x1E, ProtocolVersion(V1_19), false)
        .map(0x20, ProtocolVersion(V1_19_1), false)
        .map(0x1F, ProtocolVersion(V1_19_3), false)
        .map(0x23, ProtocolVersion(V1_19_4), false)
        .map(0x24, ProtocolVersion(V1_20_2), false)
        .map(0x26, ProtocolVersion(V1_20_5), false)
        .map(0x27, ProtocolVersion(V1_21_2), false)
        .map(0x26, ProtocolVersion(V1_21_5), false)
        .map(0x2B, ProtocolVersion(V1_21_9), false)
        .register(registry);
    proof {
        lemma_default_step(before, *registry, 25, PacketKind::CKeepAlive);
    }
    let ghost before = *registry;
    // No typed play disconnect packet here: its IDs serve encoding only.
    let mut m: Vec<PacketMapping> = Vec::new();
    m.push(PacketMapping { id: 0x40, from: ProtocolVersion(V1_7_2), to: None, encode_only: true });
    m.push(PacketMapping { id: 0x1A, from: ProtocolVersion(V1_9), to: None, encode_only: true });
    m.push(PacketMapping { id: 0x1B, from: ProtocolVersion(V1_13), to: None, encode_only: true });
    m.push(PacketMapping { id: 0x1A, from: ProtocolVersion(V1_14), to: None, encode_only: true });
    m.push(PacketMapping { id: 0x1B, from: ProtocolVersion(V1_15), to: None, encode_only: true });
    m.push(PacketMapping { id: 0x1A, from: ProtocolVersion(V1_16), to: None, encode_only: true });
    m.push(PacketMapping { id: 0x19, from: ProtocolVersion(V1_16_2), to: None, encode_only: true });
    m.push(PacketMapping { id: 0x1A, from: ProtocolVersion(V1_17), to: None, encode_only: true });
    m.push(PacketMapping { id: 0x17, from: ProtocolVersion(V1_19), to: None, encode_only: true });
    m.push(PacketMapping { id: 0x19, from: ProtocolVersion(V1_19_1), to: None, encode_only: true });
    m.push(PacketMapping { id: 0x17, from: ProtocolVersion(V1_19_3), to: None, encode_only: true });
    m.push(PacketMapping { id: 0x1A, from: ProtocolVersion(V1_19_4), to: None, encode_only: true });
    m.push(PacketMapping { id: 0x1B, from: ProtocolVersion(V1_20_2), to: None, encode_only: true });
    m.push(PacketMapping { id: 0x1D, from: ProtocolVersion(V1_20_5), to: None, encode_only: true });
    m.push(PacketMapping { id: 0x1C, from: ProtocolVersion(V1_21_5), to: None, encode_only: true });
    m.push(PacketMapping { id: 0x20, from: ProtocolVersion(V1_21_9), to: None, encode_only: true });
    register_mappings(registry, ConnectionState::Play, Direction::Clientbound, PacketKind::CDisconnect, &m);
    proof {
        lemma_default_step(before, *registry, 26, PacketKind::CDisconnect);
    }
    let ghost before = *registry;
    PacketRegistration::<CJoinGame>::new(ConnectionState::Play, Direction::Clientbound)
        .map(0x01, ProtocolVersion(V1_7_2), true)
        .map(0x23, ProtocolVersion(V1_9), true)
        .map(0x25, ProtocolVersion(V1_13), true)
        .map(0x25, ProtocolVersion(V1_14), true)
        .map(0x26, ProtocolVersion(V1_15), true)
        .map(0x25, ProtocolVersion(V1_16), true)
        .map(0x24, ProtocolVersion(V1_16_2), true)
        .map(0x26, ProtocolVersion(V1_17), true)
        .map(0x23, ProtocolVersion(V1_19), true)
        .map(0x25, ProtocolVersion(V1_19_1), true)
        .map(0x24, ProtocolVersion(V1_19_3), true)
        .map(0x28, ProtocolVersion(V1_19_4), true)
        .map(0x29, ProtocolVersion(V1_20_2), true)
        .map(0x2B, ProtocolVersion(V1_20_5), true)
        .map(0x2C, ProtocolVersion(V1_21_2), true)
        .map(0x2B, ProtocolVersion(V1_21_5), true)
        .map(0x30, ProtocolVersion(V1_21_9), true)
        .register(registry);
    proof {
        lemma_default_step(before, *registry, 27, PacketKind::CJoinGame);
    }
    let ghost before = *registry;
    PacketRegistration::<CRespawn>::new(ConnectionState::Play, Direction::Clientbound)
        .map(0x07, ProtocolVersion(V1_7_2), true)
        .map(0x33, ProtocolVersion(V1_9), true)
        .map(0x34, ProtocolVersion(V1_12), true)
        .map(0x35, ProtocolVersion(V1_12_1), true)
        .map(0x38, ProtocolVersion(V1_13), true)
        .map(0x3A, ProtocolVersion(V1_14), true)
        .map(0x3B, ProtocolVersion(V1_15), true)
        .map(0x3A, ProtocolVersion(V1_16), true)
        .map(0x39, ProtocolVersion(V1_16_2), true)
        .map(0x3D, ProtocolVersion(V1_17), true)
        .map(0x3B, ProtocolVersion(V1_19), true)
        .map(0x3E, ProtocolVersion(V1_19_1), true)
        .map(0x3D, ProtocolVersion(V1_19_3), true)
        .map(0x41, ProtocolVersion(V1_19_4), true)
        .map(0x43, ProtocolVersion(V1_20_2), true)
        .map(0x45, ProtocolVersion(V1_20_3), true)
        .map(0x47, ProtocolVersion(V1_20_5), true)
        .map(0x4C, ProtocolVersion(V1_21_2), true)
        .map(0x4B, ProtocolVersion(V1_21_5), true)
        .map(0x50, ProtocolVersion(V1_21_9), true)
        .register(registry);
    proof {
        lemma_default_step(before, *registry, 28, PacketKind::CRespawn);
    }
    let ghost before = *registry;
    let mut m: Vec<PacketMapping> = Vec::new();
    m.push(PacketMapping { id: 0x3F, from: ProtocolVersion(V1_7_2), to: None, encode_only: true });
    m.push(PacketMapping { id: 0x18, from: ProtocolVersion(V1_9), to: None, encode_only: true });
    m.push(PacketMapping { id: 0x19, from: ProtocolVersion(V1_13), to: None, encode_only: true });
    m.push(PacketMapping { id: 0x18, from: ProtocolVersion(V1_14), to: None, encode_only: true });
    m.push(PacketMapping { id: 0x19, from: ProtocolVersion(V1_15), to: None, encode_only: true });
    m.push(PacketMapping { id: 0x18, from: ProtocolVersion(V1_16), to: None, encode_only: true });
    m.push(PacketMapping { id: 0x17, from: ProtocolVersion(V1_16_2), to: None, encode_only: true });
    m.push(PacketMapping { id: 0x18, from: ProtocolVersion(V1_17), to: None, encode_only: true });
    m.push(PacketMapping { id: 0x15, from: ProtocolVersion(V1_19), to: None, encode_only: true });
    m.push(PacketMapping { id: 0x16, from: ProtocolVersion(V1_19_1), to: None, encode_only: true });
    m.push(PacketMapping { id: 0x15, from: ProtocolVersion(V1_19_3), to: None, encode_only: true });
    m.push(PacketMapping { id: 0x17, from: ProtocolVersion(V1_19_4), to: None, encode_only: true });
    m.push(PacketMapping { id: 0x18, from: ProtocolVersion(V1_20_2), to: None, encode_only: true });
    m.push(PacketMapping { id: 0x19, from: ProtocolVersion(V1_20_5), to: None, encode_only: true });
    m.push(PacketMapping { id: 0x18, from: ProtocolVersion(V1_21_5), to: None, encode_only: true });
    register_mappings(registry, ConnectionState::Play, Direction::Clientbound, PacketKind::CPluginMessage, &m);
    proof {
        lemma_default_step(before, *registry, 29, PacketKind::CPluginMessage);
    }
}

/// Registers the default play: chat, titles, transfer and reconfiguration packets.
fn register_play_messages(registry: &mut PacketRegistry)
    requires
        holds_defaults(*old(registry), 30),
    ensures
        holds_defaults(*final(registry), 38),
{
    let ghost before = *registry;
    PacketRegistration::<CChatMessageLegacy>::new(ConnectionState::Play, Direction::Clientbound)
        .map(0x02, ProtocolVersion(V1_7_2), true)
        .map(0x0F, ProtocolVersion(V1_9), true)
        .map(0x0E, ProtocolVersion(V1_13), true)
        .map(0x0F, ProtocolVersion(V1_15), true)
        .map(0x0E, ProtocolVersion(V1_16), true)
        .map(0x0F, ProtocolVersion(V1_17), true)
        .register(registry);
    proof {
        lemma_default_step(before, *registry, 30, PacketKind::CChatMessageLegacy);
    }
    let ghost before = *registry;
    PacketRegistration::<CSystemChatMessage>::new(ConnectionState::Play, Direction::Clientbound)
        .map(0x5F, ProtocolVersion(V1_19), true)
        .map(0x62, ProtocolVersion(V1_19_1), true)
        .map(0x60, ProtocolVersion(V1_19_3), true)
        .map(0x64, ProtocolVersion(V1_19_4), true)
        .map(0x67, ProtocolVersion(V1_20_2), true)
        .map(0x69, ProtocolVersion(V1_20_3), true)
        .map(0x6C, ProtocolVersion(V1_20_5), true)
        .map(0x73, ProtocolVersion(V1_21_2), true)
        .map(0x72, ProtocolVersion(V1_21_5), true)
        .map(0x77, ProtocolVersion(V1_21_9), true)
        .register(registry);
    proof {
        lemma_default_step(before, *registry, 31, PacketKind::CSystemChatMessage);
    }
    let ghost before = *registry;
    let mut m: Vec<PacketMapping> = Vec::new();
    m.push(PacketMapping { id: 0x45, from: ProtocolVersion(V1_8), to: None, encode_only: true });
    m.push(PacketMapping { id: 0x47, from: ProtocolVersion(V1_9), to: None, encode_only: true });
    m.push(PacketMapping { id: 0x48, from: ProtocolVersion(V1_12), to: None, encode_only: true });
    m.push(PacketMapping { id: 0x4B, from: ProtocolVersion(V1_13), to: None, encode_only: true });
    m.push(PacketMapping { id: 0x4F, from: ProtocolVersion(V1_14), to: None, encode_only: true });
    m.push(PacketMapping { id: 0x50, from: ProtocolVersion(V1_15), to: None, encode_only: true });
    m.push(PacketMapping { id: 0x4F, from: ProtocolVersion(V1_16), to: None, encode_only: true });
    register_mappings(registry, ConnectionState::Play, Direction::Clientbound, PacketKind::CTitleLegacy, &m);
    proof {
        lemma_default_step(before, *registry, 32, PacketKind::CTitleLegacy);
    }
    let ghost before = *registry;
    let mut m: Vec<PacketMapping> = Vec::new();
    m.push(PacketMapping { id: 0x59, from: ProtocolVersion(V1_17), to: None, encode_only: true });
    m.push(PacketMapping { id: 0x5A, from: ProtocolVersion(V1_18), to: None, encode_only: true });
    m.push(PacketMapping { id: 0x5D, from: ProtocolVersion(V1_19_1), to: None, encode_only: true });
    m.push(PacketMapping { id: 0x5B, from: ProtocolVersion(V1_19_3), to: None, encode_only: true });
    m.push(PacketMapping { id: 0x5F, from: ProtocolVersion(V1_19_4), to: None, encode_only: true });
    m.push(PacketMapping { id: 0x61, from: ProtocolVersion(V1_20_2), to: None, encode_only: true });
    m.push(PacketMapping { id: 0x63, from: ProtocolVersion(V1_20_3), to: None, encode_only: true });
    m.push(PacketMapping { id: 0x65, from: ProtocolVersion(V1_20_5), to: None, encode_only: true });
    m.push(PacketMapping { id: 0x6C, from: ProtocolVersion(V1_21_2), to: None, encode_only: true });
    m.push(PacketMapping { id: 0x6B, from: ProtocolVersion(V1_21_5), to: None, encode_only: true });
    m.push(PacketMapping { id: 0x70, from: ProtocolVersion(V1_21_9), to: None, encode_only: true });
    register_mappings(registry, ConnectionState::Play, Direction::Clientbound, PacketKind::CSetTitle, &m);
    proof {
        lemma_default_step(before, *registry, 33, PacketKind::CSetTitle);
    }
    let ghost before = *registry;
    let mut m: Vec<PacketMapping> = Vec::new();
    m.push(PacketMapping { id: 0x57, from: ProtocolVersion(V1_17), to: None, encode_only: true });
    m.push(PacketMapping { id: 0x58, from: ProtocolVersion(V1_18), to: None, encode_only: true });
    m.push(PacketMapping { id: 0x5B, from: ProtocolVersion(V1_19_1), to: None, encode_only: true });
    m.push(PacketMapping { id: 0x59, from: ProtocolVersion(V1_19_3), to: None, encode_only: true });
    m.push(PacketMapping { id: 0x5D, from: ProtocolVersion(V1_19_4), to: None, encode_only: true });
    m.push(PacketMapping { id: 0x5F, from: ProtocolVersion(V1_20_2), to: None, encode_only: true });
    m.push(PacketMapping { id: 0x61, from: ProtocolVersion(V1_20_3), to: None, encode_only: true });
    m.push(PacketMapping { id: 0x63, from: ProtocolVersion(V1_20_5), to: None, encode_only: true });
    m.push(PacketMapping { id: 0x6A, from: ProtocolVersion(V1_21_2), to: None, encode_only: true });
    m.push(PacketMapping { id: 0x69, from: ProtocolVersion(V1_21_5), to: None, encode_only: true });
    m.push(PacketMapping { id: 0x6E, from: ProtocolVersion(V1_21_9), to: None, encode_only: true });
    register_mappings(registry, ConnectionState::Play, Direction::Clientbound, PacketKind::CSetSubtitle, &m);
    proof {
        lemma_default_step(before, *registry, 34, PacketKind::CSetSubtitle);
    }
    let ghost before = *registry;
    let mut m: Vec<PacketMapping> = Vec::new();
    m.push(PacketMapping { id: 0x5A, from: ProtocolVersion(V1_17), to: None, encode_only: true });
    m.push(PacketMapping { id: 0x5B, from: ProtocolVersion(V1_18), to: None, encode_only: true });
    m.push(PacketMapping { id: 0x5E, from: ProtocolVersion(V1_19_1), to: None, encode_only: true });
    m.push(PacketMapping { id: 0x5C, from: ProtocolVersion(V1_19_3), to: None, encode_only: true });
    m.push(PacketMapping { id: 0x60, from: ProtocolVersion(V1_19_4), to: None, encode_only: true });
    m.push(PacketMapping { id: 0x62, from: ProtocolVersion(V1_20_2), to: None, encode_only: true });
    m.push(PacketMapping { id: 0x64, from: ProtocolVersion(V1_20_3), to: None, encode_only: true });
    m.push(PacketMapping { id: 0x66, from: ProtocolVersion(V1_20_5), to: None, encode_only: true });
    m.push(PacketMapping { id: 0x6D, from: ProtocolVersion(V1_21_2), to: None, encode_only: true });
    m.push(PacketMapping { id: 0x6C, from: ProtocolVersion(V1_21_5), to: None, encode_only: true });
    m.push(PacketMapping { id: 0x71, from: ProtocolVersion(V1_21_9), to: None, encode_only: true });
    register_mappings(registry, ConnectionState::Play, Direction::Clientbound, PacketKind::CSetTitleTimes, &m);
    proof {
        lemma_default_step(before, *registry, 35, PacketKind::CSetTitleTimes);
    }
    let ghost before = *registry;
    PacketRegistration::<CTransfer>::new(ConnectionState::Play, Direction::Clientbound)
        .map(0x73, ProtocolVersion(V1_20_5), true)
        .map(0x7A, ProtocolVersion(V1_21_2), true)
        .map(0x7F, ProtocolVersion(V1_21_9), true)
        .register(registry);
    proof {
        lemma_default_step(before, *registry, 36, PacketKind::CTransfer);
    }
    let ghost before = *registry;
    PacketRegistration::<CStartConfiguration>::new(ConnectionState::Play, Direction::Clientbound)
        .map(0x65, ProtocolVersion(V1_20_2), true)
        .map(0x67, ProtocolVersion(V1_20_3), true)
        .map(0x69, ProtocolVersion(V1_20_5), true)
        .map(0x70, ProtocolVersion(V1_21_2), true)
        .map(0x6F, ProtocolVersion(V1_21_5), true)
        .map(0x74, ProtocolVersion(V1_21_9), true)
        .register(registry);
    proof {
        lemma_default_step(before, *registry, 37, PacketKind::CStartConfiguration);
    }
}

/// Registers the default play: world packets the limbo engine sends packets.
fn register_play_world(registry: &mut PacketRegistry)
    requires
        holds_defaults(*old(registry), 38),
    ensures
        holds_defaults(*final(registry), 44),
{
    let ghost before = *registry;
    let mut m: Vec<PacketMapping> = Vec::new();
    m.push(PacketMapping { id: 0x1B, from: ProtocolVersion(V1_9), to: None, encode_only: true });
    m.push(PacketMapping { id: 0x1E, from: ProtocolVersion(V1_13), to: None, encode_only: true });
    m.push(PacketMapping { id: 0x1D, from: ProtocolVersion(V1_14), to: None, encode_only: true });
    m.push(PacketMapping { id: 0x1E, from: ProtocolVersion(V1_15), to: None, encode_only: true });
    m.push(PacketMapping { id: 0x1D, from: ProtocolVersion(V1_16), to: None, encode_only: true });
    m.push(PacketMapping { id: 0x1C, from: ProtocolVersion(V1_16_2), to: None, encode_only: true });
    m.push(PacketMapping { id: 0x1D, from: ProtocolVersion(V1_17), to: None, encode_only: true });
    m.push(PacketMapping { id: 0x1B, from: ProtocolVersion(V1_19), to: None, encode_only: true });
    m.push(PacketMapping { id: 0x1D, from: ProtocolVersion(V1_19_1), to: None, encode_only: true });
    m.push(PacketMapping { id: 0x1C, from: ProtocolVersion(V1_19_3), to: None, encode_only: true });
    m.push(PacketMapping { id: 0x20, from: ProtocolVersion(V1_19_4), to: None, encode_only: true });
    m.push(PacketMapping { id: 0x20, from: ProtocolVersion(V1_20_2), to: None, encode_only: true });
    m.push(PacketMapping { id: 0x22, from: ProtocolVersion(V1_20_5), to: None, encode_only: true });
    m.push(PacketMapping { id: 0x23, from: ProtocolVersion(V1_21_2), to: None, encode_only: true });
    m.push(PacketMapping { id: 0x22, from: ProtocolVersion(V1_21_5), to: None, encode_only: true });
    m.push(PacketMapping { id: 0x26, from: ProtocolVersion(V1_21_9), to: None, encode_only: true });
    register_mappings(registry, ConnectionState::Play, Direction::Clientbound, PacketKind::CGameEvent, &m);
    proof {
        lemma_default_step(before, *registry, 38, PacketKind::CGameEvent);
    }
    let ghost before = *registry;
    PacketRegistration::<CSetCenterChunk>::new(ConnectionState::Play, Direction::Clientbound)
        .map(0x40, ProtocolVersion(V1_14), true)
        .map(0x41, ProtocolVersion(V1_15), true)
        .map(0x40, ProtocolVersion(V1_16), true)
        .map(0x49, ProtocolVersion(V1_17), true)
        .map(0x4A, ProtocolVersion(V1_18), true)
        .map(0x48, ProtocolVersion(V1_19), true)
        .map(0x4B, ProtocolVersion(V1_19_1), true)
        .map(0x4A, ProtocolVersion(V1_19_3), true)
        .map(0x4E, ProtocolVersion(V1_19_4), true)
        .map(0x50, ProtocolVersion(V1_20_2), true)
        .map(0x52, ProtocolVersion(V1_20_3), true)
        .map(0x54, ProtocolVersion(V1_20_5), true)
        .map(0x58, ProtocolVersion(V1_21_2), true)
        .map(0x57, ProtocolVersion(V1_21_5), true)
        .map(0x5C, ProtocolVersion(V1_21_9), true)
        .register(registry);
    proof {
        lemma_default_step(before, *registry, 39, PacketKind::CSetCenterChunk);
    }
    let ghost before = *registry;
    let mut m: Vec<PacketMapping> = Vec::new();
    m.push(PacketMapping { id: 0x0D, from: ProtocolVersion(V1_20_2), to: None, encode_only: true });
    m.push(PacketMapping { id: 0x0D, from: ProtocolVersion(V1_20_5), to: None, encode_only: true });
    m.push(PacketMapping { id: 0x0C, from: ProtocolVersion(V1_21_5), to: None, encode_only: true });
    m.push(PacketMapping { id: 0x0C, from: ProtocolVersion(V1_21_9), to: None, encode_only: true });
    register_mappings(registry, ConnectionState::Play, Direction::Clientbound, PacketKind::CChunkBatchStart, &m);
    proof {
        lemma_default_step(before, *registry, 40, PacketKind::CChunkBatchStart);
    }
    let ghost before = *registry;
    let mut m: Vec<PacketMapping> = Vec::new();
    m.push(PacketMapping { id: 0x0C, from: ProtocolVersion(V1_20_2), to: None, encode_only: true });
    m.push(PacketMapping { id: 0x0C, from: ProtocolVersion(V1_20_5), to: None, encode_only: true });
    m.push(PacketMapping { id: 0x0B, from: ProtocolVersion(V1_21_5), to: None, encode_only: true });
    m.push(PacketMapping { id: 0x0B, from: ProtocolVersion(V1_21_9), to: None, encode_only: true });
    register_mappings(registry, ConnectionState::Play, Direction::Clientbound, PacketKind::CChunkBatchFinished, &m);
    proof {
        lemma_default_step(before, *registry, 41, PacketKind::CChunkBatchFinished);
    }
    let ghost before = *registry;
    let mut m: Vec<PacketMapping> = Vec::new();
    m.push(PacketMapping { id: 0x05, from: ProtocolVersion(V1_7_2), to: None, encode_only: true });
    m.push(PacketMapping { id: 0x43, from: ProtocolVersion(V1_9), to: None, encode_only: true });
    m.push(PacketMapping { id: 0x46, from: ProtocolVersion(V1_12), to: None, encode_only: true });
    m.push(PacketMapping { id: 0x49, from: ProtocolVersion(V1_13), to: None, encode_only: true });
    m.push(PacketMapping { id: 0x4D, from: ProtocolVersion(V1_14), to: None, encode_only: true });
    m.push(PacketMapping { id: 0x4E, from: ProtocolVersion(V1_15), to: None, encode_only: true });
    m.push(PacketMapping { id: 0x42, from: ProtocolVersion(V1_16), to: None, encode_only: true });
    m.push(PacketMapping { id: 0x4B, from: ProtocolVersion(V1_17), to: None, encode_only: true });
    m.push(PacketMapping { id: 0x4C, from: ProtocolVersion(V1_18), to: None, encode_only: true });
    m.push(PacketMapping { id: 0x4A, from: ProtocolVersion(V1_19), to: None, encode_only: true });
    m.push(PacketMapping { id: 0x4D, from: ProtocolVersion(V1_19_1), to: None, encode_only: true });
    m.push(PacketMapping { id: 0x4C, from: ProtocolVersion(V1_19_3), to: None, encode_only: true });
    m.push(PacketMapping { id: 0x50, from: ProtocolVersion(V1_19_4), to: None, encode_only: true });
    m.push(PacketMapping { id: 0x52, from: ProtocolVersion(V1_20_2), to: None, encode_only: true });
    m.push(PacketMapping { id: 0x54, from: ProtocolVersion(V1_20_3), to: None, encode_only: true });
    m.push(PacketMapping { id: 0x56, from: ProtocolVersion(V1_20_5), to: None, encode_only: true });
    m.push(PacketMapping { id: 0x5B, from: ProtocolVersion(V1_21_2), to: None, encode_only: true });
    m.push(PacketMapping { id: 0x5A, from: ProtocolVersion(V1_21_5), to: None, encode_only: true });
    m.push(PacketMapping { id: 0x5F, from: ProtocolVersion(V1_21_9), to: None, encode_only: true });
    register_mappings(registry, ConnectionState::Play, Direction::Clientbound, PacketKind::CSetDefaultSpawnPosition, &m);
    proof {
        lemma_default_step(before, *registry, 42, PacketKind::CSetDefaultSpawnPosition);
    }
    let ghost before = *registry;
    let mut m: Vec<PacketMapping> = Vec::new();
    m.push(PacketMapping { id: 0x08, from: ProtocolVersion(V1_7_2), to: None, encode_only: true });
    m.push(PacketMapping { id: 0x2E, from: ProtocolVersion(V1_9), to: None, encode_only: true });
    m.push(PacketMapping { id: 0x2F, from: ProtocolVersion(V1_12_1), to: None, encode_only: true });
    m.push(PacketMapping { id: 0x32, from: ProtocolVersion(V1_13), to: None, encode_only: true });
    m.push(PacketMapping { id: 0x35, from: ProtocolVersion(V1_14), to: None, encode_only: true });
    m.push(PacketMapping { id: 0x36, from: ProtocolVersion(V1_15), to: None, encode_only: true });
    m.push(PacketMapping { id: 0x35, from: ProtocolVersion(V1_16), to: None, encode_only: true });
    m.push(PacketMapping { id: 0x34, from: ProtocolVersion(V1_16_2), to: None, encode_only: true });
    m.push(PacketMapping { id: 0x38, from: ProtocolVersion(V1_17), to: None, encode_only: true });
    m.push(PacketMapping { id: 0x39, from: ProtocolVersion(V1_18), to: None, encode_only: true });
    m.push(PacketMapping { id: 0x36, from: ProtocolVersion(V1_19), to: None, encode_only: true });
    m.push(PacketMapping { id: 0x39, from: ProtocolVersion(V1_19_1), to: None, encode_only: true });
    m.push(PacketMapping { id: 0x38, from: ProtocolVersion(V1_19_3), to: None, encode_only: true });
    m.push(PacketMapping { id: 0x3C, from: ProtocolVersion(V1_19_4), to: None, encode_only: true });
    m.push(PacketMapping { id: 0x3E, from: ProtocolVersion(V1_20_2), to: None, encode_only: true });
    m.push(PacketMapping { id: 0x40, from: ProtocolVersion(V1_20_3), to: None, encode_only: true });
    m.push(PacketMapping { id: 0x42, from: ProtocolVersion(V1_20_5), to: None, encode_only: true });
    m.push(PacketMapping { id: 0x42, from: ProtocolVersion(V1_21_2), to: None, encode_only: true });
    m.push(PacketMapping { id: 0x41, from: ProtocolVersion(V1_21_5), to: None, encode_only: true });
    m.push(PacketMapping { id: 0x46, from: ProtocolVersion(V1_21_9), to: None, encode_only: true });
    register_mappings(registry, ConnectionState::Play, Direction::Clientbound, PacketKind::CSynchronizePlayerPosition, &m);
    proof {
        lemma_default_step(before, *registry, 43, PacketKind::CSynchronizePlayerPosition);
    }
}

/// Registers the default serverbound play packets.
fn register_play_serverbound(registry: &mut PacketRegistry)
    requires
        holds_defaults(*old(registry), 44),
    ensures
        holds_defaults(*final(registry), 50),
{
    let ghost before = *registry;
    PacketRegistration::<SAcknowledgeConfiguration>::new(ConnectionState::Play, Direction::Serverbound)
        .map(0x0B, ProtocolVersion(V1_20_2), false)
        .map(0x0C, ProtocolVersion(V1_20_5), false)
        .map(0x0E, ProtocolVersion(V1_21_2), false)
        .map(0x0F, ProtocolVersion(V1_21_6), false)
        .register(registry);
    proof {
        lemma_default_step(before, *registry, 44, PacketKind::SAcknowledgeConfiguration);
    }
    let ghost before = *registry;
    PacketRegistration::<SKeepAlive>::new(ConnectionState::Play, Direction::Serverbound)
        .map(0x00, ProtocolVersion(V1_7_2), false)
        .map(0x0B, ProtocolVersion(V1_9), false)
        .map(0x0C, ProtocolVersion(V1_12), false)
        .map(0x0B, ProtocolVersion(V1_12_1), false)
        .map(0x0E, ProtocolVersion(V1_13), false)
        .map(0x0F, ProtocolVersion(V1_14), false)
        .map(0x10, ProtocolVersion(V1_16), false)
        .map(0x0F, ProtocolVersion(V1_17), false)
        .map(0x11, ProtocolVersion(V1_19), false)
        .map(0x12, ProtocolVersion(V1_19_1), false)
        .map(0x11, ProtocolVersion(V1_19_3), false)
        .map(0x12, ProtocolVersion(V1_19_4), false)
        .map(0x14, ProtocolVersion(V1_20_2), false)
        .map(0x15, ProtocolVersion(V1_20_3), false)
        .map(0x18, ProtocolVersion(V1_20_5), false)
        .map(0x1A, ProtocolVersion(V1_21_2), false)
        .map(0x1B, ProtocolVersion(V1_21_6), false)
        .register(registry);
    proof {
        lemma_default_step(before, *registry, 45, PacketKind::SKeepAlive);
    }
    let ghost before = *registry;
    PacketRegistration::<SChatMessage>::new(ConnectionState::Play, Direction::Serverbound)
        .map(0x01, ProtocolVersion(V1_7_2), true)
        .map(0x02, ProtocolVersion(V1_9), true)
        .map(0x03, ProtocolVersion(V1_12), true)
        .map(0x02, ProtocolVersion(V1_12_1), true)
        .map(0x02, ProtocolVersion(V1_13), true)
        .map(0x03, ProtocolVersion(V1_14), true)
        .map(0x03, ProtocolVersion(V1_15), true)
        .map(0x03, ProtocolVersion(V1_16), true)
        .map(0x03, ProtocolVersion(V1_17), true)
        .map(0x05, ProtocolVersion(V1_19), true)
        .map(0x05, ProtocolVersion(V1_19_1), true)
        .map(0x05, ProtocolVersion(V1_19_3), true)
        .map(0x05, ProtocolVersion(V1_19_4), true)
        .map(0x06, ProtocolVersion(V1_20_2), true)
        .map(0x06, ProtocolVersion(V1_20_5), true)
        .map(0x07, ProtocolVersion(V1_21_2), true)
        .map(0x08, ProtocolVersion(V1_21_6), true)
        .register(registry);
    proof {
        lemma_default_step(before, *registry, 46, PacketKind::SChatMessage);
    }
    let ghost before = *registry;
    PacketRegistration::<SChatCommand>::new(ConnectionState::Play, Direction::Serverbound)
        .map(0x04, ProtocolVersion(V1_19), true)
        .map(0x04, ProtocolVersion(V1_19_1), true)
        .map(0x04, ProtocolVersion(V1_19_3), true)
        .map(0x04, ProtocolVersion(V1_19_4), true)
        .map(0x04, ProtocolVersion(V1_20_2), true)
        .map(0x04, ProtocolVersion(V1_20_5), true)
        .map(0x05, ProtocolVersion(V1_21_2), true)
        .map(0x06, ProtocolVersion(V1_21_6), true)
        .register(registry);
    proof {
        lemma_default_step(before, *registry, 47, PacketKind::SChatCommand);
    }
    let ghost before = *registry;
    PacketRegistration::<SChatSessionUpdate>::new(ConnectionState::Play, Direction::Serverbound)
        .map(0x07, ProtocolVersion(V1_21), true)
        .map(0x08, ProtocolVersion(V1_21_2), true)
        .map(0x09, ProtocolVersion(V1_21_6), true)
        .register(registry);
    proof {
        lemma_default_step(before, *registry, 48, PacketKind::SChatSessionUpdate);
    }
    let ghost before = *registry;
    let mut m: Vec<PacketMapping> = Vec::new();
    m.push(PacketMapping { id: 0x17, from: ProtocolVersion(V1_7_2), to: None, encode_only: true });
    m.push(PacketMapping { id: 0x09, from: ProtocolVersion(V1_9), to: None, encode_only: true });
    m.push(PacketMapping { id: 0x0A, from: ProtocolVersion(V1_12), to: None, encode_only: true });
    m.push(PacketMapping { id: 0x09, from: ProtocolVersion(V1_12_1), to: None, encode_only: true });
    m.push(PacketMapping { id: 0x0A, from: ProtocolVersion(V1_13), to: None, encode_only: true });
    m.push(PacketMapping { id: 0x0B, from: ProtocolVersion(V1_14), to: None, encode_only: true });
    m.push(PacketMapping { id: 0x0A, from: ProtocolVersion(V1_17), to: None, encode_only: true });
    m.push(PacketMapping { id: 0x0C, from: ProtocolVersion(V1_19), to: None, encode_only: true });
    m.push(PacketMapping { id: 0x0D, from: ProtocolVersion(V1_19_1), to: None, encode_only: true });
    m.push(PacketMapping { id: 0x0C, from: ProtocolVersion(V1_19_3), to: None, encode_only: true });
    m.push(PacketMapping { id: 0x0D, from: ProtocolVersion(V1_19_4), to: None, encode_only: true });
    m.push(PacketMapping { id: 0x0F, from: ProtocolVersion(V1_20_2), to: None, encode_only: true });
    m.push(PacketMapping { id: 0x10, from: ProtocolVersion(V1_20_3), to: None, encode_only: true });
    m.push(PacketMapping { id: 0x12, from: ProtocolVersion(V1_20_5), to: None, encode_only: true });
    m.push(PacketMapping { id: 0x14, from: ProtocolVersion(V1_21_2), to: None, encode_only: true });
    m.push(PacketMapping { id: 0x15, from: ProtocolVersion(V1_21_6), to: None, encode_only: true });
    register_mappings(registry, ConnectionState::Play, Direction::Serverbound, PacketKind::SPluginMessage, &m);
    proof {
        lemma_default_step(before, *registry, 49, PacketKind::SPluginMessage);
    }
}

/// Builds the default registry with every packet known to the proxy.
pub fn build_default_registry() -> (r: PacketRegistry)
    ensures
        forall|s: ConnectionState, d: Direction, v: i32, k: PacketKind| #[trigger]
            r.id_for(s, d, v, k) == default_id(s, d, v, k),
        forall|s: ConnectionState, d: Direction, v: i32, id: i32| #[trigger]
            r.decoder_for(s, d, v, id) == default_decoder(s, d, v, id, 50),
{
    let mut registry = PacketRegistry::new();
    register_handshake_status_login(&mut registry);
    register_config(&mut registry);
    register_play_core(&mut registry);
    register_play_messages(&mut registry);
    register_play_world(&mut registry);
    register_play_serverbound(&mut registry);
    proof {
        assert forall|k: PacketKind| kind_index(k) < 50 by {
            lemma_kind_index_bound(k);
        }
    }
    registry
}

/// Mappings without explicit ends whose starts never go down.
pub open spec fn ascending_open(m: Seq<PacketMapping>) -> bool
    decreases m.len(),
{
    m.len() == 0 || (m.last().to is None && (m.len() == 1 || m[m.len() - 2].from.0 <= m.last().from.0)
        && ascending_open(m.drop_last()))
}

proof fn lemma_ascending_open(m: Seq<PacketMapping>)
    requires
        ascending_open(m),
    ensures
        forall|i: int| 0 <= i < m.len() ==> (#[trigger] m[i]).to is None,
        forall|i: int, j: int| 0 <= i <= j < m.len() ==> (#[trigger] m[i]).from.0 <= (#[trigger] m[j]).from.0,
    decreases m.len(),
{
    if m.len() > 0 {
        let init = m.drop_last();
        lemma_ascending_open(init);
        assert forall|i: int| 0 <= i < m.len() implies (#[trigger] m[i]).to is None by {
            if i < m.len() - 1 {
                assert(m[i] == init[i]);
            }
        }
        assert forall|i: int, j: int| 0 <= i <= j < m.len() implies (#[trigger] m[i]).from.0 <= (
        #[trigger] m[j]).from.0 by {
            if j < m.len() - 1 {
                assert(m[i] == init[i] && m[j] == init[j]);
            } else if i < j {
                assert(m[i] == init[i]);
                assert(init[i].from.0 <= init[m.len() - 2].from.0);
                assert(m[m.len() - 2] == init[m.len() - 2]);
            }
        }
    }
}

/// Under ascending open mappings, at most one mapping covers a version.
proof fn lemma_covers_unique(m: Seq<PacketMapping>, i: int, j: int, v: i32)
    requires
        ascending_open(m),
        0 <= i < j < m.len(),
        covers(m, i, v),
    ensures
        !covers(m, j, v),
{
    lemma_ascending_open(m);
    let (to, incl) = mapping_end(m, i);
    crate::version::law_range_members(m[i].from, to);
    crate::version::law_range_members(m[j].from, mapping_end(m, j).0);
    let r = versions_between(m[i].from, to);
    let k = choose|k: int| 0 <= k < r.len() && r[k] == ProtocolVersion(v);
    assert(r[k].0 <= to.0);
    assert(m[i + 1].from.0 <= m[j].from.0);
    if covers(m, j, v) {
        let r2 = versions_between(m[j].from, mapping_end(m, j).0);
        let k2 = choose|k2: int| 0 <= k2 < r2.len() && r2[k2] == ProtocolVersion(v);
        assert(m[j].from.0 <= r2[k2].0);
    }
}

/// The ID mapped for a version is that of the one mapping that decodes it.
proof fn lemma_decodes_mapped(m: Seq<PacketMapping>, v: i32, id: i32, n: int)
    requires
        ascending_open(m),
        0 <= n <= m.len(),
        decodes(m, v, id, n),
    ensures
        mapped_id(m, v, n) == Some(id),
    decreases n,
{
    if covers(m, n - 1, v) && !m[n - 1].encode_only && m[n - 1].id == id {
    } else {
        lemma_decodes_mapped(m, v, id, n - 1);
        if covers(m, n - 1, v) {
            let j = choose_decoder(m, v, id, n - 1);
            lemma_covers_unique(m, j, n - 1, v);
        }
    }
}

/// An index of one of the first `n` mappings that decodes `id` for `v`.
proof fn choose_decoder(m: Seq<PacketMapping>, v: i32, id: i32, n: int) -> (j: int)
    requires
        decodes(m, v, id, n),
    ensures
        0 <= j < n,
        covers(m, j, v),
    decreases n,
{
    if covers(m, n - 1, v) && !m[n - 1].encode_only && m[n - 1].id == id {
        n - 1
    } else {
        choose_decoder(m, v, id, n - 1)
    }
}

proof fn lemma_default_decoder_kind(s: ConnectionState, d: Direction, v: i32, id: i32, n: int, k: PacketKind)
    requires
        default_decoder(s, d, v, id, n) == Some(k),
    ensures
        s == default_registration(k).0,
        d == default_registration(k).1,
        decodes(default_registration(k).2, v, id, default_registration(k).2.len() as int),
    decreases n,
{
    let kk = kind_at(n - 1);
    let (st, dir, m) = default_registration(kk);
    if !(s == st && d == dir && decodes(m, v, id, m.len() as int)) {
        lemma_default_decoder_kind(s, d, v, id, n - 1, k);
    }
}

/// Every default registration has ascending open mappings.
proof fn lemma_default_ascending(k: PacketKind)
    ensures
        ascending_open(default_registration(k).2),
{
    match k {
        PacketKind::SHandshake => {
            reveal_with_fuel(ascending_open, 21);
            assert(ascending_open(default_registration(PacketKind::SHandshake).2));
        },
        PacketKind::SStatusRequest => {
            reveal_with_fuel(ascending_open, 21);
            assert(ascending_open(default_registration(PacketKind::SStatusRequest).2));
        },
        PacketKind::SPingRequest => {
            reveal_with_fuel(ascending_open, 21);
            assert(ascending_open(default_registration(PacketKind::SPingRequest).2));
        },
        PacketKind::CStatusResponse => {
            reveal_with_fuel(ascending_open, 21);
            assert(ascending_open(default_registration(PacketKind::CStatusResponse).2));
        },
        PacketKind::CPingResponse => {
            reveal_with_fuel(ascending_open, 21);
            assert(ascending_open(default_registration(PacketKind::CPingResponse).2));
        },
        PacketKind::SLoginStart => {
            reveal_with_fuel(ascending_open, 21);
            assert(ascending_open(default_registration(PacketKind::SLoginStart).2));
        },
        PacketKind::SEncryptionResponse => {
            reveal_with_fuel(ascending_open, 21);
            assert(ascending_open(default_registration(PacketKind::SEncryptionResponse).2));
        },
        PacketKind::SLoginPluginResponse => {
            reveal_with_fuel(ascending_open, 21);
            assert(ascending_open(default_registration(PacketKind::SLoginPluginResponse).2));
        },
        PacketKind::SLoginAcknowledged => {
            reveal_with_fuel(ascending_open, 21);
            assert(ascending_open(default_registration(PacketKind::SLoginAcknowledged).2));
        },
        PacketKind::CLoginDisconnect => {
            reveal_with_fuel(ascending_open, 21);
            assert(ascending_open(default_registration(PacketKind::CLoginDisconnect).2));
        },
        PacketKind::CEncryptionRequest => {
            reveal_with_fuel(ascending_open, 21);
            assert(ascending_open(default_registration(PacketKind::CEncryptionRequest).2));
        },
        PacketKind::CLoginSuccess => {
            reveal_with_fuel(ascending_open, 21);
            assert(ascending_open(default_registration(PacketKind::CLoginSuccess).2));
        },
        PacketKind::CSetCompression => {
            reveal_with_fuel(ascending_open, 21);
            assert(ascending_open(default_registration(PacketKind::CSetCompression).2));
        },
        PacketKind::CLoginPluginRequest => {
            reveal_with_fuel(ascending_open, 21);
            assert(ascending_open(default_registration(PacketKind::CLoginPluginRequest).2));
        },
        PacketKind::SConfigPluginMessage => {
            reveal_with_fuel(ascending_open, 21);
            assert(ascending_open(default_registration(PacketKind::SConfigPluginMessage).2));
        },
        PacketKind::SAcknowledgeFinishConfig => {
            reveal_with_fuel(ascending_open, 21);
            assert(ascending_open(default_registration(PacketKind::SAcknowledgeFinishConfig).2));
        },
        PacketKind::SKnownPacks => {
            reveal_with_fuel(ascending_open, 21);
            assert(ascending_open(default_registration(PacketKind::SKnownPacks).2));
        },
        PacketKind::CConfigPluginMessage => {
            reveal_with_fuel(ascending_open, 21);
            assert(ascending_open(default_registration(PacketKind::CConfigPluginMessage).2));
        },
        PacketKind::CConfigDisconnect => {
            reveal_with_fuel(ascending_open, 21);
            assert(ascending_open(default_registration(PacketKind::CConfigDisconnect).2));
        },
        PacketKind::CFinishConfig => {
            reveal_with_fuel(ascending_open, 21);
            assert(ascending_open(default_registration(PacketKind::CFinishConfig).2));
        },
        PacketKind::CRegistryData => {
            reveal_with_fuel(ascending_open, 21);
            assert(ascending_open(default_registration(PacketKind::CRegistryData).2));
        },
        PacketKind::CKnownPacks => {
            reveal_with_fuel(ascending_open, 21);
            assert(ascending_open(default_registration(PacketKind::CKnownPacks).2));
        },
        PacketKind::CCommands => {
            reveal_with_fuel(ascending_open, 21);
            assert(ascending_open(default_registration(PacketKind::CCommands).2));
        },
        PacketKind::STabCompleteRequest => {
            reveal_with_fuel(ascending_open, 21);
            assert(ascending_open(default_registration(PacketKind::STabCompleteRequest).2));
        },
        PacketKind::CTabCompleteResponse => {
            reveal_with_fuel(ascending_open, 21);
            assert(ascending_open(default_registration(PacketKind::CTabCompleteResponse).2));
        },
        PacketKind::CKeepAlive => {
            reveal_with_fuel(ascending_open, 21);
            assert(ascending_open(default_registration(PacketKind::CKeepAlive).2));
        },
        PacketKind::CDisconnect => {
            reveal_with_fuel(ascending_open, 21);
            assert(ascending_open(default_registration(PacketKind::CDisconnect).2));
        },
        PacketKind::CJoinGame => {
            reveal_with_fuel(ascending_open, 21);
            assert(ascending_open(default_registration(PacketKind::CJoinGame).2));
        },
        PacketKind::CRespawn => {
            reveal_with_fuel(ascending_open, 21);
            assert(ascending_open(default_registration(PacketKind::CRespawn).2));
        },
        PacketKind::CPluginMessage => {
            reveal_with_fuel(ascending_open, 21);
            assert(ascending_open(default_registration(PacketKind::CPluginMessage).2));
        },
        PacketKind::CChatMessageLegacy => {
            reveal_with_fuel(ascending_open, 21);
            assert(ascending_open(default_registration(PacketKind::CChatMessageLegacy).2));
        },
        PacketKind::CSystemChatMessage => {
            reveal_with_fuel(ascending_open, 21);
            assert(ascending_open(default_registration(PacketKind::CSystemChatMessage).2));
        },
        PacketKind::CTitleLegacy => {
            reveal_with_fuel(ascending_open, 21);
            assert(ascending_open(default_registration(PacketKind::CTitleLegacy).2));
        },
        PacketKind::CSetTitle => {
            reveal_with_fuel(ascending_open, 21);
            assert(ascending_open(default_registration(PacketKind::CSetTitle).2));
        },
        PacketKind::CSetSubtitle => {
            reveal_with_fuel(ascending_open, 21);
            assert(ascending_open(default_registration(PacketKind::CSetSubtitle).2));
        },
        PacketKind::CSetTitleTimes => {
            reveal_with_fuel(ascending_open, 21);
            assert(ascending_open(default_registration(PacketKind::CSetTitleTimes).2));
        },
        PacketKind::CTransfer => {
            reveal_with_fuel(ascending_open, 21);
            assert(ascending_open(default_registration(PacketKind::CTransfer).2));
        },
        PacketKind::CStartConfiguration => {
            reveal_with_fuel(ascending_open, 21);
            assert(ascending_open(default_registration(PacketKind::CStartConfiguration).2));
        },
        PacketKind::CGameEvent => {
            reveal_with_fuel(ascending_open, 21);
            assert(ascending_open(default_registration(PacketKind::CGameEvent).2));
        },
        PacketKind::CSetCenterChunk => {
            reveal_with_fuel(ascending_open, 21);
            assert(ascending_open(default_registration(PacketKind::CSetCenterChunk).2));
        },
        PacketKind::CChunkBatchStart => {
            reveal_with_fuel(ascending_open, 21);
            assert(ascending_open(default_registration(PacketKind::CChunkBatchStart).2));
        },
        PacketKind::CChunkBatchFinished => {
            reveal_with_fuel(ascending_open, 21);
            assert(ascending_open(default_registration(PacketKind::CChunkBatchFinished).2));
        },
        PacketKind::CSetDefaultSpawnPosition => {
            reveal_with_fuel(ascending_open, 21);
            assert(ascending_open(default_registration(PacketKind::CSetDefaultSpawnPosition).2));
        },
        PacketKind::CSynchronizePlayerPosition => {
            reveal_with_fuel(ascending_open, 21);
            assert(ascending_open(default_registration(PacketKind::CSynchronizePlayerPosition).2));
        },
        PacketKind::SAcknowledgeConfiguration => {
            reveal_with_fuel(ascending_open, 21);
            assert(ascending_open(default_registration(PacketKind::SAcknowledgeConfiguration).2));
        },
        PacketKind::SKeepAlive => {
            reveal_with_fuel(ascending_open, 21);
            assert(ascending_open(default_registration(PacketKind::SKeepAlive).2));
        },
        PacketKind::SChatMessage => {
            reveal_with_fuel(ascending_open, 21);
            assert(ascending_open(default_registration(PacketKind::SChatMessage).2));
        },
        PacketKind::SChatCommand => {
            reveal_with_fuel(ascending_open, 21);
            assert(ascending_open(default_registration(PacketKind::SChatCommand).2));
        },
        PacketKind::SChatSessionUpdate => {
            reveal_with_fuel(ascending_open, 21);
            assert(ascending_open(default_registration(PacketKind::SChatSessionUpdate).2));
        },
        PacketKind::SPluginMessage => {
            reveal_with_fuel(ascending_open, 21);
            assert(ascending_open(default_registration(PacketKind::SPluginMessage).2));
        },
    }
}

/// Every decoder the registry holds leads to a packet whose encoding ID at
/// that version is the ID decoded.
pub open spec fn ids_agree(r: PacketRegistry) -> bool {
    forall|s: ConnectionState, d: Direction, v: i32, id: i32|
        #[trigger] r.decoder_for(s, d, v, id) matches Some(k) ==> r.id_for(s, d, v, k) == Some(id)
}

/// In the default registry, a packet decoded from an ID is encoded back with
/// that same ID.
pub proof fn law_default_registry_ids_agree(r: PacketRegistry)
    requires
        forall|s: ConnectionState, d: Direction, v: i32, k: PacketKind| #[trigger]
            r.id_for(s, d, v, k) == default_id(s, d, v, k),
        forall|s: ConnectionState, d: Direction, v: i32, id: i32| #[trigger]
            r.decoder_for(s, d, v, id) == default_decoder(s, d, v, id, 50),
    ensures
        ids_agree(r),
{
    assert forall|s: ConnectionState, d: Direction, v: i32, id: i32|
        #[trigger] r.decoder_for(s, d, v, id) is Some implies r.id_for(
            s,
            d,
            v,
            r.decoder_for(s, d, v, id).unwrap(),
        ) == Some(id) by {
        let k = r.decoder_for(s, d, v, id).unwrap();
        lemma_default_decoder_kind(s, d, v, id, 50, k);
        lemma_default_ascending(k);
        let m = default_registration(k).2;
        lemma_decodes_mapped(m, v, id, m.len() as int);
    }
}

/// Mappings without explicit ends whose starts strictly rise.
pub open spec fn rising_open(m: Seq<PacketMapping>) -> bool {
    &&& forall|i: int| 0 <= i < m.len() ==> (#[trigger] m[i]).to is None
    &&& forall|i: int, j: int| 0 <= i < j < m.len() ==> (#[trigger] m[i]).from.0 < (#[trigger] m[j]).from.0
}

/// Mapping `i` of `m` is the last one that starts at or below protocol `v`.
pub open spec fn last_start_at_or_below(m: Seq<PacketMapping>, i: int, v: i32) -> bool {
    &&& 0 <= i < m.len()
    &&& m[i].from.0 <= v
    &&& (i + 1 == m.len() || v < m[i + 1].from.0)
}

proof fn lemma_last_start_unique(m: Seq<PacketMapping>, i: int, j: int, v: i32)
    requires
        rising_open(m),
        last_start_at_or_below(m, i, v),
        last_start_at_or_below(m, j, v),
    ensures
        i == j,
{
    if i < j {
        assert(m[i + 1].from.0 <= m[j].from.0);
    } else if j < i {
        assert(m[j + 1].from.0 <= m[i].from.0);
    }
}

proof fn lemma_rising_covers(m: Seq<PacketMapping>, i: int, v: i32)
    requires
        rising_open(m),
        0 <= i < m.len(),
    ensures
        covers(m, i, v) <==> supported_versions().contains(ProtocolVersion(v)) && last_start_at_or_below(m, i, v),
{
    let (to, inclusive) = mapping_end(m, i);
    let r = versions_between(m[i].from, to);
    law_range_members(m[i].from, to);
    law_supported_versions_sorted();
    let all = supported_versions();
    if r.contains(ProtocolVersion(v)) {
        let k = choose|k: int| 0 <= k < r.len() && r[k] == ProtocolVersion(v);
        assert(m[i].from.0 <= r[k].0 <= to.0 && all.contains(r[k]));
    }
    if all.contains(ProtocolVersion(v)) && i + 1 == m.len() {
        let k = choose|k: int| 0 <= k < all.len() && all[k] == ProtocolVersion(v);
        if k < all.len() - 1 {
            assert(all[k].0 < all[all.len() - 1].0);
        }
    }
}

proof fn lemma_mapped_none(m: Seq<PacketMapping>, v: i32, n: int)
    requires
        0 <= n <= m.len(),
        forall|j: int| 0 <= j < n ==> !covers(m, j, v),
    ensures
        mapped_id(m, v, n) is None,
        forall|id: i32| !decodes(m, v, id, n),
    decreases n,
{
    if n > 0 {
        lemma_mapped_none(m, v, n - 1);
        assert forall|id: i32| !decodes(m, v, id, n) by {
            assert(!decodes(m, v, id, n - 1));
        }
    }
}

proof fn lemma_mapped_at(m: Seq<PacketMapping>, v: i32, n: int, i: int)
    requires
        rising_open(m),
        supported_versions().contains(ProtocolVersion(v)),
        0 <= i < n <= m.len(),
        last_start_at_or_below(m, i, v),
    ensures
        mapped_id(m, v, n) == Some(m[i].id),
        forall|id: i32| decodes(m, v, id, n) <==> (!m[i].encode_only && m[i].id == id),
    decreases n,
{
    lemma_rising_covers(m, n - 1, v);
    if n - 1 == i {
        assert forall|j: int| 0 <= j < i implies !covers(m, j, v) by {
            lemma_rising_covers(m, j, v);
            if last_start_at_or_below(m, j, v) {
                lemma_last_start_unique(m, i, j, v);
            }
        }
        lemma_mapped_none(m, v, i);
        assert forall|id: i32| decodes(m, v, id, n) <==> (!m[i].encode_only && m[i].id == id) by {
            assert(!decodes(m, v, id, i));
        }
    } else {
        if last_start_at_or_below(m, n - 1, v) {
            lemma_last_start_unique(m, i, n - 1, v);
        }
        lemma_mapped_at(m, v, n - 1, i);
        assert forall|id: i32| decodes(m, v, id, n) <==> (!m[i].encode_only && m[i].id == id) by {
            assert(decodes(m, v, id, n) == decodes(m, v, id, n - 1));
        }
    }
}

/// Registering mappings without explicit ends, whose starts strictly rise,
/// gives each supported version the ID of the last mapping that starts at
/// or below it, and a decoder from that ID to the packet unless that mapping
/// is encode-only. A version below the first start, or one that is not
/// supported, is left as it was.
pub proof fn law_registration_last_mapping_wins(
    old: PacketRegistry,
    new: PacketRegistry,
    state: ConnectionState,
    direction: Direction,
    kind: PacketKind,
    m: Seq<PacketMapping>,
    v: i32,
)
    requires
        registration_applied(old, new, state, direction, kind, m, m.len() as int),
        rising_open(m),
    ensures
        forall|i: int|
            #[trigger] last_start_at_or_below(m, i, v) && supported_versions().contains(ProtocolVersion(v))
                ==> new.id_for(state, direction, v, kind) == Some(m[i].id) && forall|id: i32|
                #[trigger] new.decoder_for(state, direction, v, id) == if !m[i].encode_only && id == m[i].id {
                    Some(kind)
                } else {
                    old.decoder_for(state, direction, v, id)
                },
        m.len() == 0 || v < m[0].from.0 || !supported_versions().contains(ProtocolVersion(v)) ==> new.id_for(
            state,
            direction,
            v,
            kind,
        ) == old.id_for(state, direction, v, kind) && forall|id: i32| #[trigger]
            new.decoder_for(state, direction, v, id) == old.decoder_for(state, direction, v, id),
{
    assert forall|i: int|
        #[trigger] last_start_at_or_below(m, i, v) && supported_versions().contains(ProtocolVersion(v))
        implies new.id_for(state, direction, v, kind) == Some(m[i].id) && forall|id: i32|
        #[trigger] new.decoder_for(state, direction, v, id) == if !m[i].encode_only && id == m[i].id {
            Some(kind)
        } else {
            old.decoder_for(state, direction, v, id)
        } by {
        lemma_mapped_at(m, v, m.len() as int, i);
    }
    if m.len() == 0 || v < m[0].from.0 || !supported_versions().contains(ProtocolVersion(v)) {
        assert forall|j: int| 0 <= j < m.len() implies !covers(m, j, v) by {
            lemma_rising_covers(m, j, v);
            if m.len() > 0 && j > 0 {
                assert(m[0].from.0 < m[j].from.0);
            }
        }
        lemma_mapped_none(m, v, m.len() as int);
    }
}

} // verus!
