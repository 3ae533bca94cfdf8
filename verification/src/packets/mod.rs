//! Minecraft packet definitions organized by connection state.
//!
//! Each packet implements [`Packet`] for version-aware encoding and decoding,
//! specified by a model of what it reads and writes; packet IDs are managed
//! by the registry rather than embedded in the type.

pub mod handshake;
pub mod login;
pub mod opaque;
pub mod play;
pub mod status;

pub use handshake::SHandshake;
pub use login::{
    CEncryptionRequest, CLoginDisconnect, CLoginPluginRequest, CLoginSuccess, CSetCompression,
    Property, SEncryptionResponse, SLoginAcknowledged, SLoginPluginResponse, SLoginStart,
};
pub use opaque::OpaquePacket;
pub use play::{
    CChatMessageLegacy, CCommands, CJoinGame, CKeepAlive, CRespawn, CSetCenterChunk,
    CSetDefaultSpawnPosition, CStartConfiguration, CSystemChatMessage, CTabCompleteResponse,
    CTransfer, DimensionInfo, SAcknowledgeConfiguration, SChatCommand, SChatMessage,
    SChatSessionUpdate, SKeepAlive, STabCompleteRequest,
};
pub use status::{CPingResponse, CStatusResponse, SPingRequest, SStatusRequest};

use vstd::prelude::*;

use crate::codec::spec::{parsed_view, written, SpecParse};
use crate::error::{ErrorClass, ProtocolResult};
use crate::registry::PacketKind;
use crate::version::{ConnectionState, Direction, ProtocolVersion};

verus! {

/// A Minecraft packet that the proxy can encode and decode.
///
/// - No packet ID in the type: IDs live in the registry, since the same
///   packet has different IDs across protocol versions.
/// - The protocol version is a parameter of encode/decode: one struct per
///   logical packet, the versioning is in the implementation.
pub trait Packet: Sized + View {
    /// The connection state in which this packet is valid.
    spec fn packet_state() -> ConnectionState;

    /// The direction of this packet.
    spec fn packet_direction() -> Direction;

    /// What decoding the payload `s` yields for protocol `version`.
    spec fn parse(s: Seq<u8>, version: i32) -> SpecParse<<Self as View>::V>;

    /// The payload encoding a packet with content `p` for protocol
    /// `version`, or the class of the error reported.
    spec fn encoding(p: <Self as View>::V, version: i32) -> Result<Seq<u8>, ErrorClass>;

    /// Which packet this is, as the registry knows it.
    spec fn packet_kind() -> PacketKind;

    /// The packet's human-readable name.
    spec fn name_text() -> Seq<char>;

    /// Human-readable name for logging and debugging.
    fn name() -> (s: &'static str)
        ensures
            s@ == Self::name_text(),
    ;

    /// Which packet this is, as the registry knows it.
    fn kind() -> (k: PacketKind)
        ensures
            k == Self::packet_kind(),
            crate::registry::decodable(k),
    ;

    /// The connection state in which this packet is valid.
    fn state() -> (s: ConnectionState)
        ensures
            s == Self::packet_state(),
    ;

    /// The direction of this packet.
    fn direction() -> (d: Direction)
        ensures
            d == Self::packet_direction(),
    ;

    /// Decodes the packet payload (the bytes after the packet ID).
    fn decode(r: &mut &[u8], version: ProtocolVersion) -> (res: ProtocolResult<Self>)
        ensures
            parsed_view(Self::parse(old(r)@, version.0), res, final(r)@),
    ;

    /// Encodes the packet payload (without the packet ID).
    fn encode(&self, w: &mut Vec<u8>, version: ProtocolVersion) -> (res: ProtocolResult<()>)
        ensures
            written(Self::encoding(self@, version.0), res, old(w)@, final(w)@),
    ;
}

/// `p` encodes for `version`, and decoding its bytes followed by `rest`
/// yields `p` back and leaves exactly `rest`.
pub open spec fn packet_round_trips<P: Packet>(p: <P as View>::V, version: i32, rest: Seq<u8>) -> bool {
    &&& P::encoding(p, version) is Ok
    &&& P::parse(P::encoding(p, version).unwrap() + rest, version) == Ok::<
        (<P as View>::V, Seq<u8>),
        ErrorClass,
    >((p, rest))
}

/// The object-safe face of a [`Packet`]: its name and its encoder.
pub trait ErasedPacket {
    /// The packet's human-readable name.
    spec fn erased_name(&self) -> Seq<char>;

    /// The payload this packet encodes to for `version`, or the class of
    /// the error reported.
    spec fn erased_encoding(&self, version: i32) -> Result<Seq<u8>, ErrorClass>;

    /// Human-readable packet name.
    fn packet_name(&self) -> (s: &'static str)
        ensures
            s@ == self.erased_name(),
    ;

    /// Encodes the payload into `w`.
    fn encode_payload(&self, w: &mut Vec<u8>, version: ProtocolVersion) -> (res: ProtocolResult<()>)
        ensures
            written(self.erased_encoding(version.0), res, old(w)@, final(w)@),
    ;
}

impl<P: Packet> ErasedPacket for P {
    open spec fn erased_name(&self) -> Seq<char> {
        P::name_text()
    }

    open spec fn erased_encoding(&self, version: i32) -> Result<Seq<u8>, ErrorClass> {
        P::encoding(self@, version)
    }

    fn packet_name(&self) -> (s: &'static str) {
        P::name()
    }

    fn encode_payload(&self, w: &mut Vec<u8>, version: ProtocolVersion) -> (res: ProtocolResult<()>) {
        self.encode(w, version)
    }
}

} // verus!
