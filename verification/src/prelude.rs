//! Re-exports of the most used protocol types.

pub use crate::codec::{Decode, Encode, VarInt, VarLong};
pub use crate::error::{ProtocolError, ProtocolResult};
pub use crate::io::{PacketEncoder, PacketFrame};
pub use crate::packets::{ErasedPacket, Packet};
pub use crate::registry::{build_default_registry, DecodedPacket, PacketRegistry};
pub use crate::version::{ConnectionState, Direction, ProtocolVersion};
