//! Packets that are forwarded without being parsed.

use vstd::prelude::*;

verus! {

/// An unparsed packet: its id and the raw bytes after the id, forwarded to
/// the destination as they are.
#[derive(Debug, Clone)]
pub struct OpaquePacket {
    /// The packet id.
    pub id: i32,
    /// The raw payload (after the packet id in the frame).
    pub payload: Vec<u8>,
}

} // verus!
