//! A packet after framing, before its payload is parsed.

use vstd::prelude::*;

verus! {

/// A packet after framing (length and packet ID decoded) but before its
/// payload is parsed. The registry then decides: parse it into a typed
/// packet, or forward it as opaque bytes.
#[derive(Debug, Clone)]
pub struct PacketFrame {
    /// The packet ID.
    pub id: i32,
    /// The raw payload after the packet ID.
    pub payload: Vec<u8>,
}

} // verus!
