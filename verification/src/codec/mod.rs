//! Minecraft protocol codec: encoding/decoding traits and primitive type implementations.
//!
//! - [`Encode`] / [`Decode`]: wire-format serialization, each specified by a
//!   model of the bytes it writes or the value it reads.
//! - [`VarInt`] / [`VarLong`]: variable-length integers used throughout the protocol.
//! - [`types`]: the implementations for the Minecraft primitive types.

pub mod spec;
pub mod raw;
pub mod uuid_text;
pub mod varint;
pub mod varlong;
pub mod types;

pub use varint::VarInt;
pub use varlong::VarLong;

use vstd::prelude::*;

use crate::error::{ErrorClass, ProtocolResult};
use spec::{parsed, written, SpecParse};

verus! {

/// Encodes a type into the Minecraft wire format.
pub trait Encode {
    /// The bytes this value encodes to, or the class of the error reported.
    spec fn encoding(&self) -> Result<Seq<u8>, ErrorClass>;

    /// Appends this value to `w` in Minecraft wire format.
    fn encode(&self, w: &mut Vec<u8>) -> (res: ProtocolResult<()>)
        ensures
            written(self.encoding(), res, old(w)@, final(w)@),
    ;
}

/// Decodes a type from the Minecraft wire format.
///
/// After a successful decode, `r` points to the remaining bytes.
pub trait Decode: Sized + DeepView {
    /// What decoding the bytes `s` yields.
    spec fn parse(s: Seq<u8>) -> SpecParse<<Self as DeepView>::V>;

    /// Reads a value from `r`, advancing the cursor.
    fn decode(r: &mut &[u8]) -> (res: ProtocolResult<Self>)
        ensures
            parsed(Self::parse(old(r)@), res, final(r)@),
    ;
}

} // verus!
