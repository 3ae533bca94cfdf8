//! `VarInt` encoding and decoding for the Minecraft protocol.

use vstd::prelude::*;

use super::raw::{var_consumed, read_var, short_class, var_size, write_var};
use super::spec::{lemma_pow128_facts, lemma_varint_round_trip, p_varint, parsed, var_value, varint_bytes};
use crate::error::{ErrorClass, ProtocolError, ProtocolResult};

verus! {

/// `VarInt`: a signed 32-bit integer encoded in 1–5 bytes, seven bits per
/// byte, least significant group first.
#[derive(Debug, Clone, Copy, PartialEq, Eq, Hash, PartialOrd, Ord, Structural)]
pub struct VarInt(pub i32);

impl View for VarInt {
    type V = i32;

    open spec fn view(&self) -> i32 {
        self.0
    }
}

impl DeepView for VarInt {
    type V = i32;

    open spec fn deep_view(&self) -> i32 {
        self.0
    }
}

impl VarInt {
    /// Maximum number of bytes a `VarInt` can occupy on the wire.
    pub const MAX_SIZE: usize = 5;

    /// Returns the number of bytes this `VarInt` occupies when encoded.
    pub fn written_size(self) -> (n: usize)
        ensures
            n == varint_bytes(self.0).len(),
            1 <= n <= 5,
    {
        proof {
            lemma_varint_round_trip(self.0, seq![], ErrorClass::Incomplete);
        }
        var_size(self.0 as u32 as u64)
    }

    /// Appends the encoding of this `VarInt` to `w`.
    pub fn encode(&self, w: &mut Vec<u8>) -> (res: ProtocolResult<()>)
        ensures
            res is Ok,
            final(w)@ == old(w)@ + varint_bytes(self.0),
    {
        write_var(w, self.0 as u32 as u64);
        Ok(())
    }

    /// Decodes a `VarInt` from the front of `r`, advancing it.
    ///
    /// Running out of bytes is `Incomplete`; more than five bytes is `Invalid`.
    pub fn decode(r: &mut &[u8]) -> (res: ProtocolResult<VarInt>)
        ensures
            parsed(p_varint(old(r)@, ErrorClass::Incomplete), res, final(r)@),
            res is Err ==> final(r)@ == old(r)@.skip(var_consumed(old(r)@, 5)),
            res matches Err(e) ==> (e.class() == ErrorClass::Incomplete ==> e == (
            ProtocolError::Incomplete { context: "VarInt" })),
    {
        VarInt::read(r, false)
    }

    /// Reads a `VarInt` from the front of `r`; a shortage is reported as
    /// `short_class(at_eof)`.
    pub fn read(r: &mut &[u8], at_eof: bool) -> (res: ProtocolResult<VarInt>)
        ensures
            parsed(p_varint(old(r)@, short_class(at_eof)), res, final(r)@),
            res is Err ==> final(r)@ == old(r)@.skip(var_consumed(old(r)@, 5)),
            res matches Err(e) ==> (!at_eof && e.class() == ErrorClass::Incomplete ==> e == (
            ProtocolError::Incomplete { context: "VarInt" })),
    {
        match read_var(r, 5, at_eof, "VarInt") {
            Ok(v) => {
                let x = #[verifier::truncate] (v as u32 as i32);
                proof {
                    lemma_pow128_facts();
                    let ghost (vv, n) = var_value(old(r)@, 5, short_class(at_eof)).unwrap();
                    assert(v == vv);
                    assert(x == (vv as u32) as i32);
                    assert(p_varint(old(r)@, short_class(at_eof)) == Ok::<(i32, Seq<u8>), ErrorClass>((x, old(r)@.skip(n as int))));
                }
                Ok(VarInt(x))
            },
            Err(e) => Err(e),
        }
    }
}

impl From<i32> for VarInt {
    fn from(val: i32) -> (r: VarInt) {
        VarInt(val)
    }
}

impl vstd::std_specs::convert::FromSpecImpl<i32> for VarInt {
    open spec fn obeys_from_spec() -> bool {
        true
    }

    open spec fn from_spec(v: i32) -> VarInt {
        VarInt(v)
    }
}

impl From<VarInt> for i32 {
    fn from(val: VarInt) -> (r: i32) {
        val.0
    }
}

impl vstd::std_specs::convert::FromSpecImpl<VarInt> for i32 {
    open spec fn obeys_from_spec() -> bool {
        true
    }

    open spec fn from_spec(v: VarInt) -> i32 {
        v.0
    }
}

} // verus!
