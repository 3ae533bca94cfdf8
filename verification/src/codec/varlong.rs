//! `VarLong` encoding and decoding for the Minecraft protocol.

use vstd::prelude::*;

use super::raw::{var_consumed, read_var, short_class, var_size, write_var};
use super::spec::{
    lemma_pow128_facts, lemma_var_bytes_len, lemma_var_len_bound, lemma_var_len_lower, lemma_varlong_round_trip, p_varlong, parsed, var_value, varlong_bytes};
use crate::error::{ErrorClass, ProtocolError, ProtocolResult};

verus! {

/// `VarLong`: a signed 64-bit integer encoded in 1–10 bytes, seven bits per
/// byte, least significant group first.
#[derive(Debug, Clone, Copy, PartialEq, Eq, Hash, PartialOrd, Ord, Structural)]
pub struct VarLong(pub i64);

impl View for VarLong {
    type V = i64;

    open spec fn view(&self) -> i64 {
        self.0
    }
}

impl DeepView for VarLong {
    type V = i64;

    open spec fn deep_view(&self) -> i64 {
        self.0
    }
}

impl VarLong {
    /// Maximum number of bytes a `VarLong` can occupy on the wire.
    pub const MAX_SIZE: usize = 10;

    /// Returns the number of bytes this `VarLong` occupies when encoded.
    pub fn written_size(self) -> (n: usize)
        ensures
            n == varlong_bytes(self.0).len(),
            1 <= n <= 10,
    {
        proof {
            lemma_varlong_round_trip(self.0, seq![], ErrorClass::Incomplete);
        }
        var_size(self.0 as u64)
    }

    /// Appends the encoding of this `VarLong` to `w`.
    pub fn encode(&self, w: &mut Vec<u8>) -> (res: ProtocolResult<()>)
        ensures
            res is Ok,
            final(w)@ == old(w)@ + varlong_bytes(self.0),
    {
        write_var(w, self.0 as u64);
        Ok(())
    }

    /// Decodes a `VarLong` from the front of `r`, advancing it.
    ///
    /// Running out of bytes is `Incomplete`; more than ten bytes is `Invalid`.
    pub fn decode(r: &mut &[u8]) -> (res: ProtocolResult<VarLong>)
        ensures
            parsed(p_varlong(old(r)@, ErrorClass::Incomplete), res, final(r)@),
            res is Err ==> final(r)@ == old(r)@.skip(var_consumed(old(r)@, 10)),
            res matches Err(e) ==> (e.class() == ErrorClass::Incomplete ==> e == (
            ProtocolError::Incomplete { context: "VarLong" })),
    {
        VarLong::read(r, false)
    }

    /// Reads a `VarLong` from the front of `r`; a shortage is reported as
    /// `short_class(at_eof)`.
    pub fn read(r: &mut &[u8], at_eof: bool) -> (res: ProtocolResult<VarLong>)
        ensures
            parsed(p_varlong(old(r)@, short_class(at_eof)), res, final(r)@),
            res is Err ==> final(r)@ == old(r)@.skip(var_consumed(old(r)@, 10)),
            res matches Err(e) ==> (!at_eof && e.class() == ErrorClass::Incomplete ==> e == (
            ProtocolError::Incomplete { context: "VarLong" })),
    {
        match read_var(r, 10, at_eof, "VarLong") {
            Ok(v) => {
                let x = #[verifier::truncate] (v as u64 as i64);
                proof {
                    lemma_pow128_facts();
                    let ghost (vv, n) = var_value(old(r)@, 10, short_class(at_eof)).unwrap();
                    assert(v == vv);
                    assert(x == (vv as u64) as i64);
                    assert(p_varlong(old(r)@, short_class(at_eof)) == Ok::<(i64, Seq<u8>), ErrorClass>((x, old(r)@.skip(n as int))));
                }
                Ok(VarLong(x))
            },
            Err(e) => Err(e),
        }
    }
}

impl From<i64> for VarLong {
    fn from(val: i64) -> (r: VarLong) {
        VarLong(val)
    }
}

impl vstd::std_specs::convert::FromSpecImpl<i64> for VarLong {
    open spec fn obeys_from_spec() -> bool {
        true
    }

    open spec fn from_spec(v: i64) -> VarLong {
        VarLong(v)
    }
}

impl From<VarLong> for i64 {
    fn from(val: VarLong) -> (r: i64) {
        val.0
    }
}

impl vstd::std_specs::convert::FromSpecImpl<VarLong> for i64 {
    open spec fn obeys_from_spec() -> bool {
        true
    }

    open spec fn from_spec(v: VarLong) -> i64 {
        v.0
    }
}

/// A `VarLong` takes all ten bytes exactly when its value is negative.
pub proof fn law_varlong_ten_bytes_iff_negative(v: i64)
    ensures
        varlong_bytes(v).len() == 10 <==> v < 0,
{
    let u = v as u64;
    lemma_pow128_facts();
    lemma_var_bytes_len(u as nat);
    if v < 0 {
        assert(u >= 0x8000_0000_0000_0000u64) by (bit_vector)
            requires
                v < 0,
                u == v as u64,
        ;
        lemma_var_len_lower(u as nat, 10);
        lemma_var_len_bound(u as nat, 10);
    } else {
        assert(u < 0x8000_0000_0000_0000u64) by (bit_vector)
            requires
                v >= 0,
                u == v as u64,
        ;
        lemma_var_len_bound(u as nat, 9);
    }
}

} // verus!
