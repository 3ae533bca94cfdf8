//! Minimal NBT skipper for network protocol parsing.
//!
//! Skips NBT Compound tags without interpreting their contents. This is used
//! to parse JoinGame packets in 1.16-1.16.1, where `dimension_codec` and
//! `dimension_type` are large NBT Compounds that must be skipped to reach
//! the `dimension_name` field.
//!
//! Fixed-size fields are read as a byte reader reads them (a shortage is an
//! unexpected end of file); skipped spans report `Incomplete`.

use vstd::prelude::*;

use crate::codec::raw::{read_u16, read_u32, read_u8, split_front};
use crate::codec::spec::{
    be_u16, i32_bytes, lemma_p_byte_round_trips, lemma_p_signed_round_trips, lemma_p_u16_round_trip, p_i32, p_u16, p_u8,
    u16_bytes, u32_bytes, u64_bytes,
};
use crate::error::{eof, ErrorClass, ProtocolError, ProtocolResult};

verus! {

pub const TAG_END: u8 = 0;
pub const TAG_BYTE: u8 = 1;
pub const TAG_SHORT: u8 = 2;
pub const TAG_INT: u8 = 3;
pub const TAG_LONG: u8 = 4;
pub const TAG_FLOAT: u8 = 5;
pub const TAG_DOUBLE: u8 = 6;
pub const TAG_BYTE_ARRAY: u8 = 7;
pub const TAG_STRING: u8 = 8;
pub const TAG_LIST: u8 = 9;
pub const TAG_COMPOUND: u8 = 10;
pub const TAG_INT_ARRAY: u8 = 11;
pub const TAG_LONG_ARRAY: u8 = 12;

/// Maximum compound nesting depth, against malicious input.
pub const MAX_DEPTH: u32 = 512;

/// Skipping `n` bytes: the rest, or `Incomplete` when fewer remain.
pub open spec fn skip_n(s: Seq<u8>, n: int) -> Result<Seq<u8>, ErrorClass> {
    if s.len() < n {
        Err(ErrorClass::Incomplete)
    } else {
        Ok(s.skip(n))
    }
}

/// Skipping an NBT string: a big-endian `u16` length, then that many bytes.
pub open spec fn skip_string(s: Seq<u8>) -> Result<Seq<u8>, ErrorClass> {
    match p_u16(s, eof()) {
        Err(e) => Err(e),
        Ok((n, r)) => skip_n(r, n as int),
    }
}

/// Skipping an array of `i32`-counted elements of `width` bytes each.
pub open spec fn skip_array(s: Seq<u8>, width: int) -> Result<Seq<u8>, ErrorClass> {
    match p_i32(s, eof()) {
        Err(e) => Err(e),
        Ok((count, r)) => if count < 0 {
            Err(ErrorClass::Invalid)
        } else if count * width > usize::MAX {
            Err(ErrorClass::Invalid)
        } else {
            skip_n(r, count * width)
        },
    }
}

/// Skipping the payload of a tag of type `tag` (no type byte, no name):
/// the rest of the input, or the class of the error.
pub open spec fn skip_payload(s: Seq<u8>, tag: u8, depth: nat) -> Result<Seq<u8>, ErrorClass>
    decreases s.len(), 1nat,
{
    if tag == TAG_BYTE {
        skip_n(s, 1)
    } else if tag == TAG_SHORT {
        skip_n(s, 2)
    } else if tag == TAG_INT || tag == TAG_FLOAT {
        skip_n(s, 4)
    } else if tag == TAG_LONG || tag == TAG_DOUBLE {
        skip_n(s, 8)
    } else if tag == TAG_BYTE_ARRAY {
        skip_array(s, 1)
    } else if tag == TAG_STRING {
        skip_string(s)
    } else if tag == TAG_LIST {
        match p_u8(s, eof()) {
            Err(e) => Err(e),
            Ok((elem, r1)) => match p_i32(r1, eof()) {
                Err(e) => Err(e),
                Ok((count, r2)) => if count <= 0 {
                    Ok(r2)
                } else {
                    skip_list(r2, elem, count as nat, depth + 1)
                },
            },
        }
    } else if tag == TAG_COMPOUND {
        skip_compound(s, depth + 1)
    } else if tag == TAG_INT_ARRAY {
        skip_array(s, 4)
    } else if tag == TAG_LONG_ARRAY {
        skip_array(s, 8)
    } else {
        Err(ErrorClass::Invalid)
    }
}

/// Skipping `count` payloads of type `elem`. (A payload always consumes
/// input; the `Invalid` branch for one that did not is never taken.)
pub open spec fn skip_list(s: Seq<u8>, elem: u8, count: nat, depth: nat) -> Result<
    Seq<u8>,
    ErrorClass,
>
    decreases s.len(), 2nat,
{
    if count == 0 {
        Ok(s)
    } else {
        match skip_payload(s, elem, depth) {
            Err(e) => Err(e),
            Ok(r) => if r.len() < s.len() {
                skip_list(r, elem, (count - 1) as nat, depth)
            } else {
                Err(ErrorClass::Invalid)
            },
        }
    }
}

/// Skipping the children of a compound up to and including its `TAG_End`.
/// A depth beyond `MAX_DEPTH` is `Invalid`.
pub open spec fn skip_compound(s: Seq<u8>, depth: nat) -> Result<Seq<u8>, ErrorClass>
    decreases s.len(), 0nat,
{
    if depth > MAX_DEPTH {
        Err(ErrorClass::Invalid)
    } else {
        match p_u8(s, eof()) {
            Err(e) => Err(e),
            Ok((t, r1)) => if t == TAG_END {
                Ok(r1)
            } else {
                match skip_string(r1) {
                    Err(e) => Err(e),
                    Ok(r2) => match skip_payload(r2, t, depth) {
                        Err(e) => Err(e),
                        Ok(r3) => if r3.len() < s.len() {
                            skip_compound(r3, depth)
                        } else {
                            Err(ErrorClass::Invalid)
                        },
                    },
                }
            },
        }
    }
}

/// Skipping a whole named compound: the type byte `0x0A`, the root name,
/// then the payload. Any other type byte is `Invalid`.
pub open spec fn skip_named_compound(s: Seq<u8>) -> Result<Seq<u8>, ErrorClass> {
    match p_u8(s, eof()) {
        Err(e) => Err(e),
        Ok((t, r1)) => if t != TAG_COMPOUND {
            Err(ErrorClass::Invalid)
        } else {
            match skip_string(r1) {
                Err(e) => Err(e),
                Ok(r2) => skip_compound(r2, 0),
            }
        },
    }
}

/// The outcome `spec` of a skip, seen through `res` and the rest `rest`.
pub open spec fn skipped(spec: Result<Seq<u8>, ErrorClass>, res: ProtocolResult<()>, rest: Seq<u8>) -> bool {
    match spec {
        Ok(r) => res is Ok && rest == r,
        Err(c) => res matches Err(e) && e.class() == c,
    }
}

/// Advances the reader by `n` bytes.
fn skip_bytes(r: &mut &[u8], n: usize) -> (res: ProtocolResult<()>)
    ensures
        skipped(skip_n(old(r)@, n as int), res, final(r)@),
{
    match split_front(r, n) {
        None => Err(ProtocolError::incomplete("NBT skip")),
        Some(_) => Ok(()),
    }
}

/// Skips an NBT string (u16 BE length + bytes).
fn skip_nbt_string(r: &mut &[u8]) -> (res: ProtocolResult<()>)
    ensures
        skipped(skip_string(old(r)@), res, final(r)@),
        res is Ok ==> final(r)@.len() + 2 <= old(r)@.len(),
{
    let len = match read_u16(r, true, "NBT string length") {
        Ok(n) => n as usize,
        Err(e) => return Err(e),
    };
    skip_bytes(r, len)
}

/// Skips an `i32`-counted array of `width`-byte elements.
fn skip_nbt_array(r: &mut &[u8], width: usize, context: &str) -> (res: ProtocolResult<()>)
    requires
        width == 1 || width == 4 || width == 8,
    ensures
        skipped(skip_array(old(r)@, width as int), res, final(r)@),
        res is Ok ==> final(r)@.len() + 4 <= old(r)@.len(),
{
    let raw = match read_u32(r, true, "NBT array length") {
        Ok(v) => v as i32,
        Err(e) => return Err(e),
    };
    if raw < 0 {
        return Err(ProtocolError::invalid(context));
    }
    match (raw as usize).checked_mul(width) {
        None => Err(ProtocolError::invalid(context)),
        Some(byte_len) => skip_bytes(r, byte_len),
    }
}

/// Skips the payload of a single tag (not including type byte or name).
fn skip_tag_payload(r: &mut &[u8], tag_type: u8, depth: u32) -> (res: ProtocolResult<()>)
    requires
        depth + old(r)@.len() + 1 <= 0xFFFF_FFF0,
    ensures
        skipped(skip_payload(old(r)@, tag_type, depth as nat), res, final(r)@),
        res is Ok ==> final(r)@.len() < old(r)@.len(),
    decreases old(r)@.len(), 1nat,
{
    if tag_type == TAG_BYTE {
        skip_bytes(r, 1)
    } else if tag_type == TAG_SHORT {
        skip_bytes(r, 2)
    } else if tag_type == TAG_INT || tag_type == TAG_FLOAT {
        skip_bytes(r, 4)
    } else if tag_type == TAG_LONG || tag_type == TAG_DOUBLE {
        skip_bytes(r, 8)
    } else if tag_type == TAG_BYTE_ARRAY {
        skip_nbt_array(r, 1, "negative NBT byte array length")
    } else if tag_type == TAG_STRING {
        skip_nbt_string(r)
    } else if tag_type == TAG_LIST {
        let ghost s = r@;
        let element_type = match read_u8(r, true, "NBT list element type") {
            Ok(t) => t,
            Err(e) => return Err(e),
        };
        let count = match read_u32(r, true, "NBT list length") {
            Ok(v) => v as i32,
            Err(e) => return Err(e),
        };
        if count <= 0 {
            return Ok(());
        }
        let ghost start = r@;
        assert(skip_payload(s, tag_type, depth as nat) == skip_list(
            start,
            element_type,
            count as nat,
            depth as nat + 1,
        ));
        let mut i: i32 = 0;
        while i < count
            invariant
                0 <= i <= count,
                s == old(r)@,
                skip_payload(s, tag_type, depth as nat) == skip_list(
                    start,
                    element_type,
                    count as nat,
                    depth as nat + 1,
                ),
                r@.len() <= start.len(),
                start.len() + 5 == s.len(),
                depth + s.len() + 1 <= 0xFFFF_FFF0,
                skip_list(start, element_type, count as nat, depth as nat + 1) == skip_list(
                    r@,
                    element_type,
                    (count - i) as nat,
                    depth as nat + 1,
                ),
            decreases count - i,
        {
            let ghost before = r@;
            assert(count - i > 0);
            match skip_tag_payload(r, element_type, depth + 1) {
                Ok(()) => {},
                Err(e) => return Err(e),
            }
            assert(r@.len() < before.len());
            i = i + 1;
        }
        Ok(())
    } else if tag_type == TAG_COMPOUND {
        skip_compound_payload(r, depth + 1)
    } else if tag_type == TAG_INT_ARRAY {
        skip_nbt_array(r, 4, "negative NBT int array count")
    } else if tag_type == TAG_LONG_ARRAY {
        skip_nbt_array(r, 8, "negative NBT long array count")
    } else {
        Err(ProtocolError::invalid("unknown NBT tag type"))
    }
}

/// Skips the payload of a compound tag (children until `TAG_End`).
fn skip_compound_payload(r: &mut &[u8], depth: u32) -> (res: ProtocolResult<()>)
    requires
        depth + old(r)@.len() <= 0xFFFF_FFF0,
    ensures
        skipped(skip_compound(old(r)@, depth as nat), res, final(r)@),
        res is Ok ==> final(r)@.len() < old(r)@.len(),
    decreases old(r)@.len(), 0nat,
{
    if depth > MAX_DEPTH {
        return Err(ProtocolError::invalid("NBT nesting depth exceeded"));
    }
    let ghost s = r@;
    loop
        invariant
            depth <= MAX_DEPTH,
            r@.len() <= s.len(),
            depth + s.len() <= 0xFFFF_FFF0,
            s == old(r)@,
            skip_compound(s, depth as nat) == skip_compound(r@, depth as nat),
        decreases r@.len(),
    {
        let ghost before = r@;
        let child_type = match read_u8(r, true, "NBT tag type") {
            Ok(t) => t,
            Err(e) => return Err(e),
        };
        if child_type == TAG_END {
            return Ok(());
        }
        match skip_nbt_string(r) {
            Ok(()) => {},
            Err(e) => return Err(e),
        }
        match skip_tag_payload(r, child_type, depth) {
            Ok(()) => {},
            Err(e) => return Err(e),
        }
        assert(r@.len() < before.len());
    }
}

/// Skips a full NBT Compound tag including the root tag type byte and name
/// (the network format before 1.20.2).
pub fn skip_nbt_compound(r: &mut &[u8]) -> (res: ProtocolResult<()>)
    requires
        old(r)@.len() <= 0xFFFF_FFF0,
    ensures
        skipped(skip_named_compound(old(r)@), res, final(r)@),
        res is Ok ==> final(r)@.len() < old(r)@.len(),
{
    let tag_type = match read_u8(r, true, "NBT root type") {
        Ok(t) => t,
        Err(e) => return Err(e),
    };
    if tag_type != TAG_COMPOUND {
        return Err(ProtocolError::invalid("expected NBT Compound (0x0A)"));
    }
    match skip_nbt_string(r) {
        Ok(()) => {},
        Err(e) => return Err(e),
    }
    skip_compound_payload(r, 0)
}

/// Skipping a whole compound in the network format of 1.20.2+: the type
/// byte `0x0A`, then the payload, with no root name. Any other type byte is
/// `Invalid`.
pub open spec fn skip_nameless_compound(s: Seq<u8>) -> Result<Seq<u8>, ErrorClass> {
    match p_u8(s, eof()) {
        Err(e) => Err(e),
        Ok((t, r1)) => if t != TAG_COMPOUND {
            Err(ErrorClass::Invalid)
        } else {
            skip_compound(r1, 0)
        },
    }
}

/// Skips a full NBT Compound tag in the 1.20.2+ network format (type byte,
/// then the payload; no root name).
pub fn _skip_nbt_compound_nameless(r: &mut &[u8]) -> (res: ProtocolResult<()>)
    requires
        old(r)@.len() <= 0xFFFF_FFF0,
    ensures
        skipped(skip_nameless_compound(old(r)@), res, final(r)@),
        res is Ok ==> final(r)@.len() < old(r)@.len(),
{
    let tag_type = match read_u8(r, true, "NBT root type") {
        Ok(t) => t,
        Err(e) => return Err(e),
    };
    if tag_type != TAG_COMPOUND {
        return Err(ProtocolError::invalid("expected NBT Compound (0x0A)"));
    }
    skip_compound_payload(r, 0)
}

// ---------------------------------------------------------------------------
// What follows a compound is left untouched
// ---------------------------------------------------------------------------
proof fn lemma_prefix_reads(s: Seq<u8>, t: Seq<u8>)
    ensures
        p_u8(s, eof()) matches Ok((x, r)) ==> p_u8(s + t, eof()) == Ok::<(u8, Seq<u8>), ErrorClass>(
            (x, r + t),
        ),
        p_u16(s, eof()) matches Ok((x, r)) ==> p_u16(s + t, eof()) == Ok::<(u16, Seq<u8>), ErrorClass>(
            (x, r + t),
        ),
        p_i32(s, eof()) matches Ok((x, r)) ==> p_i32(s + t, eof()) == Ok::<(i32, Seq<u8>), ErrorClass>(
            (x, r + t),
        ),
        forall|n: int| 0 <= n && #[trigger] skip_n(s, n) is Ok ==> skip_n(s + t, n) == Ok::<Seq<u8>, ErrorClass>(
            skip_n(s, n).unwrap() + t,
        ),
{
    if s.len() >= 1 {
        assert((s + t).skip(1) =~= s.skip(1) + t);
    }
    if s.len() >= 2 {
        assert((s + t).skip(2) =~= s.skip(2) + t);
    }
    if s.len() >= 4 {
        assert((s + t).skip(4) =~= s.skip(4) + t);
    }
    assert forall|n: int| 0 <= n && #[trigger] skip_n(s, n) is Ok implies skip_n(s + t, n) == Ok::<
        Seq<u8>,
        ErrorClass,
    >(skip_n(s, n).unwrap() + t) by {
        assert((s + t).skip(n) =~= s.skip(n) + t);
    }
}

proof fn lemma_string_extends(s: Seq<u8>, t: Seq<u8>)
    ensures
        skip_string(s) matches Ok(r) ==> skip_string(s + t) == Ok::<Seq<u8>, ErrorClass>(r + t),
{
    lemma_prefix_reads(s, t);
    if let Ok((n, r1)) = p_u16(s, eof()) {
        lemma_prefix_reads(r1, t);
    }
}

proof fn lemma_array_extends(s: Seq<u8>, width: int, t: Seq<u8>)
    requires
        width >= 0,
    ensures
        skip_array(s, width) matches Ok(r) ==> skip_array(s + t, width) == Ok::<Seq<u8>, ErrorClass>(r + t),
{
    lemma_prefix_reads(s, t);
    if let Ok((n, r1)) = p_i32(s, eof()) {
        lemma_prefix_reads(r1, t);
        if n >= 0 {
            assert(n * width >= 0) by (nonlinear_arith)
                requires
                    n >= 0,
                    width >= 0,
            ;
            let _ = skip_n(r1, n * width);
        }
    }
}

proof fn lemma_payload_extends(s: Seq<u8>, tag: u8, depth: nat, t: Seq<u8>)
    ensures
        skip_payload(s, tag, depth) matches Ok(r) ==> skip_payload(s + t, tag, depth) == Ok::<
            Seq<u8>,
            ErrorClass,
        >(r + t),
    decreases s.len(), 1nat,
{
    lemma_prefix_reads(s, t);
    lemma_string_extends(s, t);
    lemma_array_extends(s, 1, t);
    lemma_array_extends(s, 4, t);
    lemma_array_extends(s, 8, t);
    if tag == TAG_LIST {
        if let Ok((elem, r1)) = p_u8(s, eof()) {
            lemma_prefix_reads(r1, t);
            if let Ok((count, r2)) = p_i32(r1, eof()) {
                if count > 0 {
                    lemma_list_extends(r2, elem, count as nat, depth + 1, t);
                }
            }
        }
    } else if tag == TAG_COMPOUND {
        lemma_compound_extends(s, depth + 1, t);
    }
}

proof fn lemma_list_extends(s: Seq<u8>, elem: u8, count: nat, depth: nat, t: Seq<u8>)
    ensures
        skip_list(s, elem, count, depth) matches Ok(r) ==> skip_list(s + t, elem, count, depth) == Ok::<
            Seq<u8>,
            ErrorClass,
        >(r + t),
    decreases s.len(), 2nat,
{
    if count > 0 {
        lemma_payload_extends(s, elem, depth, t);
        if let Ok(r) = skip_payload(s, elem, depth) {
            if r.len() < s.len() {
                lemma_list_extends(r, elem, (count - 1) as nat, depth, t);
            }
        }
    }
}

proof fn lemma_compound_extends(s: Seq<u8>, depth: nat, t: Seq<u8>)
    ensures
        skip_compound(s, depth) matches Ok(r) ==> skip_compound(s + t, depth) == Ok::<Seq<u8>, ErrorClass>(
            r + t,
        ),
    decreases s.len(), 0nat,
{
    if depth <= MAX_DEPTH {
        lemma_prefix_reads(s, t);
        if let Ok((tag, r1)) = p_u8(s, eof()) {
            if tag != TAG_END {
                lemma_string_extends(r1, t);
                if let Ok(r2) = skip_string(r1) {
                    lemma_payload_extends(r2, tag, depth, t);
                    if let Ok(r3) = skip_payload(r2, tag, depth) {
                        if r3.len() < s.len() {
                            lemma_compound_extends(r3, depth, t);
                        }
                    }
                }
            }
        }
    }
}

/// Skipping a compound leaves whatever follows it untouched: a compound
/// skipped from `s` with `r` left over is skipped from `s + t` with `r + t`
/// left over.
pub proof fn law_skip_preserves_what_follows(s: Seq<u8>, t: Seq<u8>)
    ensures
        skip_named_compound(s) matches Ok(r) ==> skip_named_compound(s + t) == Ok::<
            Seq<u8>,
            ErrorClass,
        >(r + t),
{
    lemma_prefix_reads(s, t);
    if let Ok((tag, r1)) = p_u8(s, eof()) {
        lemma_string_extends(r1, t);
        if let Ok(r2) = skip_string(r1) {
            lemma_compound_extends(r2, 0, t);
        }
    }
}

// ---------------------------------------------------------------------------
// Network NBT
// ---------------------------------------------------------------------------
/// Standard NBT turned into network NBT (1.20.2+): a root compound loses
/// the two bytes of its (empty) name's length; anything else is unchanged.
pub open spec fn network_form(standard: Seq<u8>) -> Seq<u8> {
    if standard.len() >= 3 && standard[0] == TAG_COMPOUND {
        seq![TAG_COMPOUND] + standard.skip(3)
    } else {
        standard
    }
}

/// Turns standard NBT with an unnamed root compound (`0x0A 0x00 0x00
/// [payload] 0x00`) into network NBT (`0x0A [payload] 0x00`).
pub fn strip_root_name(standard: Vec<u8>) -> (network: Vec<u8>)
    ensures
        network@ == network_form(standard@),
{
    if standard.len() >= 3 && standard[0] == TAG_COMPOUND {
        let mut out: Vec<u8> = Vec::new();
        out.push(TAG_COMPOUND);
        let n = standard.len();
        let mut i: usize = 3;
        while i < n
            invariant
                3 <= i <= n,
                n == standard@.len(),
                out@ == seq![TAG_COMPOUND] + standard@.subrange(3, i as int),
            decreases n - i,
        {
            out.push(standard[i]);
            proof {
                assert(standard@.subrange(3, i + 1) =~= standard@.subrange(3, i as int).push(
                    standard@[i as int],
                ));
            }
            i = i + 1;
        }
        assert(standard@.subrange(3, n as int) =~= standard@.skip(3));
        out
    } else {
        standard
    }
}

/// A compound with an empty root name skips the same in its network form
/// as in its standard form: stripping the name changes where the payload
/// starts, not what is skipped or what is left.
pub proof fn law_network_form_skips_alike(standard: Seq<u8>)
    requires
        standard.len() >= 3,
        standard[0] == TAG_COMPOUND,
        standard[1] == 0,
        standard[2] == 0,
    ensures
        skip_nameless_compound(network_form(standard)) == skip_named_compound(standard),
{
    let r1 = standard.skip(1);
    assert(r1[0] == 0 && r1[1] == 0);
    let z: u8 = r1[0];
    assert(((z as u16) << 8u16) | (z as u16) == 0u16) by (bit_vector)
        requires
            z == 0,
    ;
    assert(be_u16(r1) == 0);
    assert(r1.skip(2) =~= standard.skip(3));
    assert(r1.skip(2).skip(0) =~= r1.skip(2));
    let n = network_form(standard);
    assert(n.skip(1) =~= standard.skip(3));
}

// ---------------------------------------------------------------------------
// NBT values as the format writes them
// ---------------------------------------------------------------------------
/// An NBT value, described by what the format writes for it: numbers by
/// their big-endian bits, arrays by the raw bytes of their elements.
pub enum NbtValue {
    Byte(u8),
    Short(u16),
    Int(u32),
    Long(u64),
    Float(u32),
    Double(u64),
    ByteArray(Seq<u8>),
    Str(Seq<u8>),
    /// The element type, then the elements.
    List(u8, Seq<NbtValue>),
    Compound(Seq<NbtEntry>),
    IntArray(Seq<u8>),
    LongArray(Seq<u8>),
}

/// A named child of a compound.
pub struct NbtEntry {
    pub name: Seq<u8>,
    pub value: NbtValue,
}

/// The type byte the format gives each kind of value.
pub open spec fn nbt_type_byte(v: NbtValue) -> u8 {
    match v {
        NbtValue::Byte(_) => 1,
        NbtValue::Short(_) => 2,
        NbtValue::Int(_) => 3,
        NbtValue::Long(_) => 4,
        NbtValue::Float(_) => 5,
        NbtValue::Double(_) => 6,
        NbtValue::ByteArray(_) => 7,
        NbtValue::Str(_) => 8,
        NbtValue::List(_, _) => 9,
        NbtValue::Compound(_) => 10,
        NbtValue::IntArray(_) => 11,
        NbtValue::LongArray(_) => 12,
    }
}

/// The payload the format writes for `v` (no type byte, no name): a byte
/// is 1 byte, a short 2, an int and a float 4, a long and a double 8; an
/// array is its element count as an `i32`, then its elements; a string is
/// its length as a `u16`, then its bytes; a list is its element type, its
/// count as an `i32`, then its elements' payloads; a compound is its
/// children, each as type byte, name and payload, then a `TAG_End`.
pub open spec fn nbt_payload(v: NbtValue) -> Seq<u8>
    decreases v, 0int,
{
    match v {
        NbtValue::Byte(b) => seq![b],
        NbtValue::Short(x) => u16_bytes(x),
        NbtValue::Int(x) => u32_bytes(x),
        NbtValue::Long(x) => u64_bytes(x),
        NbtValue::Float(x) => u32_bytes(x),
        NbtValue::Double(x) => u64_bytes(x),
        NbtValue::ByteArray(b) => i32_bytes(b.len() as i32) + b,
        NbtValue::Str(t) => u16_bytes(t.len() as u16) + t,
        NbtValue::List(elem, items) => seq![elem] + i32_bytes(items.len() as i32) + nbt_items(items),
        NbtValue::Compound(es) => nbt_entries(es),
        NbtValue::IntArray(d) => i32_bytes((d.len() / 4) as i32) + d,
        NbtValue::LongArray(d) => i32_bytes((d.len() / 8) as i32) + d,
    }
}

/// The payloads of list elements, one after the other.
pub open spec fn nbt_items(items: Seq<NbtValue>) -> Seq<u8>
    decreases items, 1int,
{
    if items.len() == 0 {
        seq![]
    } else {
        nbt_payload(items[0]) + nbt_items(items.subrange(1, items.len() as int))
    }
}

/// The children of a compound, each as type byte, name and payload, then
/// `TAG_End`.
pub open spec fn nbt_entries(es: Seq<NbtEntry>) -> Seq<u8>
    decreases es, 1int,
{
    if es.len() == 0 {
        seq![0u8]
    } else {
        seq![nbt_type_byte(es[0].value)] + u16_bytes(es[0].name.len() as u16) + es[0].name + nbt_payload(
            es[0].value,
        ) + nbt_entries(es.subrange(1, es.len() as int))
    }
}

/// `v` can be written, at nesting `depth` (as the skipper counts it): its
/// strings and names fit a `u16`, its counts an `i32` and its array
/// lengths a `usize`, its list elements have the list's type, and no
/// compound lies deeper than `MAX_DEPTH`.
pub open spec fn nbt_writable(v: NbtValue, depth: nat) -> bool
    decreases v, 0int,
{
    match v {
        NbtValue::ByteArray(b) => b.len() <= i32::MAX && b.len() <= usize::MAX,
        NbtValue::Str(t) => t.len() <= 0xFFFF,
        NbtValue::List(elem, items) => items.len() <= i32::MAX && nbt_items_writable(items, elem, depth + 1),
        NbtValue::Compound(es) => depth + 1 <= MAX_DEPTH && nbt_entries_writable(es, depth + 1),
        NbtValue::IntArray(d) => d.len() % 4 == 0 && d.len() / 4 <= i32::MAX && d.len() <= usize::MAX,
        NbtValue::LongArray(d) => d.len() % 8 == 0 && d.len() / 8 <= i32::MAX && d.len() <= usize::MAX,
        _ => true,
    }
}

pub open spec fn nbt_items_writable(items: Seq<NbtValue>, elem: u8, depth: nat) -> bool
    decreases items, 1int,
{
    items.len() == 0 || (nbt_type_byte(items[0]) == elem && nbt_writable(items[0], depth)
        && nbt_items_writable(items.subrange(1, items.len() as int), elem, depth))
}

pub open spec fn nbt_entries_writable(es: Seq<NbtEntry>, depth: nat) -> bool
    decreases es, 1int,
{
    es.len() == 0 || (es[0].name.len() <= 0xFFFF && nbt_writable(es[0].value, depth)
        && nbt_entries_writable(es.subrange(1, es.len() as int), depth))
}

proof fn lemma_skip_fixed(b: Seq<u8>, rest: Seq<u8>, n: int)
    requires
        b.len() == n,
    ensures
        skip_n(b + rest, n) == Ok::<Seq<u8>, ErrorClass>(rest),
{
    assert((b + rest).skip(n) =~= rest);
}

proof fn lemma_skip_counted(count: i32, d: Seq<u8>, rest: Seq<u8>, width: int)
    requires
        0 <= count,
        width == 1 || width == 4 || width == 8,
        d.len() == count * width,
        d.len() <= usize::MAX,
    ensures
        skip_array(i32_bytes(count) + d + rest, width) == Ok::<Seq<u8>, ErrorClass>(rest),
{
    lemma_p_signed_round_trips(0, 0, count, 0, d + rest, eof());
    assert(i32_bytes(count) + d + rest =~= i32_bytes(count) + (d + rest));
    lemma_skip_fixed(d, rest, d.len() as int);
}

#[verifier::spinoff_prover]
#[verifier::rlimit(60)]
proof fn lemma_payload_skips(v: NbtValue, rest: Seq<u8>, depth: nat)
    requires
        nbt_writable(v, depth),
    ensures
        nbt_payload(v).len() >= 1,
        skip_payload(nbt_payload(v) + rest, nbt_type_byte(v), depth) == Ok::<Seq<u8>, ErrorClass>(rest),
    decreases v, 0int,
{
    match v {
        NbtValue::Byte(b) => lemma_skip_fixed(seq![b], rest, 1),
        NbtValue::Short(x) => lemma_skip_fixed(u16_bytes(x), rest, 2),
        NbtValue::Int(x) => lemma_skip_fixed(u32_bytes(x), rest, 4),
        NbtValue::Long(x) => lemma_skip_fixed(u64_bytes(x), rest, 8),
        NbtValue::Float(x) => lemma_skip_fixed(u32_bytes(x), rest, 4),
        NbtValue::Double(x) => lemma_skip_fixed(u64_bytes(x), rest, 8),
        NbtValue::ByteArray(b) => lemma_skip_counted(b.len() as i32, b, rest, 1),
        NbtValue::IntArray(d) => lemma_skip_counted((d.len() / 4) as i32, d, rest, 4),
        NbtValue::LongArray(d) => lemma_skip_counted((d.len() / 8) as i32, d, rest, 8),
        NbtValue::Str(t) => {
            lemma_p_u16_round_trip(t.len() as u16, t + rest, eof());
            assert(u16_bytes(t.len() as u16) + t + rest =~= u16_bytes(t.len() as u16) + (t + rest));
            lemma_skip_fixed(t, rest, t.len() as int);
        },
        NbtValue::List(elem, items) => {
            let c = items.len() as i32;
            let body = nbt_items(items);
            assert(nbt_payload(v) + rest =~= seq![elem] + (i32_bytes(c) + (body + rest)));
            lemma_p_byte_round_trips(elem, false, i32_bytes(c) + (body + rest), eof());
            lemma_p_signed_round_trips(0, 0, c, 0, body + rest, eof());
            lemma_items_skip(items, elem, rest, depth + 1);
        },
        NbtValue::Compound(es) => {
            lemma_entries_skip(es, rest, depth + 1);
        },
    }
}

proof fn lemma_items_skip(items: Seq<NbtValue>, elem: u8, rest: Seq<u8>, depth: nat)
    requires
        nbt_items_writable(items, elem, depth),
    ensures
        skip_list(nbt_items(items) + rest, elem, items.len(), depth) == Ok::<Seq<u8>, ErrorClass>(rest),
    decreases items, 1int,
{
    if items.len() > 0 {
        let tail = items.subrange(1, items.len() as int);
        let after = nbt_items(tail) + rest;
        lemma_payload_skips(items[0], after, depth);
        lemma_items_skip(tail, elem, rest, depth);
        assert(nbt_items(items) + rest =~= nbt_payload(items[0]) + after);
        assert(tail.len() == (items.len() - 1) as nat);
    } else {
        assert(nbt_items(items) + rest =~= rest);
    }
}

proof fn lemma_entries_skip(es: Seq<NbtEntry>, rest: Seq<u8>, depth: nat)
    requires
        depth <= MAX_DEPTH,
        nbt_entries_writable(es, depth),
    ensures
        nbt_entries(es).len() >= 1,
        skip_compound(nbt_entries(es) + rest, depth) == Ok::<Seq<u8>, ErrorClass>(rest),
    decreases es, 1int,
{
    if es.len() == 0 {
        assert((seq![0u8] + rest).skip(1) =~= rest);
    } else {
        let e = es[0];
        let tail = es.subrange(1, es.len() as int);
        let after = nbt_entries(tail) + rest;
        let name_len = e.name.len() as u16;
        let s = nbt_entries(es) + rest;
        assert(s =~= seq![nbt_type_byte(e.value)] + (u16_bytes(name_len) + (e.name + (nbt_payload(e.value)
            + after))));
        lemma_p_byte_round_trips(nbt_type_byte(e.value), false, u16_bytes(name_len) + (e.name + (
        nbt_payload(e.value) + after)), eof());
        lemma_p_u16_round_trip(name_len, e.name + (nbt_payload(e.value) + after), eof());
        lemma_skip_fixed(e.name, nbt_payload(e.value) + after, e.name.len() as int);
        lemma_payload_skips(e.value, after, depth);
        lemma_entries_skip(tail, rest, depth);
    }
}

/// Skipping lands exactly after any value the format writes: the payload
/// of every writable value is skipped whole, and whatever follows it is
/// left untouched.
pub proof fn law_skip_lands_after_value(v: NbtValue, rest: Seq<u8>, depth: nat)
    requires
        nbt_writable(v, depth),
    ensures
        skip_payload(nbt_payload(v) + rest, nbt_type_byte(v), depth) == Ok::<Seq<u8>, ErrorClass>(rest),
{
    lemma_payload_skips(v, rest, depth);
}

/// Skipping a named compound lands exactly after it: the type byte `0x0A`,
/// the root name and the children the format writes are consumed, and
/// whatever follows is left untouched.
pub proof fn law_skip_lands_after_compound(root: Seq<u8>, children: Seq<NbtEntry>, rest: Seq<u8>)
    requires
        root.len() <= 0xFFFF,
        nbt_entries_writable(children, 0),
    ensures
        skip_named_compound(seq![10u8] + u16_bytes(root.len() as u16) + root + nbt_entries(children)
            + rest) == Ok::<Seq<u8>, ErrorClass>(rest),
{
    let body = nbt_entries(children) + rest;
    let s = seq![10u8] + u16_bytes(root.len() as u16) + root + nbt_entries(children) + rest;
    assert(s =~= seq![10u8] + (u16_bytes(root.len() as u16) + (root + body)));
    lemma_p_byte_round_trips(10, false, u16_bytes(root.len() as u16) + (root + body), eof());
    lemma_p_u16_round_trip(root.len() as u16, root + body, eof());
    lemma_skip_fixed(root, body, root.len() as int);
    lemma_entries_skip(children, rest, 0);
}

/// Skipping a compound in the 1.20.2+ network form lands exactly after it:
/// the type byte `0x0A` and the children the format writes are consumed,
/// with no root name, and whatever follows is left untouched.
pub proof fn law_skip_lands_after_network_compound(children: Seq<NbtEntry>, rest: Seq<u8>)
    requires
        nbt_entries_writable(children, 0),
    ensures
        skip_nameless_compound(seq![10u8] + nbt_entries(children) + rest) == Ok::<Seq<u8>, ErrorClass>(rest),
{
    let body = nbt_entries(children) + rest;
    assert(seq![10u8] + nbt_entries(children) + rest =~= seq![10u8] + body);
    lemma_p_byte_round_trips(10, false, body, eof());
    lemma_entries_skip(children, rest, 0);
}

} // verus!
