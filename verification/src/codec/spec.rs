//! Wire-format model: what each primitive encodes to, and what parsing a byte
//! sequence yields.
//!
//! A parser is modelled as a function from the input bytes to either the
//! decoded value together with the bytes that remain, or the class of the
//! error it reports. Parsers that run out of input report `short`: the
//! slice decoders of [`Decode`](super::Decode) report `Incomplete`, the
//! byte readers of [`raw`](super::raw) called with `at_eof` report an
//! unexpected end of file, as a `std::io::Read` of a slice does.

use vstd::prelude::*;
use vstd::utf8::*;

use crate::error::{ErrorClass, ProtocolError, ProtocolResult};

verus! {

/// The outcome of parsing: the value and the unread rest, or an error class.
pub type SpecParse<T> = Result<(T, Seq<u8>), ErrorClass>;

/// Default maximum string length in characters (Minecraft protocol limit).
pub const MAX_STRING_CHARS: usize = 32767;

/// `res` is what the parser model `spec` predicts, leaving `rest` unread.
pub open spec fn parsed<T: DeepView>(
    spec: SpecParse<T::V>,
    res: ProtocolResult<T>,
    rest: Seq<u8>,
) -> bool {
    match res {
        Ok(v) => spec == Ok::<(T::V, Seq<u8>), ErrorClass>((v.deep_view(), rest)),
        Err(e) => spec == Err::<(T::V, Seq<u8>), ErrorClass>(e.class()),
    }
}

/// `res` is what the parser model `spec` predicts, through the view of the
/// value read, leaving `rest` unread.
pub open spec fn parsed_view<T: View>(
    spec: SpecParse<T::V>,
    res: ProtocolResult<T>,
    rest: Seq<u8>,
) -> bool {
    match res {
        Ok(v) => spec == Ok::<(T::V, Seq<u8>), ErrorClass>((v@, rest)),
        Err(e) => spec == Err::<(T::V, Seq<u8>), ErrorClass>(e.class()),
    }
}

/// `res` is what the encoder model `spec` predicts: on success `after` is
/// `before` followed by the encoded bytes.
pub open spec fn written(
    spec: Result<Seq<u8>, ErrorClass>,
    res: ProtocolResult<()>,
    before: Seq<u8>,
    after: Seq<u8>,
) -> bool {
    match spec {
        Ok(bytes) => res is Ok && after == before + bytes,
        Err(c) => res matches Err(e) && e.class() == c,
    }
}

/// `res` is what the builder model `spec` predicts: on success the bytes.
pub open spec fn built(spec: Result<Seq<u8>, ErrorClass>, res: ProtocolResult<Vec<u8>>) -> bool {
    match spec {
        Ok(bytes) => res matches Ok(v) && v@ == bytes,
        Err(c) => res matches Err(e) && e.class() == c,
    }
}

// ---------------------------------------------------------------------------
// Fixed-width big-endian integers
// ---------------------------------------------------------------------------
/// Big-endian bytes of a `u16`.
pub open spec fn u16_bytes(v: u16) -> Seq<u8> {
    seq![(v >> 8u16) as u8, v as u8]
}

/// The `u16` whose big-endian bytes start `s`.
pub open spec fn be_u16(s: Seq<u8>) -> u16 {
    ((s[0] as u16) << 8u16) | (s[1] as u16)
}

/// Big-endian bytes of a `u32`.
pub open spec fn u32_bytes(v: u32) -> Seq<u8> {
    seq![(v >> 24u32) as u8, (v >> 16u32) as u8, (v >> 8u32) as u8, v as u8]
}

/// The `u32` whose big-endian bytes start `s`.
pub open spec fn be_u32(s: Seq<u8>) -> u32 {
    ((s[0] as u32) << 24u32) | ((s[1] as u32) << 16u32) | ((s[2] as u32) << 8u32) | (
    s[3] as u32)
}

/// Big-endian bytes of a `u64`: the high half, then the low half.
pub open spec fn u64_bytes(v: u64) -> Seq<u8> {
    u32_bytes((v >> 32u64) as u32) + u32_bytes(v as u32)
}

/// The `u64` whose big-endian bytes start `s`.
pub open spec fn be_u64(s: Seq<u8>) -> u64 {
    ((be_u32(s) as u64) << 32u64) | (be_u32(s.skip(4)) as u64)
}

/// Big-endian bytes of a `u128`: the high half, then the low half.
pub open spec fn u128_bytes(v: u128) -> Seq<u8> {
    u64_bytes((v >> 64u128) as u64) + u64_bytes(v as u64)
}

/// The `u128` whose big-endian bytes start `s`.
pub open spec fn be_u128(s: Seq<u8>) -> u128 {
    ((be_u64(s) as u128) << 64u128) | (be_u64(s.skip(8)) as u128)
}

pub proof fn lemma_u16_round_trip(v: u16)
    ensures
        be_u16(u16_bytes(v)) == v,
{
    let b0 = (v >> 8u16) as u8;
    let b1 = v as u8;
    assert(((b0 as u16) << 8u16) | (b1 as u16) == v) by (bit_vector)
        requires
            b0 == (v >> 8u16) as u8,
            b1 == v as u8,
    ;
}

pub proof fn lemma_u32_round_trip(v: u32)
    ensures
        be_u32(u32_bytes(v)) == v,
{
    let b0 = (v >> 24u32) as u8;
    let b1 = (v >> 16u32) as u8;
    let b2 = (v >> 8u32) as u8;
    let b3 = v as u8;
    assert(((b0 as u32) << 24u32) | ((b1 as u32) << 16u32) | ((b2 as u32) << 8u32) | (b3 as u32)
        == v) by (bit_vector)
        requires
            b0 == (v >> 24u32) as u8,
            b1 == (v >> 16u32) as u8,
            b2 == (v >> 8u32) as u8,
            b3 == v as u8,
    ;
}

pub proof fn lemma_u64_round_trip(v: u64)
    ensures
        be_u64(u64_bytes(v)) == v,
{
    let hi = (v >> 32u64) as u32;
    let lo = v as u32;
    lemma_u32_round_trip(hi);
    lemma_u32_round_trip(lo);
    let s = u64_bytes(v);
    assert(s.skip(4) =~= u32_bytes(lo));
    assert(be_u32(s) == be_u32(u32_bytes(hi)));
    assert(((hi as u64) << 32u64) | (lo as u64) == v) by (bit_vector)
        requires
            hi == (v >> 32u64) as u32,
            lo == v as u32,
    ;
}

pub proof fn lemma_u128_round_trip(v: u128)
    ensures
        be_u128(u128_bytes(v)) == v,
{
    let hi = (v >> 64u128) as u64;
    let lo = v as u64;
    lemma_u64_round_trip(hi);
    lemma_u64_round_trip(lo);
    let s = u128_bytes(v);
    assert(s.skip(8) =~= u64_bytes(lo));
    assert(s.skip(4) =~= u64_bytes(hi).skip(4) + u64_bytes(lo));
    assert(be_u64(s) == be_u64(u64_bytes(hi))) by {
        assert(s.skip(4).take(4) =~= u64_bytes(hi).skip(4));
    }
    assert(((hi as u128) << 64u128) | (lo as u128) == v) by (bit_vector)
        requires
            hi == (v >> 64u128) as u64,
            lo == v as u64,
    ;
}

// ---------------------------------------------------------------------------
// Variable-length integers
// ---------------------------------------------------------------------------
/// Groups of seven bits, least significant first; every byte but the last
/// carries the continuation bit `0x80`.
pub open spec fn var_bytes(u: nat) -> Seq<u8>
    decreases u,
{
    if u < 128 {
        seq![u as u8]
    } else {
        seq![(u % 128 + 128) as u8] + var_bytes(u / 128)
    }
}

/// Reads at most `max` seven-bit groups: the accumulated value and the number
/// of bytes read. Running out of input reports `short`; `max` bytes that all
/// carry the continuation bit are `Invalid`.
pub open spec fn var_value(s: Seq<u8>, max: nat, short: ErrorClass) -> Result<
    (nat, nat),
    ErrorClass,
>
    decreases max,
{
    if max == 0 {
        Err(ErrorClass::Invalid)
    } else if s.len() == 0 {
        Err(short)
    } else if s[0] < 128 {
        Ok((s[0] as nat, 1nat))
    } else {
        match var_value(s.skip(1), (max - 1) as nat, short) {
            Ok((v, n)) => Ok((((s[0] - 128) + 128 * v) as nat, n + 1)),
            Err(e) => Err(e),
        }
    }
}

/// A successful read consumes at least one byte and no more than there are.
pub proof fn lemma_var_value_len(s: Seq<u8>, max: nat, short: ErrorClass)
    ensures
        var_value(s, max, short) matches Ok((v, n)) ==> 1 <= n <= s.len(),
    decreases max,
{
    if max > 0 && s.len() > 0 && s[0] >= 128 {
        lemma_var_value_len(s.skip(1), (max - 1) as nat, short);
    }
}

/// The wire bytes of a `VarInt`: its two's-complement bits as a `u32`.
pub open spec fn varint_bytes(v: i32) -> Seq<u8> {
    var_bytes(v as u32 as nat)
}

/// The wire bytes of a `VarLong`: its two's-complement bits as a `u64`.
pub open spec fn varlong_bytes(v: i64) -> Seq<u8> {
    var_bytes(v as u64 as nat)
}

/// Parses a `VarInt` (at most five bytes; bits beyond 32 are dropped).
pub open spec fn p_varint(s: Seq<u8>, short: ErrorClass) -> SpecParse<i32> {
    match var_value(s, 5, short) {
        Ok((v, n)) => Ok(((v as u32) as i32, s.skip(n as int))),
        Err(e) => Err(e),
    }
}

/// Parses a `VarLong` (at most ten bytes; bits beyond 64 are dropped).
pub open spec fn p_varlong(s: Seq<u8>, short: ErrorClass) -> SpecParse<i64> {
    match var_value(s, 10, short) {
        Ok((v, n)) => Ok(((v as u64) as i64, s.skip(n as int))),
        Err(e) => Err(e),
    }
}

/// 128 to the power `k`.
pub open spec fn pow128(k: nat) -> nat
    decreases k,
{
    if k == 0 {
        1
    } else {
        128 * pow128((k - 1) as nat)
    }
}

/// Number of bytes `var_bytes(u)` occupies.
pub open spec fn var_len(u: nat) -> nat
    decreases u,
{
    if u < 128 {
        1
    } else {
        1 + var_len(u / 128)
    }
}

pub proof fn lemma_var_bytes_len(u: nat)
    ensures
        var_bytes(u).len() == var_len(u),
        var_len(u) >= 1,
    decreases u,
{
    if u >= 128 {
        lemma_var_bytes_len(u / 128);
    }
}

pub proof fn lemma_var_len_bound(u: nat, k: nat)
    requires
        u < pow128(k),
        k >= 1,
    ensures
        var_len(u) <= k,
    decreases k,
{
    if u >= 128 {
        let p = pow128((k - 1) as nat);
        if k == 1 {
            assert(pow128(1) == 128 * pow128(0));
        }
        assert(k >= 2);
        assert(u / 128 < p) by (nonlinear_arith)
            requires
                u < 128 * p,
        ;
        lemma_var_len_bound(u / 128, (k - 1) as nat);
    }
}

pub proof fn lemma_var_len_lower(u: nat, k: nat)
    requires
        k >= 1,
        u >= pow128((k - 1) as nat),
    ensures
        var_len(u) >= k,
    decreases k,
{
    lemma_var_bytes_len(u);
    if k >= 2 {
        let p = pow128((k - 2) as nat);
        assert(pow128((k - 1) as nat) == 128 * p);
        assert(u / 128 >= p) by (nonlinear_arith)
            requires
                u >= 128 * p,
        ;
        assert(p >= 1) by {
            lemma_pow128_positive((k - 2) as nat);
        }
        lemma_var_len_lower(u / 128, (k - 1) as nat);
    }
}

proof fn lemma_pow128_positive(k: nat)
    ensures
        pow128(k) >= 1,
    decreases k,
{
    if k > 0 {
        lemma_pow128_positive((k - 1) as nat);
    }
}

/// Reading back `var_bytes(u)` followed by anything yields `u` and consumes
/// exactly its bytes, when `u` fits in `k` groups.
pub proof fn lemma_var_round_trip(u: nat, k: nat, rest: Seq<u8>, short: ErrorClass)
    requires
        u < pow128(k),
        k >= 1,
    ensures
        var_value(var_bytes(u) + rest, k, short) == Ok::<(nat, nat), ErrorClass>(
            (u, var_len(u)),
        ),
    decreases u,
{
    let s = var_bytes(u) + rest;
    if u < 128 {
        assert(s[0] == u as u8);
    } else {
        let p = pow128((k - 1) as nat);
        if k == 1 {
            assert(pow128(1) == 128 * pow128(0));
        }
        assert(k >= 2);
        assert(u / 128 < p) by (nonlinear_arith)
            requires
                u < 128 * p,
        ;
        let t = var_bytes(u / 128) + rest;
        assert(s.skip(1) =~= t);
        lemma_var_round_trip(u / 128, (k - 1) as nat, rest, short);
        assert(s[0] == (u % 128 + 128) as u8);
        assert(u == u % 128 + 128 * (u / 128));
    }
}

pub proof fn lemma_pow128_facts()
    ensures
        pow128(5) == 0x8_0000_0000,
        pow128(10) == 0x40_0000_0000_0000_0000,
{
    assert(pow128(0) == 1);
    assert(pow128(1) == 128);
    assert(pow128(2) == 0x4000);
    assert(pow128(3) == 0x20_0000);
    assert(pow128(4) == 0x1000_0000);
    assert(pow128(5) == 0x8_0000_0000);
    assert(pow128(6) == 0x400_0000_0000);
    assert(pow128(7) == 0x2_0000_0000_0000);
    assert(pow128(8) == 0x100_0000_0000_0000);
    assert(pow128(9) == 0x8000_0000_0000_0000);
    assert(pow128(10) == 0x40_0000_0000_0000_0000);
}

pub proof fn lemma_varint_round_trip(v: i32, rest: Seq<u8>, short: ErrorClass)
    ensures
        p_varint(varint_bytes(v) + rest, short) == Ok::<(i32, Seq<u8>), ErrorClass>((v, rest)),
        varint_bytes(v).len() <= 5,
{
    let u = v as u32 as nat;
    lemma_pow128_facts();
    lemma_var_round_trip(u, 5, rest, short);
    lemma_var_bytes_len(u);
    lemma_var_len_bound(u, 5);
    assert((varint_bytes(v) + rest).skip(var_len(u) as int) =~= rest);
    assert(((v as u32) as i32) == v) by (bit_vector);
}

pub proof fn lemma_varlong_round_trip(v: i64, rest: Seq<u8>, short: ErrorClass)
    ensures
        p_varlong(varlong_bytes(v) + rest, short) == Ok::<(i64, Seq<u8>), ErrorClass>((v, rest)),
        varlong_bytes(v).len() <= 10,
{
    let u = v as u64 as nat;
    lemma_pow128_facts();
    lemma_var_round_trip(u, 10, rest, short);
    lemma_var_bytes_len(u);
    lemma_var_len_bound(u, 10);
    assert((varlong_bytes(v) + rest).skip(var_len(u) as int) =~= rest);
    assert(((v as u64) as i64) == v) by (bit_vector);
}

// ---------------------------------------------------------------------------
// Parsers of fixed-width values
// ---------------------------------------------------------------------------
/// Takes `n` bytes, or reports `short` when fewer remain.
pub open spec fn p_bytes(s: Seq<u8>, n: nat, short: ErrorClass) -> SpecParse<Seq<u8>> {
    if s.len() < n {
        Err(short)
    } else {
        Ok((s.take(n as int), s.skip(n as int)))
    }
}

pub open spec fn p_u8(s: Seq<u8>, short: ErrorClass) -> SpecParse<u8> {
    if s.len() < 1 {
        Err(short)
    } else {
        Ok((s[0], s.skip(1)))
    }
}

/// A boolean is one byte, `0` or `1`; any other value is `Invalid`.
pub open spec fn p_bool(s: Seq<u8>, short: ErrorClass) -> SpecParse<bool> {
    match p_u8(s, short) {
        Ok((b, r)) => if b == 0 {
            Ok((false, r))
        } else if b == 1 {
            Ok((true, r))
        } else {
            Err(ErrorClass::Invalid)
        },
        Err(e) => Err(e),
    }
}

pub open spec fn p_u16(s: Seq<u8>, short: ErrorClass) -> SpecParse<u16> {
    if s.len() < 2 {
        Err(short)
    } else {
        Ok((be_u16(s), s.skip(2)))
    }
}

pub open spec fn p_u32(s: Seq<u8>, short: ErrorClass) -> SpecParse<u32> {
    if s.len() < 4 {
        Err(short)
    } else {
        Ok((be_u32(s), s.skip(4)))
    }
}

pub open spec fn p_u64(s: Seq<u8>, short: ErrorClass) -> SpecParse<u64> {
    if s.len() < 8 {
        Err(short)
    } else {
        Ok((be_u64(s), s.skip(8)))
    }
}

pub open spec fn p_u128(s: Seq<u8>, short: ErrorClass) -> SpecParse<u128> {
    if s.len() < 16 {
        Err(short)
    } else {
        Ok((be_u128(s), s.skip(16)))
    }
}

pub open spec fn p_i8(s: Seq<u8>, short: ErrorClass) -> SpecParse<i8> {
    match p_u8(s, short) {
        Ok((v, r)) => Ok((v as i8, r)),
        Err(e) => Err(e),
    }
}

pub open spec fn p_i16(s: Seq<u8>, short: ErrorClass) -> SpecParse<i16> {
    match p_u16(s, short) {
        Ok((v, r)) => Ok((v as i16, r)),
        Err(e) => Err(e),
    }
}

pub open spec fn p_i32(s: Seq<u8>, short: ErrorClass) -> SpecParse<i32> {
    match p_u32(s, short) {
        Ok((v, r)) => Ok((v as i32, r)),
        Err(e) => Err(e),
    }
}

pub open spec fn p_i64(s: Seq<u8>, short: ErrorClass) -> SpecParse<i64> {
    match p_u64(s, short) {
        Ok((v, r)) => Ok((v as i64, r)),
        Err(e) => Err(e),
    }
}

pub open spec fn i8_bytes(v: i8) -> Seq<u8> {
    seq![v as u8]
}

pub open spec fn i16_bytes(v: i16) -> Seq<u8> {
    u16_bytes(v as u16)
}

pub open spec fn i32_bytes(v: i32) -> Seq<u8> {
    u32_bytes(v as u32)
}

pub open spec fn i64_bytes(v: i64) -> Seq<u8> {
    u64_bytes(v as u64)
}

pub open spec fn bool_bytes(b: bool) -> Seq<u8> {
    seq![if b { 1u8 } else { 0u8 }]
}

// ---------------------------------------------------------------------------
// Strings and byte arrays
// ---------------------------------------------------------------------------
/// Parses a `VarInt`-prefixed UTF-8 string of at most `max` characters.
///
/// The byte length may not be negative (`Invalid`) nor exceed four bytes per
/// allowed character (`TooLarge`); the bytes must be valid UTF-8 (`Invalid`)
/// and hold at most `max` characters (`TooLarge`). Missing bytes report
/// `short`.
pub open spec fn p_string(s: Seq<u8>, max: nat, short: ErrorClass) -> SpecParse<Seq<char>> {
    match p_varint(s, short) {
        Err(e) => Err(e),
        Ok((len, r)) => if len < 0 {
            Err(ErrorClass::Invalid)
        } else if len > max * 4 {
            Err(ErrorClass::TooLarge)
        } else if r.len() < len {
            Err(short)
        } else if !valid_utf8(r.take(len as int)) {
            Err(ErrorClass::Invalid)
        } else if decode_utf8(r.take(len as int)).len() > max {
            Err(ErrorClass::TooLarge)
        } else {
            Ok((decode_utf8(r.take(len as int)), r.skip(len as int)))
        },
    }
}

/// The wire bytes of a string: `VarInt` byte length, then UTF-8.
/// Strings of more than 32767 characters are `TooLarge`.
pub open spec fn string_bytes(s: Seq<char>) -> Result<Seq<u8>, ErrorClass> {
    if s.len() > MAX_STRING_CHARS {
        Err(ErrorClass::TooLarge)
    } else {
        Ok(varint_bytes(encode_utf8(s).len() as i32) + encode_utf8(s))
    }
}

/// Parses a `VarInt`-prefixed byte array; negative lengths are `Invalid`.
pub open spec fn p_byte_array(s: Seq<u8>, short: ErrorClass) -> SpecParse<Seq<u8>> {
    match p_varint(s, short) {
        Err(e) => Err(e),
        Ok((len, r)) => if len < 0 {
            Err(ErrorClass::Invalid)
        } else if r.len() < len {
            Err(short)
        } else {
            Ok((r.take(len as int), r.skip(len as int)))
        },
    }
}

/// Parses a `VarInt`-prefixed byte array of at most `max` bytes.
pub open spec fn p_byte_array_max(s: Seq<u8>, max: nat, short: ErrorClass) -> SpecParse<
    Seq<u8>,
> {
    match p_varint(s, short) {
        Err(e) => Err(e),
        Ok((len, r)) => if len < 0 {
            Err(ErrorClass::Invalid)
        } else if len > max {
            Err(ErrorClass::TooLarge)
        } else if r.len() < len {
            Err(short)
        } else {
            Ok((r.take(len as int), r.skip(len as int)))
        },
    }
}

/// The wire bytes of a byte array: `VarInt` length, then the bytes.
pub open spec fn byte_array_bytes(b: Seq<u8>) -> Seq<u8> {
    varint_bytes(b.len() as i32) + b
}

proof fn lemma_encode_scalar_len(c: char)
    ensures
        1 <= encode_scalar(c as u32).len() <= 4,
{
}

/// UTF-8 needs at most four bytes per character.
pub proof fn lemma_utf8_len(s: Seq<char>)
    ensures
        s.len() <= encode_utf8(s).len() <= 4 * s.len(),
    decreases s.len(),
{
    if s.len() > 0 {
        lemma_encode_scalar_len(s[0]);
        lemma_utf8_len(s.drop_first());
    }
}

/// A string that fits the protocol limit reads back unchanged.
pub proof fn lemma_string_round_trip(s: Seq<char>, rest: Seq<u8>, max: nat, short: ErrorClass)
    requires
        s.len() <= max,
        s.len() <= MAX_STRING_CHARS,
    ensures
        string_bytes(s) is Ok,
        p_string(string_bytes(s).unwrap() + rest, max, short) == Ok::<
            (Seq<char>, Seq<u8>),
            ErrorClass,
        >((s, rest)),
{
    let b = encode_utf8(s);
    lemma_utf8_len(s);
    let len = b.len() as i32;
    assert(len as int == b.len());
    let all = string_bytes(s).unwrap() + rest;
    assert(all =~= varint_bytes(len) + (b + rest));
    lemma_varint_round_trip(len, b + rest, short);
    assert((b + rest).take(len as int) =~= b);
    assert((b + rest).skip(len as int) =~= rest);
    encode_utf8_valid_utf8(s);
    encode_utf8_decode_utf8(s);
}

/// A byte array shorter than `2^31` bytes reads back unchanged.
pub proof fn lemma_byte_array_round_trip(b: Seq<u8>, rest: Seq<u8>, short: ErrorClass)
    requires
        b.len() <= i32::MAX,
    ensures
        p_byte_array(byte_array_bytes(b) + rest, short) == Ok::<(Seq<u8>, Seq<u8>), ErrorClass>(
            (b, rest),
        ),
        forall|max: nat|
            b.len() <= max ==> #[trigger] p_byte_array_max(byte_array_bytes(b) + rest, max, short)
                == Ok::<(Seq<u8>, Seq<u8>), ErrorClass>((b, rest)),
{
    let len = b.len() as i32;
    let all = byte_array_bytes(b) + rest;
    assert(all =~= varint_bytes(len) + (b + rest));
    lemma_varint_round_trip(len, b + rest, short);
    assert((b + rest).take(len as int) =~= b);
    assert((b + rest).skip(len as int) =~= rest);
}

/// A big-endian `u16` followed by anything reads back, whatever `short` is.
pub proof fn lemma_p_u16_round_trip(v: u16, rest: Seq<u8>, short: ErrorClass)
    ensures
        p_u16(u16_bytes(v) + rest, short) == Ok::<(u16, Seq<u8>), ErrorClass>((v, rest)),
{
    lemma_u16_round_trip(v);
    let all = u16_bytes(v) + rest;
    assert(all.skip(2) =~= rest);
    assert(be_u16(all) == be_u16(u16_bytes(v)));
}

/// A big-endian `u32` followed by anything reads back, whatever `short` is.
pub proof fn lemma_p_u32_round_trip(v: u32, rest: Seq<u8>, short: ErrorClass)
    ensures
        p_u32(u32_bytes(v) + rest, short) == Ok::<(u32, Seq<u8>), ErrorClass>((v, rest)),
{
    lemma_u32_round_trip(v);
    let all = u32_bytes(v) + rest;
    assert(all.skip(4) =~= rest);
    assert(be_u32(all) == be_u32(u32_bytes(v)));
}

proof fn lemma_be_u64_prefix(b: Seq<u8>, rest: Seq<u8>)
    requires
        b.len() >= 8,
    ensures
        be_u64(b + rest) == be_u64(b),
{
    let all = b + rest;
    assert(be_u32(all) == be_u32(b));
    assert(be_u32(all.skip(4)) == be_u32(b.skip(4)));
}

/// A big-endian `u64` followed by anything reads back, whatever `short` is.
pub proof fn lemma_p_u64_round_trip(v: u64, rest: Seq<u8>, short: ErrorClass)
    ensures
        p_u64(u64_bytes(v) + rest, short) == Ok::<(u64, Seq<u8>), ErrorClass>((v, rest)),
{
    lemma_u64_round_trip(v);
    let all = u64_bytes(v) + rest;
    assert(all.skip(8) =~= rest);
    lemma_be_u64_prefix(u64_bytes(v), rest);
}

/// A big-endian `u128` followed by anything reads back, whatever `short` is.
pub proof fn lemma_p_u128_round_trip(v: u128, rest: Seq<u8>, short: ErrorClass)
    ensures
        p_u128(u128_bytes(v) + rest, short) == Ok::<(u128, Seq<u8>), ErrorClass>((v, rest)),
{
    lemma_u128_round_trip(v);
    let b = u128_bytes(v);
    let all = b + rest;
    assert(all.skip(16) =~= rest);
    lemma_be_u64_prefix(b, rest);
    assert(all.skip(8) =~= b.skip(8) + rest);
    lemma_be_u64_prefix(b.skip(8), rest);
    assert(be_u64(all) == be_u64(b));
}

/// `i32`, `i64`, `i16` and `i8` values read back through their unsigned bits.
pub proof fn lemma_p_signed_round_trips(a: i8, b: i16, c: i32, d: i64, rest: Seq<u8>, short: ErrorClass)
    ensures
        p_i8(i8_bytes(a) + rest, short) == Ok::<(i8, Seq<u8>), ErrorClass>((a, rest)),
        p_i16(i16_bytes(b) + rest, short) == Ok::<(i16, Seq<u8>), ErrorClass>((b, rest)),
        p_i32(i32_bytes(c) + rest, short) == Ok::<(i32, Seq<u8>), ErrorClass>((c, rest)),
        p_i64(i64_bytes(d) + rest, short) == Ok::<(i64, Seq<u8>), ErrorClass>((d, rest)),
{
    assert((i8_bytes(a) + rest).skip(1) =~= rest);
    assert((a as u8) as i8 == a) by (bit_vector);
    lemma_p_u16_round_trip(b as u16, rest, short);
    assert((b as u16) as i16 == b) by (bit_vector);
    lemma_p_u32_round_trip(c as u32, rest, short);
    assert((c as u32) as i32 == c) by (bit_vector);
    lemma_p_u64_round_trip(d as u64, rest, short);
    assert((d as u64) as i64 == d) by (bit_vector);
}

/// Single bytes and booleans read back, whatever `short` is.
pub proof fn lemma_p_byte_round_trips(v: u8, b: bool, rest: Seq<u8>, short: ErrorClass)
    ensures
        p_u8(seq![v] + rest, short) == Ok::<(u8, Seq<u8>), ErrorClass>((v, rest)),
        p_bool(bool_bytes(b) + rest, short) == Ok::<(bool, Seq<u8>), ErrorClass>((b, rest)),
{
    assert((seq![v] + rest).skip(1) =~= rest);
    assert((bool_bytes(b) + rest).skip(1) =~= rest);
}

} // verus!
