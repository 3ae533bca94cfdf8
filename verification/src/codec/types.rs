//! Encode/Decode implementations for Minecraft primitive types.
//!
//! All numeric types use big-endian byte order (Minecraft standard).
//! Strings are `VarInt`-prefixed UTF-8. UUIDs travel as `u128` big-endian.

use vstd::prelude::*;
use vstd::utf8::*;

use super::raw::{
    var_consumed, push_all, read_u128, read_u16, read_u32, read_u64, read_u8, short_class, write_u128,
    write_u16, write_u32, write_u64,
};
use super::spec::{
    bool_bytes, byte_array_bytes, i16_bytes, i32_bytes, i64_bytes, i8_bytes, p_bool, p_byte_array, p_byte_array_max,
    p_i16, p_i32, p_i64, p_i8, p_string, p_u128, p_u16, p_u32, p_u64, p_u8, p_varint, p_varlong,
    lemma_byte_array_round_trip, lemma_p_signed_round_trips, lemma_p_u128_round_trip,
    lemma_p_u16_round_trip, lemma_p_u32_round_trip, lemma_p_u64_round_trip, lemma_string_round_trip,
    lemma_varint_round_trip, lemma_varlong_round_trip, parsed, string_bytes, u128_bytes, u16_bytes, u32_bytes, u64_bytes, varint_bytes,
    varlong_bytes, written, SpecParse, MAX_STRING_CHARS,
};
use super::varint::VarInt;
use super::varlong::VarLong;
use super::{Decode, Encode};
use crate::error::{ErrorClass, ProtocolError, ProtocolResult};

verus! {

/// `std::str::from_utf8`, turned into an owned string: `Some` exactly when
/// the bytes are valid UTF-8, holding the characters they encode.
#[verifier::external_body]
fn utf8_string(bytes: &[u8]) -> (res: Option<String>)
    ensures
        res is Some <==> valid_utf8(bytes@),
        res matches Some(s) ==> s@ == decode_utf8(bytes@),
{
    match std::str::from_utf8(bytes) {
        Ok(s) => Some(s.to_string()),
        Err(_) => None,
    }
}

/// The text of UTF-8 bytes: `Some` exactly when they are valid UTF-8.
pub fn utf8_text(bytes: &[u8]) -> (res: Option<String>)
    ensures
        res is Some <==> valid_utf8(bytes@),
        res matches Some(s) ==> s@ == decode_utf8(bytes@),
{
    utf8_string(bytes)
}

impl Encode for bool {
    open spec fn encoding(&self) -> Result<Seq<u8>, ErrorClass> {
        Ok(bool_bytes(*self))
    }

    fn encode(&self, w: &mut Vec<u8>) -> (res: ProtocolResult<()>) {
        w.push(if *self { 1u8 } else { 0u8 });
        assert(w@ =~= old(w)@ + bool_bytes(*self));
        Ok(())
    }
}

impl Decode for bool {
    open spec fn parse(s: Seq<u8>) -> SpecParse<bool> {
        p_bool(s, ErrorClass::Incomplete)
    }

    fn decode(r: &mut &[u8]) -> (res: ProtocolResult<bool>) {
        match read_u8(r, false, "u8") {
            Err(e) => Err(e),
            Ok(0u8) => Ok(false),
            Ok(1u8) => Ok(true),
            Ok(_) => Err(ProtocolError::invalid("bool value must be 0 or 1")),
        }
    }
}

impl Encode for u8 {
    open spec fn encoding(&self) -> Result<Seq<u8>, ErrorClass> {
        Ok(seq![*self])
    }

    fn encode(&self, w: &mut Vec<u8>) -> (res: ProtocolResult<()>) {
        w.push(*self);
        assert(w@ =~= old(w)@ + seq![*self]);
        Ok(())
    }
}

impl Decode for u8 {
    open spec fn parse(s: Seq<u8>) -> SpecParse<u8> {
        p_u8(s, ErrorClass::Incomplete)
    }

    fn decode(r: &mut &[u8]) -> (res: ProtocolResult<u8>) {
        read_u8(r, false, "u8")
    }
}

impl Encode for i8 {
    open spec fn encoding(&self) -> Result<Seq<u8>, ErrorClass> {
        Ok(i8_bytes(*self))
    }

    fn encode(&self, w: &mut Vec<u8>) -> (res: ProtocolResult<()>) {
        w.push(*self as u8);
        assert(w@ =~= old(w)@ + i8_bytes(*self));
        Ok(())
    }
}

impl Decode for i8 {
    open spec fn parse(s: Seq<u8>) -> SpecParse<i8> {
        p_i8(s, ErrorClass::Incomplete)
    }

    fn decode(r: &mut &[u8]) -> (res: ProtocolResult<i8>) {
        match read_u8(r, false, "u8") {
            Ok(b) => Ok(b as i8),
            Err(e) => Err(e),
        }
    }
}

impl Encode for u16 {
    open spec fn encoding(&self) -> Result<Seq<u8>, ErrorClass> {
        Ok(u16_bytes(*self))
    }

    fn encode(&self, w: &mut Vec<u8>) -> (res: ProtocolResult<()>) {
        write_u16(w, *self);
        Ok(())
    }
}

impl Decode for u16 {
    open spec fn parse(s: Seq<u8>) -> SpecParse<u16> {
        p_u16(s, ErrorClass::Incomplete)
    }

    fn decode(r: &mut &[u8]) -> (res: ProtocolResult<u16>) {
        read_u16(r, false, "u16")
    }
}

impl Encode for i16 {
    open spec fn encoding(&self) -> Result<Seq<u8>, ErrorClass> {
        Ok(i16_bytes(*self))
    }

    fn encode(&self, w: &mut Vec<u8>) -> (res: ProtocolResult<()>) {
        write_u16(w, *self as u16);
        Ok(())
    }
}

impl Decode for i16 {
    open spec fn parse(s: Seq<u8>) -> SpecParse<i16> {
        p_i16(s, ErrorClass::Incomplete)
    }

    fn decode(r: &mut &[u8]) -> (res: ProtocolResult<i16>) {
        match read_u16(r, false, "i16") {
            Ok(v) => Ok(v as i16),
            Err(e) => Err(e),
        }
    }
}

impl Encode for u32 {
    open spec fn encoding(&self) -> Result<Seq<u8>, ErrorClass> {
        Ok(u32_bytes(*self))
    }

    fn encode(&self, w: &mut Vec<u8>) -> (res: ProtocolResult<()>) {
        write_u32(w, *self);
        Ok(())
    }
}

impl Decode for u32 {
    open spec fn parse(s: Seq<u8>) -> SpecParse<u32> {
        p_u32(s, ErrorClass::Incomplete)
    }

    fn decode(r: &mut &[u8]) -> (res: ProtocolResult<u32>) {
        read_u32(r, false, "u32")
    }
}

impl Encode for i32 {
    open spec fn encoding(&self) -> Result<Seq<u8>, ErrorClass> {
        Ok(i32_bytes(*self))
    }

    fn encode(&self, w: &mut Vec<u8>) -> (res: ProtocolResult<()>) {
        write_u32(w, *self as u32);
        Ok(())
    }
}

impl Decode for i32 {
    open spec fn parse(s: Seq<u8>) -> SpecParse<i32> {
        p_i32(s, ErrorClass::Incomplete)
    }

    fn decode(r: &mut &[u8]) -> (res: ProtocolResult<i32>) {
        match read_u32(r, false, "i32") {
            Ok(v) => Ok(v as i32),
            Err(e) => Err(e),
        }
    }
}

impl Encode for u64 {
    open spec fn encoding(&self) -> Result<Seq<u8>, ErrorClass> {
        Ok(u64_bytes(*self))
    }

    fn encode(&self, w: &mut Vec<u8>) -> (res: ProtocolResult<()>) {
        write_u64(w, *self);
        Ok(())
    }
}

impl Decode for u64 {
    open spec fn parse(s: Seq<u8>) -> SpecParse<u64> {
        p_u64(s, ErrorClass::Incomplete)
    }

    fn decode(r: &mut &[u8]) -> (res: ProtocolResult<u64>) {
        read_u64(r, false, "u64")
    }
}

impl Encode for i64 {
    open spec fn encoding(&self) -> Result<Seq<u8>, ErrorClass> {
        Ok(i64_bytes(*self))
    }

    fn encode(&self, w: &mut Vec<u8>) -> (res: ProtocolResult<()>) {
        write_u64(w, *self as u64);
        Ok(())
    }
}

impl Decode for i64 {
    open spec fn parse(s: Seq<u8>) -> SpecParse<i64> {
        p_i64(s, ErrorClass::Incomplete)
    }

    fn decode(r: &mut &[u8]) -> (res: ProtocolResult<i64>) {
        match read_u64(r, false, "i64") {
            Ok(v) => Ok(v as i64),
            Err(e) => Err(e),
        }
    }
}

impl Encode for u128 {
    open spec fn encoding(&self) -> Result<Seq<u8>, ErrorClass> {
        Ok(u128_bytes(*self))
    }

    fn encode(&self, w: &mut Vec<u8>) -> (res: ProtocolResult<()>) {
        write_u128(w, *self);
        Ok(())
    }
}

impl Decode for u128 {
    open spec fn parse(s: Seq<u8>) -> SpecParse<u128> {
        p_u128(s, ErrorClass::Incomplete)
    }

    fn decode(r: &mut &[u8]) -> (res: ProtocolResult<u128>) {
        read_u128(r, false, "u128")
    }
}

impl Encode for VarInt {
    open spec fn encoding(&self) -> Result<Seq<u8>, ErrorClass> {
        Ok(varint_bytes(self.0))
    }

    fn encode(&self, w: &mut Vec<u8>) -> (res: ProtocolResult<()>) {
        VarInt::encode(self, w)
    }
}

impl Decode for VarInt {
    open spec fn parse(s: Seq<u8>) -> SpecParse<i32> {
        p_varint(s, ErrorClass::Incomplete)
    }

    fn decode(r: &mut &[u8]) -> (res: ProtocolResult<VarInt>) {
        VarInt::decode(r)
    }
}

impl Encode for VarLong {
    open spec fn encoding(&self) -> Result<Seq<u8>, ErrorClass> {
        Ok(varlong_bytes(self.0))
    }

    fn encode(&self, w: &mut Vec<u8>) -> (res: ProtocolResult<()>) {
        VarLong::encode(self, w)
    }
}

impl Decode for VarLong {
    open spec fn parse(s: Seq<u8>) -> SpecParse<i64> {
        p_varlong(s, ErrorClass::Incomplete)
    }

    fn decode(r: &mut &[u8]) -> (res: ProtocolResult<VarLong>) {
        VarLong::decode(r)
    }
}

/// Encodes a string with a `VarInt` byte-length prefix; more than 32767
/// characters is `TooLarge`.
pub fn encode_string(s: &str, w: &mut Vec<u8>) -> (res: ProtocolResult<()>)
    ensures
        written(string_bytes(s@), res, old(w)@, final(w)@),
{
    let char_len = s.unicode_len();
    if char_len > MAX_STRING_CHARS {
        return Err(ProtocolError::too_large(MAX_STRING_CHARS, char_len));
    }
    let bytes = s.as_bytes();
    VarInt(bytes.len() as i32).encode(w);
    push_all(w, bytes);
    assert(w@ =~= old(w)@ + string_bytes(s@).unwrap());
    Ok(())
}

/// How reading a string from `s` failed with `e`, leaving `rest`: a bad
/// length prefix is left as far as it was read; any later failure leaves
/// the reader just after the prefix. A byte length over `4 * max` is
/// `TooLarge` with that limit and the length; valid UTF-8 of more than `max`
/// characters is `TooLarge` with `max` and the character count.
pub open spec fn string_failure(s: Seq<u8>, max: nat, short: ErrorClass, e: ProtocolError, rest: Seq<u8>) -> bool {
    match p_varint(s, short) {
        Err(_) => rest == s.skip(var_consumed(s, 5)),
        Ok((len, r)) => {
            &&& rest == r
            &&& (len >= 0 && len > max * 4 ==> e == (ProtocolError::TooLarge {
                max: (max * 4) as usize,
                actual: len as usize,
            }))
            &&& (0 <= len <= max * 4 && r.len() >= len && valid_utf8(r.take(len as int)) ==> e == (
            ProtocolError::TooLarge { max: max as usize, actual: decode_utf8(r.take(len as int)).len() as usize }))
        },
    }
}

/// Decodes a `VarInt`-prefixed UTF-8 string of at most `max_chars` characters.
pub fn decode_string(r: &mut &[u8], max_chars: usize) -> (res: ProtocolResult<String>)
    requires
        max_chars <= usize::MAX / 4,
    ensures
        parsed(p_string(old(r)@, max_chars as nat, ErrorClass::Incomplete), res, final(r)@),
        res matches Err(e) ==> string_failure(old(r)@, max_chars as nat, ErrorClass::Incomplete, e, final(r)@),
{
    read_string(r, max_chars, false)
}

/// Reads a `VarInt`-prefixed UTF-8 string of at most `max_chars` characters;
/// a shortage is reported as `short_class(at_eof)`.
pub fn read_string(r: &mut &[u8], max_chars: usize, at_eof: bool) -> (res: ProtocolResult<String>)
    requires
        max_chars <= usize::MAX / 4,
    ensures
        parsed(p_string(old(r)@, max_chars as nat, short_class(at_eof)), res, final(r)@),
        res matches Err(e) ==> string_failure(old(r)@, max_chars as nat, short_class(at_eof), e, final(r)@),
{
    let raw_len = match VarInt::read(r, at_eof) {
        Ok(v) => v.0,
        Err(e) => return Err(e),
    };
    if raw_len < 0 {
        return Err(ProtocolError::invalid("negative length"));
    }
    let byte_len = raw_len as usize;
    let max_bytes = max_chars * 4;
    if byte_len > max_bytes {
        return Err(ProtocolError::too_large(max_bytes, byte_len));
    }
    if r.len() < byte_len {
        return Err(super::raw::short_error(at_eof, "String data"));
    }
    let (data, rest) = r.split_at(byte_len);
    assert(data@ =~= r@.take(byte_len as int));
    assert(rest@ =~= r@.skip(byte_len as int));
    let s = match utf8_string(data) {
        Some(s) => s,
        None => return Err(ProtocolError::invalid("invalid UTF-8 in string")),
    };
    let count = s.as_str().unicode_len();
    if count > max_chars {
        return Err(ProtocolError::too_large(max_chars, count));
    }
    *r = rest;
    Ok(s)
}

impl Encode for String {
    open spec fn encoding(&self) -> Result<Seq<u8>, ErrorClass> {
        string_bytes(self@)
    }

    fn encode(&self, w: &mut Vec<u8>) -> (res: ProtocolResult<()>) {
        encode_string(self.as_str(), w)
    }
}

impl Decode for String {
    open spec fn parse(s: Seq<u8>) -> SpecParse<Seq<char>> {
        p_string(s, MAX_STRING_CHARS as nat, ErrorClass::Incomplete)
    }

    fn decode(r: &mut &[u8]) -> (res: ProtocolResult<String>) {
        decode_string(r, MAX_STRING_CHARS)
    }
}

/// Appends a `VarInt` length prefix and then the bytes of `data`.
pub fn encode_byte_array(data: &[u8], w: &mut Vec<u8>)
    ensures
        final(w)@ == old(w)@ + byte_array_bytes(data@),
{
    VarInt(data.len() as i32).encode(w);
    push_all(w, data);
    assert(w@ =~= old(w)@ + byte_array_bytes(data@));
}

/// Decodes a `VarInt`-prefixed byte array.
pub fn decode_byte_array(r: &mut &[u8], at_eof: bool) -> (res: ProtocolResult<Vec<u8>>)
    ensures
        parsed(p_byte_array(old(r)@, short_class(at_eof)), res, final(r)@),
{
    let raw_len = match VarInt::read(r, at_eof) {
        Ok(v) => v.0,
        Err(e) => return Err(e),
    };
    if raw_len < 0 {
        return Err(ProtocolError::invalid("negative length"));
    }
    super::raw::read_exact(r, raw_len as usize, at_eof, "byte array")
}

/// Reads a `VarInt`-prefixed byte array of at most `max_len` bytes.
pub fn read_byte_array_max(r: &mut &[u8], max_len: usize, at_eof: bool) -> (res: ProtocolResult<
    Vec<u8>,
>)
    ensures
        parsed(p_byte_array_max(old(r)@, max_len as nat, short_class(at_eof)), res, final(r)@),
{
    let raw_len = match VarInt::read(r, at_eof) {
        Ok(v) => v.0,
        Err(e) => return Err(e),
    };
    if raw_len < 0 {
        return Err(ProtocolError::invalid("negative length"));
    }
    let len = raw_len as usize;
    if len > max_len {
        return Err(ProtocolError::too_large(max_len, len));
    }
    super::raw::read_exact(r, len, at_eof, "byte array")
}

/// Reads all remaining bytes.
pub fn read_remaining(r: &mut &[u8]) -> (v: Vec<u8>)
    ensures
        v@ == old(r)@,
        final(r)@ == Seq::<u8>::empty(),
{
    let mut v: Vec<u8> = Vec::new();
    push_all(&mut v, r);
    let (_, rest) = r.split_at(r.len());
    *r = rest;
    assert(rest@ =~= Seq::<u8>::empty());
    v
}

impl Encode for Vec<u8> {
    open spec fn encoding(&self) -> Result<Seq<u8>, ErrorClass> {
        Ok(byte_array_bytes(self@))
    }

    fn encode(&self, w: &mut Vec<u8>) -> (res: ProtocolResult<()>) {
        encode_byte_array(self.as_slice(), w);
        Ok(())
    }
}

impl Decode for Vec<u8> {
    open spec fn parse(s: Seq<u8>) -> SpecParse<Seq<u8>> {
        p_byte_array(s, ErrorClass::Incomplete)
    }

    fn decode(r: &mut &[u8]) -> (res: ProtocolResult<Vec<u8>>) {
        decode_byte_array(r, false)
    }
}

impl<T: Encode> Encode for Option<T> {
    open spec fn encoding(&self) -> Result<Seq<u8>, ErrorClass> {
        match self {
            Some(v) => match v.encoding() {
                Ok(b) => Ok(bool_bytes(true) + b),
                Err(e) => Err(e),
            },
            None => Ok(bool_bytes(false)),
        }
    }

    fn encode(&self, w: &mut Vec<u8>) -> (res: ProtocolResult<()>) {
        match self {
            Some(val) => {
                true.encode(w);
                let ghost mid = w@;
                assert(mid == old(w)@ + bool_bytes(true));
                match val.encode(w) {
                    Ok(()) => {
                        let ghost b = val.encoding().unwrap();
                        assert(w@ == mid + b);
                        assert(w@ =~= old(w)@ + (bool_bytes(true) + b));
                        Ok(())
                    },
                    Err(e) => Err(e),
                }
            },
            None => {
                false.encode(w);
                Ok(())
            },
        }
    }
}

impl<T: Decode> Decode for Option<T> {
    open spec fn parse(s: Seq<u8>) -> SpecParse<Option<<T as DeepView>::V>> {
        match p_bool(s, ErrorClass::Incomplete) {
            Err(e) => Err(e),
            Ok((present, r)) => if present {
                match T::parse(r) {
                    Ok((v, rest)) => Ok((Some(v), rest)),
                    Err(e) => Err(e),
                }
            } else {
                Ok((None, r))
            },
        }
    }

    fn decode(r: &mut &[u8]) -> (res: ProtocolResult<Option<T>>) {
        let present = match bool::decode(r) {
            Ok(b) => b,
            Err(e) => return Err(e),
        };
        if present {
            match T::decode(r) {
                Ok(v) => Ok(Some(v)),
                Err(e) => Err(e),
            }
        } else {
            Ok(None)
        }
    }
}

/// `v` encodes successfully, and decoding its bytes followed by `rest`
/// yields `v` back and leaves exactly `rest`.
pub open spec fn round_trips<T: Encode + Decode>(v: T, rest: Seq<u8>) -> bool {
    &&& v.encoding() is Ok
    &&& T::parse(v.encoding().unwrap() + rest) == Ok::<(<T as DeepView>::V, Seq<u8>), ErrorClass>(
        (v.deep_view(), rest),
    )
}

/// A boolean reads back as written.
pub proof fn law_bool_round_trip(v: bool, rest: Seq<u8>)
    ensures
        round_trips(v, rest),
{
    assert((bool_bytes(v) + rest).skip(1) =~= rest);
}

/// A byte reads back as written.
pub proof fn law_u8_round_trip(v: u8, rest: Seq<u8>)
    ensures
        round_trips(v, rest),
{
    assert((seq![v] + rest).skip(1) =~= rest);
}

/// A signed byte reads back as written.
pub proof fn law_i8_round_trip(v: i8, rest: Seq<u8>)
    ensures
        round_trips(v, rest),
{
    assert((i8_bytes(v) + rest).skip(1) =~= rest);
    assert((v as u8) as i8 == v) by (bit_vector);
}

/// A big-endian `u16` reads back as written.
pub proof fn law_u16_round_trip(v: u16, rest: Seq<u8>)
    ensures
        round_trips(v, rest),
{
    lemma_p_u16_round_trip(v, rest, ErrorClass::Incomplete);
}

/// A big-endian `i16` reads back as written.
pub proof fn law_i16_round_trip(v: i16, rest: Seq<u8>)
    ensures
        round_trips(v, rest),
{
    lemma_p_signed_round_trips(0, v, 0, 0, rest, ErrorClass::Incomplete);
}

/// A big-endian `u32` reads back as written.
pub proof fn law_u32_round_trip(v: u32, rest: Seq<u8>)
    ensures
        round_trips(v, rest),
{
    lemma_p_u32_round_trip(v, rest, ErrorClass::Incomplete);
}

/// A big-endian `i32` reads back as written.
pub proof fn law_i32_round_trip(v: i32, rest: Seq<u8>)
    ensures
        round_trips(v, rest),
{
    lemma_p_signed_round_trips(0, 0, v, 0, rest, ErrorClass::Incomplete);
}

/// A big-endian `u64` reads back as written.
pub proof fn law_u64_round_trip(v: u64, rest: Seq<u8>)
    ensures
        round_trips(v, rest),
{
    lemma_p_u64_round_trip(v, rest, ErrorClass::Incomplete);
}

/// A big-endian `i64` reads back as written.
pub proof fn law_i64_round_trip(v: i64, rest: Seq<u8>)
    ensures
        round_trips(v, rest),
{
    lemma_p_signed_round_trips(0, 0, 0, v, rest, ErrorClass::Incomplete);
}

/// A big-endian `u128` (a UUID on the wire) reads back as written.
pub proof fn law_u128_round_trip(v: u128, rest: Seq<u8>)
    ensures
        round_trips(v, rest),
{
    lemma_p_u128_round_trip(v, rest, ErrorClass::Incomplete);
}

/// A `VarInt` reads back as written.
pub proof fn law_varint_round_trip(v: VarInt, rest: Seq<u8>)
    ensures
        round_trips(v, rest),
{
    lemma_varint_round_trip(v.0, rest, ErrorClass::Incomplete);
}

/// A `VarLong` reads back as written.
pub proof fn law_varlong_round_trip(v: VarLong, rest: Seq<u8>)
    ensures
        round_trips(v, rest),
{
    lemma_varlong_round_trip(v.0, rest, ErrorClass::Incomplete);
}

/// A string of at most 32767 characters reads back as written; a longer one
/// is refused as `TooLarge`.
pub proof fn law_string_round_trip(v: String, rest: Seq<u8>)
    ensures
        v@.len() <= MAX_STRING_CHARS ==> round_trips(v, rest),
        v@.len() > MAX_STRING_CHARS ==> v.encoding() == Err::<Seq<u8>, ErrorClass>(
            ErrorClass::TooLarge,
        ),
{
    if v@.len() <= MAX_STRING_CHARS {
        lemma_string_round_trip(v@, rest, MAX_STRING_CHARS as nat, ErrorClass::Incomplete);
    }
}

/// A byte array shorter than `2^31` bytes reads back as written.
pub proof fn law_byte_array_round_trip(v: Vec<u8>, rest: Seq<u8>)
    requires
        v@.len() <= i32::MAX,
    ensures
        round_trips(v, rest),
{
    lemma_byte_array_round_trip(v@, rest, ErrorClass::Incomplete);
    assert(v.deep_view() =~= v@);
}

/// An optional value reads back as written whenever its content does.
pub proof fn law_option_round_trip<T: Encode + Decode>(v: Option<T>, rest: Seq<u8>)
    requires
        v matches Some(x) ==> round_trips(x, rest),
    ensures
        round_trips(v, rest),
{
    match v {
        Some(x) => {
            let b = x.encoding().unwrap();
            assert((bool_bytes(true) + b + rest).skip(1) =~= b + rest);
            assert(bool_bytes(true) + b + rest =~= (bool_bytes(true) + b) + rest);
        },
        None => {
            assert((bool_bytes(false) + rest).skip(1) =~= rest);
        },
    }
}

} // verus!
