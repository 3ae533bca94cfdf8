//! UTF-16 Big-Endian text, the string format of the legacy protocol.

use vstd::prelude::*;
use vstd::utf8::*;

use crate::codec::spec::u16_bytes;
use crate::error::{ProtocolError, ProtocolResult};

verus! {

broadcast use char_u32_cast, char_is_scalar;

/// The UTF-16 code units of one character: the scalar itself below
/// `0x10000`, a surrogate pair above.
pub open spec fn char_units(c: char) -> Seq<u16> {
    let v = c as u32;
    if v < 0x10000 {
        seq![v as u16]
    } else {
        let w = (v - 0x10000) as u32;
        seq![(0xD800u32 + (w >> 10u32)) as u16, (0xDC00u32 + (w & 0x3FFu32)) as u16]
    }
}

/// The UTF-16 code units of a string.
pub open spec fn utf16_units(s: Seq<char>) -> Seq<u16>
    decreases s.len(),
{
    if s.len() == 0 {
        seq![]
    } else {
        utf16_units(s.drop_last()) + char_units(s.last())
    }
}

/// The scalar a surrogate pair stands for.
pub open spec fn pair_value(hi: u16, lo: u16) -> u32 {
    (0x10000u32 + ((((hi - 0xD800) as u32) << 10u32) | ((lo - 0xDC00) as u32))) as u32
}

pub open spec fn is_surrogate(u: u16) -> bool {
    0xD800 <= u <= 0xDFFF
}

/// Decodes UTF-16 code units: `None` when a surrogate is unpaired.
pub open spec fn utf16_decode(u: Seq<u16>) -> Option<Seq<char>>
    decreases u.len(),
{
    if u.len() == 0 {
        Some(seq![])
    } else if !is_surrogate(u[0]) {
        match utf16_decode(u.skip(1)) {
            Some(r) => Some(seq![(u[0] as u32) as char] + r),
            None => None,
        }
    } else if u[0] <= 0xDBFF && u.len() >= 2 && 0xDC00 <= u[1] <= 0xDFFF {
        match utf16_decode(u.skip(2)) {
            Some(r) => Some(seq![pair_value(u[0], u[1]) as char] + r),
            None => None,
        }
    } else {
        None
    }
}

/// Big-endian bytes of a sequence of code units.
pub open spec fn units_be_bytes(u: Seq<u16>) -> Seq<u8>
    decreases u.len(),
{
    if u.len() == 0 {
        seq![]
    } else {
        units_be_bytes(u.drop_last()) + u16_bytes(u.last())
    }
}

/// The code units whose big-endian bytes are `b` (a trailing odd byte is ignored).
pub open spec fn be_units(b: Seq<u8>) -> Seq<u16> {
    Seq::new(b.len() / 2, |i: int| ((b[2 * i] as u16) << 8u16) | (b[2 * i + 1] as u16))
}

/// The UTF-16BE bytes of a string.
pub open spec fn utf16be(s: Seq<char>) -> Seq<u8> {
    units_be_bytes(utf16_units(s))
}

/// What decoding UTF-16BE bytes yields: `None` for an odd length or an
/// unpaired surrogate.
pub open spec fn utf16be_decode(b: Seq<u8>) -> Option<Seq<char>> {
    if b.len() % 2 != 0 {
        None
    } else {
        utf16_decode(be_units(b))
    }
}

/// `char::from_u32`: `Some` exactly for Unicode scalar values, holding the
/// character with that value.
#[verifier::external_body]
fn char_from_u32(v: u32) -> (r: Option<char>)
    ensures
        r is Some <==> (v <= 0xD7FF || (0xE000 <= v <= 0x10FFFF)),
        r matches Some(c) ==> c as u32 == v,
{
    char::from_u32(v)
}

/// `String::push`: appends one character.
#[verifier::external_body]
fn push_char(s: &mut String, c: char)
    ensures
        final(s)@ == old(s)@.push(c),
{
    s.push(c)
}

/// Appends the big-endian bytes of one code unit.
fn push_unit(out: &mut Vec<u8>, x: u16, Ghost(units): Ghost<Seq<u16>>)
    requires
        old(out)@ == units_be_bytes(units),
    ensures
        final(out)@ == units_be_bytes(units.push(x)),
{
    out.push((x >> 8u16) as u8);
    out.push(x as u8);
    assert(units.push(x).drop_last() =~= units);
    assert(out@ =~= units_be_bytes(units) + u16_bytes(x));
}

/// Encodes a string into UTF-16 Big-Endian bytes.
pub fn encode_utf16be(s: &str) -> (out: Vec<u8>)
    ensures
        out@ == utf16be(s@),
{
    let n = s.unicode_len();
    let mut out: Vec<u8> = Vec::new();
    let mut i: usize = 0;
    let ghost mut units: Seq<u16> = seq![];
    while i < n
        invariant
            i <= n,
            n == s@.len(),
            units == utf16_units(s@.take(i as int)),
            out@ == units_be_bytes(units),
        decreases n - i,
    {
        let c = s.get_char(i);
        let v = c as u32;
        assert(s@.take(i + 1).drop_last() =~= s@.take(i as int));
        if v < 0x10000 {
            push_unit(&mut out, v as u16, Ghost(units));
            proof {
                units = units.push(v as u16);
            }
        } else {
            let w = v - 0x10000;
            assert(w >> 10u32 <= 0x3FF && w & 0x3FFu32 <= 0x3FF) by (bit_vector)
                requires
                    w <= 0xFFFFF,
            ;
            let hi = (0xD800u32 + (w >> 10u32)) as u16;
            let lo = (0xDC00u32 + (w & 0x3FFu32)) as u16;
            push_unit(&mut out, hi, Ghost(units));
            push_unit(&mut out, lo, Ghost(units.push(hi)));
            proof {
                units = units.push(hi).push(lo);
            }
        }
        assert(units =~= utf16_units(s@.take(i as int)) + char_units(c));
        i = i + 1;
    }
    assert(s@.take(n as int) =~= s@);
    out
}

/// The code unit at index `i` of big-endian bytes.
fn unit_at(data: &[u8], i: usize) -> (u: u16)
    requires
        i < data@.len() / 2,
    ensures
        u == be_units(data@)[i as int],
{
    assert(data@.len() == data.len());
    ((data[2 * i] as u16) << 8u16) | (data[2 * i + 1] as u16)
}

/// Decodes UTF-16 Big-Endian bytes into a string; an odd length or an
/// unpaired surrogate is `Invalid`.
pub fn decode_utf16be(data: &[u8]) -> (res: ProtocolResult<String>)
    ensures
        match utf16be_decode(data@) {
            Some(s) => res matches Ok(r) && r@ == s,
            None => res matches Err(e) && e is Invalid,
        },
{
    if data.len() % 2 != 0 {
        return Err(ProtocolError::invalid("UTF-16BE data has odd length"));
    }
    let ghost u = be_units(data@);
    let n = data.len() / 2;
    let mut out = String::new();
    let mut i: usize = 0;
    proof {
        assert(u.skip(0) =~= u);
        match utf16_decode(u) {
            Some(r) => assert(out@ + r =~= r),
            None => {},
        }
    }
    while i < n
        invariant
            i <= n,
            n == u.len(),
            u == be_units(data@),
            utf16_decode(u) == match utf16_decode(u.skip(i as int)) {
                Some(r) => Some(out@ + r),
                None => None::<Seq<char>>,
            },
        decreases n - i,
    {
        let u0 = unit_at(data, i);
        let ghost t = u.skip(i as int);
        assert(t[0] == u0);
        assert(t.skip(1) =~= u.skip(i + 1));
        let ghost prev = out@;
        if u0 < 0xD800 || u0 > 0xDFFF {
            match char_from_u32(u0 as u32) {
                Some(c) => {
                    push_char(&mut out, c);
                    proof {
                        char_u32_cast(c, u0 as u32);
                    }
                },
                None => {
                    return Err(ProtocolError::invalid("invalid UTF-16BE string"));
                },
            }
            proof {
                let c = (u0 as u32) as char;
                match utf16_decode(u.skip(i + 1)) {
                    Some(r) => {
                        assert(prev + (seq![c] + r) =~= prev.push(c) + r);
                    },
                    None => {},
                }
            }
            i = i + 1;
        } else {
            if u0 > 0xDBFF || i + 1 >= n {
                return Err(ProtocolError::invalid("invalid UTF-16BE string"));
            }
            let u1 = unit_at(data, i + 1);
            assert(t[1] == u1);
            if u1 < 0xDC00 || u1 > 0xDFFF {
                return Err(ProtocolError::invalid("invalid UTF-16BE string"));
            }
            let a = (u0 - 0xD800) as u32;
            let b = (u1 - 0xDC00) as u32;
            assert((a << 10u32) | b <= 0xFFFFF) by (bit_vector)
                requires
                    a <= 0x3FF,
                    b <= 0x3FF,
            ;
            let v = 0x10000u32 + ((a << 10u32) | b);
            assert(v == pair_value(u0, u1));
            assert(v <= 0x10FFFF && v >= 0x10000) by (bit_vector)
                requires
                    v == 0x10000u32 + ((((u0 - 0xD800) as u32) << 10u32) | ((u1 - 0xDC00) as u32)),
                    0xD800 <= u0 <= 0xDBFF,
                    0xDC00 <= u1 <= 0xDFFF,
            ;
            match char_from_u32(v) {
                Some(c) => {
                    push_char(&mut out, c);
                    proof {
                        char_u32_cast(c, v);
                    }
                },
                None => {
                    return Err(ProtocolError::invalid("invalid UTF-16BE string"));
                },
            }
            assert(t.skip(2) =~= u.skip(i + 2));
            proof {
                let c = v as char;
                match utf16_decode(u.skip(i + 2)) {
                    Some(r) => {
                        assert(prev + (seq![c] + r) =~= prev.push(c) + r);
                    },
                    None => {},
                }
            }
            i = i + 2;
        }
    }
    Ok(out)
}

proof fn lemma_units_be_bytes(u: Seq<u16>)
    ensures
        units_be_bytes(u).len() == 2 * u.len(),
        be_units(units_be_bytes(u)) == u,
    decreases u.len(),
{
    if u.len() > 0 {
        let p = u.drop_last();
        lemma_units_be_bytes(p);
        let b = units_be_bytes(u);
        let x = u.last();
        assert(b == units_be_bytes(p) + u16_bytes(x));
        assert forall|i: int| 0 <= i < u.len() implies #[trigger] be_units(b)[i] == u[i] by {
            if i < p.len() {
                assert(b[2 * i] == units_be_bytes(p)[2 * i]);
                assert(b[2 * i + 1] == units_be_bytes(p)[2 * i + 1]);
                assert(be_units(units_be_bytes(p))[i] == p[i]);
            } else {
                assert(b[2 * i] == (x >> 8u16) as u8);
                assert(b[2 * i + 1] == x as u8);
                assert((((x >> 8u16) as u8 as u16) << 8u16) | (x as u8 as u16) == x) by (bit_vector);
            }
        }
        assert(be_units(b) =~= u);
    }
}

proof fn lemma_decode_char(c: char, rest: Seq<u16>)
    ensures
        utf16_decode(char_units(c) + rest) == match utf16_decode(rest) {
            Some(r) => Some(seq![c] + r),
            None => None::<Seq<char>>,
        },
{
    let v = c as u32;
    let all = char_units(c) + rest;
    if v < 0x10000 {
        assert(all.skip(1) =~= rest);
        assert(((v as u16) as u32) == v);
        assert(!(0xD800 <= v <= 0xDFFF));
    } else {
        let w = (v - 0x10000) as u32;
        let hi = (0xD800u32 + (w >> 10u32)) as u16;
        let lo = (0xDC00u32 + (w & 0x3FFu32)) as u16;
        assert(v <= 0x10FFFF);
        assert(0xD800 <= hi <= 0xDBFF && 0xDC00 <= lo <= 0xDFFF && pair_value(hi, lo) == v)
            by (bit_vector)
            requires
                w == (v - 0x10000) as u32,
                0x10000 <= v <= 0x10FFFF,
                hi == (0xD800u32 + (w >> 10u32)) as u16,
                lo == (0xDC00u32 + (w & 0x3FFu32)) as u16,
        ;
        assert(all[0] == hi && all[1] == lo);
        assert(all.skip(2) =~= rest);
    }
}

proof fn lemma_decode_units(s: Seq<char>, rest: Seq<u16>)
    ensures
        utf16_decode(utf16_units(s) + rest) == match utf16_decode(rest) {
            Some(r) => Some(s + r),
            None => None::<Seq<char>>,
        },
    decreases s.len(),
{
    if s.len() == 0 {
        assert(utf16_units(s) + rest =~= rest);
        match utf16_decode(rest) {
            Some(r) => assert(s + r =~= r),
            None => {},
        }
    } else {
        let p = s.drop_last();
        let c = s.last();
        let rest2 = char_units(c) + rest;
        assert(utf16_units(s) + rest =~= utf16_units(p) + rest2);
        lemma_decode_units(p, rest2);
        lemma_decode_char(c, rest);
        match utf16_decode(rest) {
            Some(r) => assert(p + (seq![c] + r) =~= s + r),
            None => {},
        }
    }
}

/// Encoding a string as UTF-16BE and decoding the bytes gives the string back.
pub proof fn law_utf16be_round_trip(s: Seq<char>)
    ensures
        utf16be_decode(utf16be(s)) == Some(s),
        utf16be(s).len() == 2 * utf16_units(s).len(),
{
    lemma_units_be_bytes(utf16_units(s));
    lemma_decode_units(s, seq![]);
    assert(utf16_units(s) + seq![] =~= utf16_units(s));
    assert(s + seq![] =~= s);
}

} // verus!
