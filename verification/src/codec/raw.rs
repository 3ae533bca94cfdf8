//! Low-level byte movement shared by all encoders and decoders.

use vstd::prelude::*;

use super::spec::{be_u16, be_u32, be_u64, be_u128, p_u16, p_u32, p_u64, p_u128, p_u8, u16_bytes, u32_bytes, u64_bytes, u128_bytes, lemma_pow128_facts, lemma_var_bytes_len, lemma_var_len_bound, p_bytes, parsed, pow128, var_bytes, var_len, var_value};
use crate::error::{ErrorClass, ProtocolError, ProtocolResult, eof};

verus! {

/// The class reported when input runs out: `Incomplete` for slice decoders,
/// an unexpected end of file for readers.
pub open spec fn short_class(at_eof: bool) -> ErrorClass {
    if at_eof {
        eof()
    } else {
        ErrorClass::Incomplete
    }
}

/// The error reported when input runs out.
pub fn short_error(at_eof: bool, context: &'static str) -> (e: ProtocolError)
    ensures
        e.class() == short_class(at_eof),
        !at_eof ==> e == (ProtocolError::Incomplete { context }),
{
    if at_eof {
        ProtocolError::eof()
    } else {
        ProtocolError::incomplete(context)
    }
}

/// Appends all of `data` to `w`.
pub fn push_all(w: &mut Vec<u8>, data: &[u8])
    ensures
        final(w)@ == old(w)@ + data@,
{
    let ghost start = w@;
    let n = data.len();
    let mut i: usize = 0;
    while i < n
        invariant
            i <= n,
            n == data@.len(),
            w@ == start + data@.take(i as int),
        decreases n - i,
    {
        w.push(data[i]);
        i = i + 1;
        assert(data@.take(i as int) =~= data@.take((i - 1) as int).push(data@[i - 1]));
    }
    assert(data@.take(n as int) =~= data@);
}

/// Removes and returns the first `n` bytes of `r`; `None` when fewer remain
/// (then `r` is unchanged).
pub fn split_front<'a>(r: &mut &'a [u8], n: usize) -> (res: Option<&'a [u8]>)
    ensures
        old(r)@.len() < n ==> res is None && final(r)@ == old(r)@,
        old(r)@.len() >= n ==> (res matches Some(head) && head@ == old(r)@.take(n as int)
            && final(r)@ == old(r)@.skip(n as int)),
{
    if r.len() < n {
        return None;
    }
    let (head, rest) = r.split_at(n);
    *r = rest;
    assert(head@ =~= old(r)@.take(n as int));
    assert(rest@ =~= old(r)@.skip(n as int));
    Some(head)
}

/// Removes and returns the first byte of `r`.
pub fn split_byte(r: &mut &[u8]) -> (res: Option<u8>)
    ensures
        old(r)@.len() == 0 ==> res is None && final(r)@ == old(r)@,
        old(r)@.len() > 0 ==> res == Some(old(r)@[0]) && final(r)@ == old(r)@.skip(1),
{
    if r.len() == 0 {
        return None;
    }
    let b = r[0];
    let (_, rest) = r.split_at(1);
    *r = rest;
    assert(rest@ =~= old(r)@.skip(1));
    Some(b)
}

/// Reads `n` bytes as a vector, reporting a shortage as `short_class(at_eof)`.
pub fn read_exact(r: &mut &[u8], n: usize, at_eof: bool, context: &'static str) -> (res:
    ProtocolResult<Vec<u8>>)
    ensures
        parsed(p_bytes(old(r)@, n as nat, short_class(at_eof)), res, final(r)@),
{
    match split_front(r, n) {
        None => Err(short_error(at_eof, context)),
        Some(head) => {
            let mut v: Vec<u8> = Vec::new();
            push_all(&mut v, head);
            assert(v.deep_view() =~= head@);
            Ok(v)
        },
    }
}

/// Writes `var_bytes(u)`.
pub fn write_var(w: &mut Vec<u8>, u: u64)
    ensures
        final(w)@ == old(w)@ + var_bytes(u as nat),
{
    let ghost start = w@;
    let mut cur = u;
    loop
        invariant
            start == old(w)@,
            start + var_bytes(u as nat) == w@ + var_bytes(cur as nat),
        decreases cur,
    {
        if cur < 128 {
            w.push(cur as u8);
            assert(w@ =~= start + var_bytes(u as nat));
            return ;
        }
        w.push((cur % 128 + 128) as u8);
        assert(var_bytes(cur as nat) == seq![(cur % 128 + 128) as u8] + var_bytes(
            (cur / 128) as nat,
        ));
        cur = cur / 128;
        assert(start + var_bytes(u as nat) =~= w@ + var_bytes(cur as nat));
    }
}

/// Number of bytes `var_bytes(u)` occupies.
pub fn var_size(u: u64) -> (n: usize)
    ensures
        n == var_len(u as nat),
        n == var_bytes(u as nat).len(),
        1 <= n <= 10,
{
    proof {
        lemma_var_bytes_len(u as nat);
        lemma_pow128_facts();
        lemma_var_len_bound(u as nat, 10);
    }
    let mut n: usize = 1;
    let mut cur = u;
    while cur >= 128
        invariant
            var_len(u as nat) == n - 1 + var_len(cur as nat),
            1 <= n <= var_len(u as nat),
            var_len(u as nat) <= 10,
        decreases cur,
    {
        cur = cur / 128;
        n = n + 1;
    }
    n
}

/// How many bytes a failed read of at most `max` groups consumed: the
/// bytes are taken until `max` of them are gone or the input runs out.
pub open spec fn var_consumed(s: Seq<u8>, max: nat) -> int {
    if s.len() < max {
        s.len() as int
    } else {
        max as int
    }
}

/// Reads at most `max` seven-bit groups as `var_value` describes. A failed
/// read leaves the reader after the bytes it took; running out of input
/// when not at the end of a stream is `Incomplete` with `context`.
pub fn read_var(r: &mut &[u8], max: usize, at_eof: bool, context: &'static str) -> (res:
    ProtocolResult<u128>)
    requires
        1 <= max <= 10,
    ensures
        match var_value(old(r)@, max as nat, short_class(at_eof)) {
            Ok((v, n)) => v < pow128(max as nat) && res == Ok::<u128, ProtocolError>(v as u128)
                && final(r)@ == old(r)@.skip(n as int),
            Err(c) => res matches Err(e) && e.class() == c,
        },
        res is Err ==> final(r)@ == old(r)@.skip(var_consumed(old(r)@, max as nat)),
        res matches Err(e) ==> (!at_eof && e.class() == ErrorClass::Incomplete ==> e == (
        ProtocolError::Incomplete { context })),
{
    let ghost orig = r@;
    let ghost sh = short_class(at_eof);
    let mut acc: u128 = 0;
    let mut mult: u128 = 1;
    let mut i: usize = 0;
    proof {
        lemma_pow128_facts();
    }
    loop
        invariant
            i <= max <= 10,
            mult == pow128(i as nat),
            acc < mult,
            pow128(10) == 0x40_0000_0000_0000_0000,
            i <= orig.len(),
            r@ == orig.skip(i as int),
            orig == old(r)@,
            sh == short_class(at_eof),
            var_value(orig, max as nat, sh) == match var_value(r@, (max - i) as nat, sh) {
                Ok((v, n)) => Ok(((acc + mult * v) as nat, (n + i) as nat)),
                Err(e) => Err(e),
            },
        decreases max - i,
    {
        if i == max {
            return Err(ProtocolError::invalid("variable-length integer too large"));
        }
        let ghost before = r@;
        let b = match split_byte(r) {
            None => {
                return Err(short_error(at_eof, context));
            },
            Some(b) => b,
        };
        assert(before.len() > 0);
        assert(before == orig.skip(i as int));
        assert(before.skip(1) =~= orig.skip(i + 1));
        if b < 128 {
            proof {
                lemma_pow128_mono(max as nat, 10);
                assert(acc + mult * b < pow128(max as nat)) by {
                    lemma_pow128_mono((i + 1) as nat, max as nat);
                    assert(acc + mult * b < 128 * mult) by (nonlinear_arith)
                        requires
                            acc < mult,
                            b < 128,
                    ;
                }
            }
            assert(acc + mult * (b as u128) < 0x40_0000_0000_0000_0000);
            let v = acc + mult * (b as u128);
            return Ok(v);
        }
        proof {
            let rest = var_value(before.skip(1), (max - i - 1) as nat, sh);
            match rest {
                Ok((v, n)) => {
                    assert(acc + mult * ((b - 128) + 128 * v) == (acc + mult * (b - 128)) + (mult
                        * 128) * v) by (nonlinear_arith);
                },
                Err(_) => {},
            }
            assert(acc + mult * (b - 128) < mult * 128) by (nonlinear_arith)
                requires
                    acc < mult,
                    b - 128 < 128,
            ;
            lemma_pow128_mono((i + 1) as nat, 10);
        }
        acc = acc + mult * ((b - 128) as u128);
        mult = mult * 128;
        i = i + 1;
    }
}


/// Reads one byte.
pub fn read_u8(r: &mut &[u8], at_eof: bool, context: &'static str) -> (res: ProtocolResult<u8>)
    ensures
        parsed(p_u8(old(r)@, short_class(at_eof)), res, final(r)@),
{
    match split_byte(r) {
        None => Err(short_error(at_eof, context)),
        Some(b) => Ok(b),
    }
}

/// Reads a boolean byte: 0 or 1, anything else is `Invalid`.
pub fn read_bool(r: &mut &[u8], at_eof: bool) -> (res: ProtocolResult<bool>)
    ensures
        parsed(super::spec::p_bool(old(r)@, short_class(at_eof)), res, final(r)@),
{
    match read_u8(r, at_eof, "bool") {
        Ok(0u8) => Ok(false),
        Ok(1u8) => Ok(true),
        Ok(_) => Err(ProtocolError::invalid("bool value must be 0 or 1")),
        Err(e) => Err(e),
    }
}

/// The big-endian `u32` at `b[i..i + 4]`.
fn be32_at(b: &[u8], i: usize) -> (v: u32)
    requires
        i + 4 <= b@.len(),
    ensures
        v == be_u32(b@.skip(i as int)),
{
    ((b[i] as u32) << 24u32) | ((b[i + 1] as u32) << 16u32) | ((b[i + 2] as u32) << 8u32) | (b[i
        + 3] as u32)
}

/// The big-endian `u64` at `b[i..i + 8]`.
fn be64_at(b: &[u8], i: usize) -> (v: u64)
    requires
        i + 8 <= b@.len(),
    ensures
        v == be_u64(b@.skip(i as int)),
{
    assert(b@.len() == b.len());
    let hi = be32_at(b, i);
    let lo = be32_at(b, i + 4);
    assert(b@.skip(i as int).skip(4) =~= b@.skip(i + 4));
    ((hi as u64) << 32u64) | (lo as u64)
}

/// Reads a big-endian `u16`.
pub fn read_u16(r: &mut &[u8], at_eof: bool, context: &'static str) -> (res: ProtocolResult<u16>)
    ensures
        parsed(p_u16(old(r)@, short_class(at_eof)), res, final(r)@),
{
    match split_front(r, 2) {
        None => Err(short_error(at_eof, context)),
        Some(b) => Ok(((b[0] as u16) << 8u16) | (b[1] as u16)),
    }
}

/// Reads a big-endian `u32`.
pub fn read_u32(r: &mut &[u8], at_eof: bool, context: &'static str) -> (res: ProtocolResult<u32>)
    ensures
        parsed(p_u32(old(r)@, short_class(at_eof)), res, final(r)@),
{
    let ghost s = r@;
    match split_front(r, 4) {
        None => Err(short_error(at_eof, context)),
        Some(b) => {
            let v = be32_at(b, 0);
            assert(b@.skip(0) =~= b@);
            Ok(v)
        },
    }
}

/// Reads a big-endian `u64`.
pub fn read_u64(r: &mut &[u8], at_eof: bool, context: &'static str) -> (res: ProtocolResult<u64>)
    ensures
        parsed(p_u64(old(r)@, short_class(at_eof)), res, final(r)@),
{
    let ghost s = r@;
    match split_front(r, 8) {
        None => Err(short_error(at_eof, context)),
        Some(b) => {
            let v = be64_at(b, 0);
            assert(b@.skip(0) =~= b@);
            assert(be_u32(b@.skip(4)) == be_u32(s.skip(4)));
            Ok(v)
        },
    }
}

/// Reads a big-endian `u128`.
pub fn read_u128(r: &mut &[u8], at_eof: bool, context: &'static str) -> (res: ProtocolResult<u128>)
    ensures
        parsed(p_u128(old(r)@, short_class(at_eof)), res, final(r)@),
{
    let ghost s = r@;
    match split_front(r, 16) {
        None => Err(short_error(at_eof, context)),
        Some(b) => {
            let hi = be64_at(b, 0);
            let lo = be64_at(b, 8);
            assert(b@.skip(0) =~= b@);
            assert(be_u32(b@.skip(4)) == be_u32(s.skip(4)));
            assert(be_u32(b@.skip(8)) == be_u32(s.skip(8)));
            assert(b@.skip(8).skip(4) =~= b@.skip(12));
            assert(s.skip(8).skip(4) =~= s.skip(12));
            assert(be_u32(b@.skip(12)) == be_u32(s.skip(12)));
            Ok(((hi as u128) << 64u128) | (lo as u128))
        },
    }
}

/// Appends the big-endian bytes of a `u16`.
pub fn write_u16(w: &mut Vec<u8>, v: u16)
    ensures
        final(w)@ == old(w)@ + u16_bytes(v),
{
    w.push((v >> 8u16) as u8);
    w.push(v as u8);
    assert(w@ =~= old(w)@ + u16_bytes(v));
}

/// Appends the big-endian bytes of a `u32`.
pub fn write_u32(w: &mut Vec<u8>, v: u32)
    ensures
        final(w)@ == old(w)@ + u32_bytes(v),
{
    w.push((v >> 24u32) as u8);
    w.push((v >> 16u32) as u8);
    w.push((v >> 8u32) as u8);
    w.push(v as u8);
    assert(w@ =~= old(w)@ + u32_bytes(v));
}

/// Appends the big-endian bytes of a `u64`.
pub fn write_u64(w: &mut Vec<u8>, v: u64)
    ensures
        final(w)@ == old(w)@ + u64_bytes(v),
{
    write_u32(w, (v >> 32u64) as u32);
    write_u32(w, v as u32);
    assert(w@ =~= old(w)@ + u64_bytes(v));
}

/// Appends the big-endian bytes of a `u128`.
pub fn write_u128(w: &mut Vec<u8>, v: u128)
    ensures
        final(w)@ == old(w)@ + u128_bytes(v),
{
    write_u64(w, (v >> 64u128) as u64);
    write_u64(w, v as u64);
    assert(w@ =~= old(w)@ + u128_bytes(v));
}

pub proof fn lemma_pow128_mono(a: nat, b: nat)
    requires
        a <= b,
    ensures
        pow128(a) <= pow128(b),
    decreases b,
{
    if a < b {
        lemma_pow128_mono(a, (b - 1) as nat);
    }
}

} // verus!
