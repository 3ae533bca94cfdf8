//! Pre-Netty handshake (`0x02`) parsing for Minecraft 1.6 and earlier.
//!
//! Two formats are supported:
//! - **Pre-1.3**: `0x02` + `0x00` + string length (one byte) + UTF-16BE
//!   `"username;hostname:port"`
//! - **1.3+**: `0x02` + `u8 protocol_version` + `string16 username` +
//!   `string16 hostname` + `i32 port`

use vstd::prelude::*;

use super::ping::{build_kick_packet, kick_packet};
use super::utf16::{decode_utf16be, utf16be_decode};
use crate::codec::spec::{be_u16, be_u32, built};
use crate::error::{ErrorClass, ProtocolError, ProtocolResult};

verus! {

/// A parsed legacy login handshake.
#[derive(Debug, Clone)]
pub struct LegacyHandshakeRequest {
    pub protocol_version: u8,
    pub username: String,
    pub hostname: String,
    pub port: i32,
}

/// The content of a [`LegacyHandshakeRequest`].
pub struct LegacyHandshakeView {
    pub protocol_version: u8,
    pub username: Seq<char>,
    pub hostname: Seq<char>,
    pub port: i32,
}

impl View for LegacyHandshakeRequest {
    type V = LegacyHandshakeView;

    open spec fn view(&self) -> LegacyHandshakeView {
        LegacyHandshakeView {
            protocol_version: self.protocol_version,
            username: self.username@,
            hostname: self.hostname@,
            port: self.port,
        }
    }
}

/// The port assumed when a handshake names none, or names one that does not parse.
pub const DEFAULT_PORT: i32 = 25565;

// ---------------------------------------------------------------------------
// Decimal integers as `str::parse::<i32>` reads them
// ---------------------------------------------------------------------------
pub open spec fn is_digit(c: char) -> bool {
    '0' <= c <= '9'
}

pub open spec fn all_digits(s: Seq<char>) -> bool {
    forall|i: int| 0 <= i < s.len() ==> is_digit(#[trigger] s[i])
}

/// The value of a string of decimal digits.
pub open spec fn digits_value(s: Seq<char>) -> nat
    decreases s.len(),
{
    if s.len() == 0 {
        0
    } else {
        10 * digits_value(s.drop_last()) + ((s.last() as u32 - '0' as u32) as nat)
    }
}

/// An `i32` in decimal: an optional `+` or `-`, then at least one digit,
/// and nothing else; a value out of range is refused.
pub open spec fn parse_i32(s: Seq<char>) -> Option<i32> {
    let neg = s.len() > 0 && s[0] == '-';
    let d = if s.len() > 0 && (s[0] == '-' || s[0] == '+') {
        s.skip(1)
    } else {
        s
    };
    if d.len() == 0 || !all_digits(d) {
        None
    } else {
        let v: int = if neg {
            -digits_value(d)
        } else {
            digits_value(d) as int
        };
        if i32::MIN <= v <= i32::MAX {
            Some(v as i32)
        } else {
            None
        }
    }
}

proof fn lemma_digits_value_grows(s: Seq<char>, i: int)
    requires
        0 <= i <= s.len(),
        all_digits(s),
    ensures
        digits_value(s.take(i)) <= digits_value(s),
    decreases s.len() - i,
{
    if i < s.len() {
        lemma_digits_value_grows(s, i + 1);
        assert(s.take(i + 1).drop_last() =~= s.take(i));
    } else {
        assert(s.take(i) =~= s);
    }
}

/// Parses `s` as `str::parse::<i32>` does.
pub fn parse_i32_str(s: &str) -> (r: Option<i32>)
    ensures
        r == parse_i32(s@),
{
    let n = s.unicode_len();
    if n == 0 {
        return None;
    }
    let first = s.get_char(0);
    let neg = first == '-';
    let start: usize = if first == '-' || first == '+' { 1 } else { 0 };
    if start == n {
        return None;
    }
    let ghost d = s@.skip(start as int);
    assert(s@.skip(0) =~= s@);
    assert(d =~= (if s@.len() > 0 && (s@[0] == '-' || s@[0] == '+') {
        s@.skip(1)
    } else {
        s@
    }));
    assert(neg == (s@.len() > 0 && s@[0] == '-'));
    let mut acc: i64 = 0;
    let mut i: usize = start;
    while i < n
        invariant
            start <= i <= n,
            n == s@.len(),
            d == s@.skip(start as int),
            d == (if s@.len() > 0 && (s@[0] == '-' || s@[0] == '+') {
                s@.skip(1)
            } else {
                s@
            }),
            neg == (s@.len() > 0 && s@[0] == '-'),
            acc == digits_value(d.take(i - start)),
            acc <= 0x8000_0000,
            all_digits(d.take(i - start)),
        decreases n - i,
    {
        let c = s.get_char(i);
        assert(d[i - start] == c);
        if c < '0' || c > '9' {
            assert(!is_digit(d[i - start]));
            assert(!all_digits(d));
            return None;
        }
        let digit = (c as u32 - '0' as u32) as i64;
        assert(d.take(i + 1 - start).drop_last() =~= d.take(i - start));
        acc = acc * 10 + digit;
        i = i + 1;
        assert(all_digits(d.take(i - start))) by {
            assert forall|k: int| 0 <= k < i - start implies is_digit(
                #[trigger] d.take(i - start)[k],
            ) by {
                if k < i - 1 - start {
                    assert(d.take(i - start)[k] == d.take(i - 1 - start)[k]);
                }
            }
        }
        if acc > 0x8000_0000 {
            proof {
                if all_digits(d) {
                    lemma_digits_value_grows(d, i - start);
                    assert(digits_value(d) > 0x8000_0000);
                }
            }
            return None;
        }
    }
    assert(d.take(n - start) =~= d);
    let v = if neg { -acc } else { acc };
    if v < i32::MIN as i64 || v > i32::MAX as i64 {
        return None;
    }
    Some(v as i32)
}

// ---------------------------------------------------------------------------
// The pre-1.3 connection string
// ---------------------------------------------------------------------------
/// What `"username;hostname:port"` is read as: the text before the first
/// `;` is the username; of the rest, the text after the last `:` is the
/// port (25565 when it does not parse) and the text before it the hostname.
/// Without `:` the whole rest is the hostname; without `;` the whole string
/// is the username, with no hostname.
pub open spec fn connection_string(s: Seq<char>) -> LegacyHandshakeView {
    match s.index_of_first(';') {
        None => LegacyHandshakeView {
            protocol_version: 0,
            username: s,
            hostname: seq![],
            port: DEFAULT_PORT,
        },
        Some(i) => {
            let host_port = s.skip(i + 1);
            match host_port.index_of_last(':') {
                None => LegacyHandshakeView {
                    protocol_version: 0,
                    username: s.take(i),
                    hostname: host_port,
                    port: DEFAULT_PORT,
                },
                Some(j) => LegacyHandshakeView {
                    protocol_version: 0,
                    username: s.take(i),
                    hostname: host_port.take(j),
                    port: match parse_i32(host_port.skip(j + 1)) {
                        Some(p) => p,
                        None => DEFAULT_PORT,
                    },
                },
            }
        },
    }
}

/// The index of the first `c` in `s`, as `index_of_first` states it.
fn find_first(s: &str, c: char) -> (r: Option<usize>)
    ensures
        match r {
            Some(i) => s@.index_of_first(c) == Some(i as int),
            None => s@.index_of_first(c) is None,
        },
{
    proof {
        s@.index_of_first_ensures(c);
    }
    let n = s.unicode_len();
    let mut i: usize = 0;
    while i < n
        invariant
            i <= n,
            n == s@.len(),
            forall|k: int| 0 <= k < i ==> s@[k] != c,
        decreases n - i,
    {
        if s.get_char(i) == c {
            proof {
                assert(s@[i as int] == c);
                s@.index_of_first_ensures(c);
                match s@.index_of_first(c) {
                    Some(j) => {
                        assert(s@[j] == c);
                        if j < i {
                            assert(s@[j] != c);
                        }
                        if i < j {
                            assert(s@[i as int] != c);
                        }
                    },
                    None => {
                        assert(s@.contains(c));
                    },
                }
            }
            return Some(i);
        }
        i = i + 1;
    }
    proof {
        s@.index_of_first_ensures(c);
        match s@.index_of_first(c) {
            Some(j) => {
                assert(s@[j] == c);
            },
            None => {},
        }
    }
    None
}

/// The index of the last `c` in `s`, as `index_of_last` states it.
fn find_last(s: &str, c: char) -> (r: Option<usize>)
    ensures
        match r {
            Some(i) => s@.index_of_last(c) == Some(i as int),
            None => s@.index_of_last(c) is None,
        },
{
    proof {
        s@.index_of_last_ensures(c);
    }
    let n = s.unicode_len();
    let mut i: usize = n;
    while i > 0
        invariant
            i <= n,
            n == s@.len(),
            forall|k: int| i <= k < n ==> s@[k] != c,
        decreases i,
    {
        if s.get_char(i - 1) == c {
            proof {
                assert(s@[i - 1] == c);
                s@.index_of_last_ensures(c);
                match s@.index_of_last(c) {
                    Some(j) => {
                        assert(s@[j] == c);
                        if j < i - 1 {
                            assert(s@[i - 1] != c);
                        }
                        if i - 1 < j {
                            assert(s@[j] != c);
                        }
                    },
                    None => {
                        assert(s@.contains(c)) by {
                            assert(s@[i - 1] == c);
                        }
                    },
                }
            }
            return Some(i - 1);
        }
        i = i - 1;
    }
    proof {
        s@.index_of_last_ensures(c);
        match s@.index_of_last(c) {
            Some(j) => {
                assert(s@[j] == c);
            },
            None => {},
        }
    }
    None
}

/// Reads a pre-1.3 connection string.
fn parse_pre_1_3_connection_string(s: &str) -> (r: LegacyHandshakeRequest)
    ensures
        r@ == connection_string(s@),
{
    let n = s.unicode_len();
    proof {
        s@.index_of_first_ensures(';');
    }
    match find_first(s, ';') {
        None => LegacyHandshakeRequest {
            protocol_version: 0,
            username: s.to_string(),
            hostname: String::new(),
            port: DEFAULT_PORT,
        },
        Some(i) => {
            let username = s.substring_char(0, i);
            let host_port = s.substring_char(i + 1, n);
            assert(username@ =~= s@.take(i as int));
            assert(host_port@ =~= s@.skip(i + 1));
            let m = host_port.unicode_len();
            proof {
                host_port@.index_of_last_ensures(':');
            }
            match find_last(host_port, ':') {
                None => LegacyHandshakeRequest {
                    protocol_version: 0,
                    username: username.to_string(),
                    hostname: host_port.to_string(),
                    port: DEFAULT_PORT,
                },
                Some(j) => {
                    let hostname = host_port.substring_char(0, j);
                    let port_str = host_port.substring_char(j + 1, m);
                    assert(hostname@ =~= host_port@.take(j as int));
                    assert(port_str@ =~= host_port@.skip(j + 1));
                    let port = match parse_i32_str(port_str) {
                        Some(p) => p,
                        None => DEFAULT_PORT,
                    };
                    LegacyHandshakeRequest {
                        protocol_version: 0,
                        username: username.to_string(),
                        hostname: hostname.to_string(),
                        port,
                    }
                },
            }
        },
    }
}

// ---------------------------------------------------------------------------
// The handshake packet
// ---------------------------------------------------------------------------
/// A length-prefixed UTF-16BE string at `pos`: its text and the position
/// after it. A missing length, missing bytes or bad UTF-16 are `Invalid`.
pub open spec fn string16(d: Seq<u8>, pos: int) -> Result<(Seq<char>, int), ErrorClass> {
    if pos + 2 > d.len() {
        Err(ErrorClass::Invalid)
    } else {
        let start = pos + 2;
        let end = start + 2 * (be_u16(d.skip(pos)) as int);
        if end > d.len() {
            Err(ErrorClass::Invalid)
        } else {
            match utf16be_decode(d.subrange(start, end)) {
                Some(s) => Ok((s, end)),
                None => Err(ErrorClass::Invalid),
            }
        }
    }
}

/// What a legacy handshake (the bytes after `0x02`) is read as.
pub open spec fn legacy_handshake(d: Seq<u8>) -> Result<LegacyHandshakeView, ErrorClass> {
    if d.len() == 0 {
        Err(ErrorClass::Invalid)
    } else if d[0] == 0 {
        if d.len() < 2 {
            Err(ErrorClass::Invalid)
        } else {
            let end = 2 + 2 * (d[1] as int);
            if end > d.len() {
                Err(ErrorClass::Invalid)
            } else {
                match utf16be_decode(d.subrange(2, end)) {
                    Some(s) => Ok(connection_string(s)),
                    None => Err(ErrorClass::Invalid),
                }
            }
        }
    } else {
        match string16(d, 1) {
            Err(e) => Err(e),
            Ok((username, p1)) => match string16(d, p1) {
                Err(e) => Err(e),
                Ok((hostname, p2)) => if p2 + 4 > d.len() {
                    Err(ErrorClass::Invalid)
                } else {
                    Ok(
                        LegacyHandshakeView {
                            protocol_version: d[0],
                            username,
                            hostname,
                            port: be_u32(d.skip(p2)) as i32,
                        },
                    )
                },
            },
        }
    }
}

fn read_string16(data: &[u8], pos: usize, context: &str) -> (res: ProtocolResult<(String, usize)>)
    requires
        pos <= data@.len(),
    ensures
        match string16(data@, pos as int) {
            Ok((s, end)) => res matches Ok((r, e)) && r@ == s && e == end,
            Err(c) => res matches Err(e) && e.class() == c,
        },
{
    let len = data.len();
    if len - pos < 2 {
        return Err(ProtocolError::invalid(context));
    }
    let char_count = (((data[pos] as u16) << 8u16) | (data[pos + 1] as u16)) as usize;
    let byte_count = char_count * 2;
    let start = pos + 2;
    if len - start < byte_count {
        return Err(ProtocolError::invalid(context));
    }
    let (_, tail) = data.split_at(start);
    let (bytes, _) = tail.split_at(byte_count);
    assert(bytes@ =~= data@.subrange(start as int, start + byte_count));
    match decode_utf16be(bytes) {
        Ok(s) => Ok((s, start + byte_count)),
        Err(e) => Err(e),
    }
}

/// Parses a legacy login handshake from the bytes after `0x02`.
pub fn parse_legacy_handshake(data: &[u8]) -> (res: ProtocolResult<LegacyHandshakeRequest>)
    ensures
        match legacy_handshake(data@) {
            Ok(v) => res matches Ok(r) && r@ == v,
            Err(c) => res matches Err(e) && e.class() == c,
        },
{
    let len = data.len();
    if len == 0 {
        return Err(ProtocolError::invalid("legacy handshake: missing format byte"));
    }
    if data[0] == 0x00 {
        if len < 2 {
            return Err(ProtocolError::invalid("legacy handshake: missing string length"));
        }
        let byte_count = (data[1] as usize) * 2;
        if len - 2 < byte_count {
            return Err(ProtocolError::invalid("legacy handshake: truncated connection string"));
        }
        let (_, tail) = data.split_at(2);
        let (bytes, _) = tail.split_at(byte_count);
        assert(bytes@ =~= data@.subrange(2, 2 + byte_count));
        let connection_string = match decode_utf16be(bytes) {
            Ok(s) => s,
            Err(e) => return Err(e),
        };
        Ok(parse_pre_1_3_connection_string(connection_string.as_str()))
    } else {
        let protocol_version = data[0];
        let (username, pos) = match read_string16(data, 1, "legacy handshake: bad username") {
            Ok(r) => r,
            Err(e) => return Err(e),
        };
        let (hostname, pos) = match read_string16(data, pos, "legacy handshake: bad hostname") {
            Ok(r) => r,
            Err(e) => return Err(e),
        };
        if len - pos < 4 {
            return Err(ProtocolError::invalid("legacy handshake: missing port"));
        }
        let port = (((data[pos] as u32) << 24u32) | ((data[pos + 1] as u32) << 16u32) | ((data[pos
            + 2] as u32) << 8u32) | (data[pos + 3] as u32)) as i32;
        Ok(LegacyHandshakeRequest { protocol_version, username, hostname, port })
    }
}

/// Builds the legacy kick packet that refuses a login with `reason`.
pub fn build_legacy_kick(reason: &str) -> (res: ProtocolResult<Vec<u8>>)
    ensures
        crate::legacy::ping::kick_built(reason@, res),
{
    build_kick_packet(reason)
}

} // verus!
