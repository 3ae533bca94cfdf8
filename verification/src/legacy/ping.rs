//! Legacy server-list ping (Beta 1.8 – 1.6): request parsing and kick responses.

use vstd::prelude::*;

use super::utf16::{
    decode_utf16be, encode_utf16be, law_utf16be_round_trip, utf16_units, utf16be,
    utf16be_decode,
};
use crate::codec::spec::{be_u16, be_u32, built, u16_bytes};
use crate::error::{ErrorClass, ProtocolError, ProtocolResult};
use crate::text::{i32_decimal, i32_string};

verus! {

/// Variant of the legacy ping protocol.
#[derive(Debug, Clone, Copy, PartialEq, Eq, Structural)]
pub enum LegacyPingVariant {
    /// Beta 1.8: just `0xFE`, nothing else.
    Beta,
    /// 1.4–1.5: `0xFE 0x01`, no plugin message.
    V1_4,
    /// 1.6: `0xFE 0x01 0xFA` + MC|PingHost with hostname and port.
    V1_6,
}

/// Parsed data from a legacy ping request.
#[derive(Debug, Clone)]
pub struct LegacyPingRequest {
    /// The detected ping variant.
    pub variant: LegacyPingVariant,
    /// Hostname extracted from the MC|PingHost plugin message (`V1_6` only).
    pub hostname: Option<String>,
    /// Port extracted from the plugin message (`V1_6` only).
    pub port: Option<i32>,
    /// Legacy protocol version (`V1_6` only).
    pub protocol_version: Option<u8>,
}

/// The content of a [`LegacyPingRequest`].
pub struct LegacyPingRequestView {
    pub variant: LegacyPingVariant,
    pub hostname: Option<Seq<char>>,
    pub port: Option<i32>,
    pub protocol_version: Option<u8>,
}

impl View for LegacyPingRequest {
    type V = LegacyPingRequestView;

    open spec fn view(&self) -> LegacyPingRequestView {
        LegacyPingRequestView {
            variant: self.variant,
            hostname: match self.hostname {
                Some(h) => Some(h@),
                None => None,
            },
            port: self.port,
            protocol_version: self.protocol_version,
        }
    }
}

/// Data for constructing a legacy ping response.
#[derive(Debug, Clone)]
pub struct LegacyPingResponse {
    /// Protocol version number (e.g., 127 for legacy compat).
    pub protocol_version: i32,
    /// Server version string (e.g., "1.21.4").
    pub server_version: String,
    /// Message of the day.
    pub motd: String,
    /// Number of online players.
    pub online_players: i32,
    /// Maximum number of players.
    pub max_players: i32,
}

/// The bytes of a legacy kick packet carrying `payload`: `0xFF`, the
/// number of UTF-16 code units as a big-endian `u16`, then the UTF-16BE
/// text. More than 65535 code units is `TooLarge`.
pub open spec fn kick_packet(payload: Seq<char>) -> Result<Seq<u8>, ErrorClass> {
    let n = utf16_units(payload).len();
    if n > 0xFFFF {
        Err(ErrorClass::TooLarge)
    } else {
        Ok(seq![0xFFu8] + u16_bytes(n as u16) + utf16be(payload))
    }
}

/// `res` is the kick packet carrying `payload`; when there are more than
/// 65535 code units, the error is `TooLarge` with that limit and the count.
pub open spec fn kick_built(payload: Seq<char>, res: ProtocolResult<Vec<u8>>) -> bool {
    match kick_packet(payload) {
        Ok(bytes) => res matches Ok(v) && v@ == bytes,
        Err(_) => res matches Err(ProtocolError::TooLarge { max, actual }) && max == 0xFFFF && actual
            == utf16_units(payload).len(),
    }
}

/// Builds a legacy kick packet from a payload string.
pub fn build_kick_packet(payload: &str) -> (res: ProtocolResult<Vec<u8>>)
    ensures
        kick_built(payload@, res),
{
    let encoded = encode_utf16be(payload);
    proof {
        law_utf16be_round_trip(payload@);
    }
    let code_unit_count = encoded.len() / 2;
    if code_unit_count > 0xFFFF {
        return Err(ProtocolError::too_large(0xFFFF, code_unit_count));
    }
    let mut out: Vec<u8> = Vec::new();
    out.push(0xFF);
    let n = code_unit_count as u16;
    out.push((n >> 8u16) as u8);
    out.push(n as u8);
    crate::codec::raw::push_all(&mut out, encoded.as_slice());
    assert(out@ =~= seq![0xFFu8] + u16_bytes(n) + utf16be(payload@));
    Ok(out)
}

/// The Beta 1.8 response text: `"MOTD§online§max"`.
pub open spec fn beta_payload(r: LegacyPingResponse) -> Seq<char> {
    r.motd@ + "\u{00a7}"@ + i32_decimal(r.online_players) + "\u{00a7}"@ + i32_decimal(
        r.max_players,
    )
}

/// The 1.4+ response text: `"§1\0{protocol}\0{version}\0{motd}\0{online}\0{max}"`.
pub open spec fn v1_4_payload(r: LegacyPingResponse) -> Seq<char> {
    "\u{00a7}1\0"@ + i32_decimal(r.protocol_version) + "\0"@ + r.server_version@ + "\0"@
        + r.motd@ + "\0"@ + i32_decimal(r.online_players) + "\0"@ + i32_decimal(r.max_players)
}

impl LegacyPingResponse {
    /// Builds the kick response for the Beta 1.8 variant.
    pub fn build_beta_response(&self) -> (res: ProtocolResult<Vec<u8>>)
        ensures
            kick_built(beta_payload(*self), res),
    {
        let mut payload = self.motd.clone();
        payload.append("\u{00a7}");
        payload.append(i32_string(self.online_players).as_str());
        payload.append("\u{00a7}");
        payload.append(i32_string(self.max_players).as_str());
        assert(payload@ =~= beta_payload(*self));
        build_kick_packet(payload.as_str())
    }

    /// Builds the kick response for the 1.4+ variants (including 1.6).
    pub fn build_v1_4_response(&self) -> (res: ProtocolResult<Vec<u8>>)
        ensures
            kick_built(v1_4_payload(*self), res),
    {
        let mut payload = String::from_str("\u{00a7}1\0");
        payload.append(i32_string(self.protocol_version).as_str());
        payload.append("\0");
        payload.append(self.server_version.as_str());
        payload.append("\0");
        payload.append(self.motd.as_str());
        payload.append("\0");
        payload.append(i32_string(self.online_players).as_str());
        payload.append("\0");
        payload.append(i32_string(self.max_players).as_str());
        assert(payload@ =~= v1_4_payload(*self));
        build_kick_packet(payload.as_str())
    }
}

/// A request of the given variant that carries no plugin message data.
pub open spec fn plain_request(variant: LegacyPingVariant) -> LegacyPingRequestView {
    LegacyPingRequestView { variant, hostname: None, port: None, protocol_version: None }
}

/// What the `MC|PingHost` message (after `0x01 0xFA`) holds: a channel
/// name (skipped), a data length (ignored), the protocol version byte, a
/// UTF-16BE hostname and a big-endian `i32` port. Anything missing or
/// malformed is `Invalid`.
pub open spec fn ping_host(d: Seq<u8>) -> Result<LegacyPingRequestView, ErrorClass> {
    if d.len() < 2 {
        Err(ErrorClass::Invalid)
    } else {
        let offset = 2 + 2 * (be_u16(d) as int);
        let pos = offset + 2;
        if d.len() < pos {
            Err(ErrorClass::Invalid)
        } else if pos >= d.len() {
            Err(ErrorClass::Invalid)
        } else if pos + 3 > d.len() {
            Err(ErrorClass::Invalid)
        } else {
            let hstart = pos + 3;
            let hend = hstart + 2 * (be_u16(d.skip(pos + 1)) as int);
            if hend > d.len() {
                Err(ErrorClass::Invalid)
            } else {
                match utf16be_decode(d.subrange(hstart, hend)) {
                    None => Err(ErrorClass::Invalid),
                    Some(host) => if hend + 4 > d.len() {
                        Err(ErrorClass::Invalid)
                    } else {
                        Ok(
                            LegacyPingRequestView {
                                variant: LegacyPingVariant::V1_6,
                                hostname: Some(host),
                                port: Some(be_u32(d.skip(hend)) as i32),
                                protocol_version: Some(d[pos]),
                            },
                        )
                    },
                }
            }
        }
    }
}

/// What a legacy ping (the bytes after the initial `0xFE`) is parsed as:
/// no `0x01` is Beta, `0x01` without `0xFA` is 1.4, and `0x01 0xFA` starts
/// the 1.6 plugin message.
pub open spec fn legacy_ping(data: Seq<u8>) -> Result<LegacyPingRequestView, ErrorClass> {
    if data.len() == 0 || data[0] != 0x01 {
        Ok(plain_request(LegacyPingVariant::Beta))
    } else if data.len() < 2 || data[1] != 0xFA {
        Ok(plain_request(LegacyPingVariant::V1_4))
    } else {
        ping_host(data.skip(2))
    }
}

/// The big-endian `u16` at `d[i..i + 2]`.
fn u16_at(d: &[u8], i: usize) -> (v: u16)
    requires
        i + 2 <= d@.len(),
    ensures
        v == be_u16(d@.skip(i as int)),
{
    ((d[i] as u16) << 8u16) | (d[i + 1] as u16)
}

/// The big-endian `u32` at `d[i..i + 4]`.
fn u32_at(d: &[u8], i: usize) -> (v: u32)
    requires
        i + 4 <= d@.len(),
    ensures
        v == be_u32(d@.skip(i as int)),
{
    ((d[i] as u32) << 24u32) | ((d[i + 1] as u32) << 16u32) | ((d[i + 2] as u32) << 8u32) | (d[i
        + 3] as u32)
}

/// Parses the `V1_6` `MC|PingHost` plugin message, which starts after `0x01 0xFA`.
fn parse_v1_6_ping(data: &[u8]) -> (res: ProtocolResult<LegacyPingRequest>)
    ensures
        match ping_host(data@) {
            Ok(v) => res matches Ok(r) && r@ == v,
            Err(c) => res matches Err(e) && e.class() == c,
        },
{
    let len = data.len();
    if len < 2 {
        return Err(ProtocolError::invalid("V1_6 ping: missing channel name length"));
    }
    let channel_len = u16_at(data, 0) as usize;
    assert(data@.skip(0) =~= data@);
    let offset = 2 + channel_len * 2;
    if len < offset + 2 {
        return Err(ProtocolError::invalid("V1_6 ping: truncated channel name"));
    }
    let pos = offset + 2;
    if pos >= len {
        return Err(ProtocolError::invalid("V1_6 ping: missing protocol version"));
    }
    let protocol_version = data[pos];
    let pos = pos + 1;
    if pos + 2 > len {
        return Err(ProtocolError::invalid("V1_6 ping: missing hostname length"));
    }
    let hostname_len = u16_at(data, pos) as usize;
    let pos = pos + 2;
    let hostname_bytes = hostname_len * 2;
    if len - pos < hostname_bytes {
        return Err(ProtocolError::invalid("V1_6 ping: truncated hostname"));
    }
    let (_, tail) = data.split_at(pos);
    let (host_data, _) = tail.split_at(hostname_bytes);
    assert(host_data@ =~= data@.subrange(pos as int, pos + hostname_bytes));
    let hostname = match decode_utf16be(host_data) {
        Ok(h) => h,
        Err(e) => return Err(e),
    };
    let pos = pos + hostname_bytes;
    if len - pos < 4 {
        return Err(ProtocolError::invalid("V1_6 ping: missing port"));
    }
    let port = u32_at(data, pos) as i32;
    Ok(
        LegacyPingRequest {
            variant: LegacyPingVariant::V1_6,
            hostname: Some(hostname),
            port: Some(port),
            protocol_version: Some(protocol_version),
        },
    )
}

/// Parses a legacy ping from the bytes after the initial `0xFE`: determines
/// the variant and, for 1.6, extracts the hostname, port and protocol version.
pub fn parse_legacy_ping(data: &[u8]) -> (res: ProtocolResult<LegacyPingRequest>)
    ensures
        match legacy_ping(data@) {
            Ok(v) => res matches Ok(r) && r@ == v,
            Err(c) => res matches Err(e) && e.class() == c,
        },
{
    if data.len() == 0 || data[0] != 0x01 {
        return Ok(
            LegacyPingRequest {
                variant: LegacyPingVariant::Beta,
                hostname: None,
                port: None,
                protocol_version: None,
            },
        );
    }
    if data.len() < 2 || data[1] != 0xFA {
        return Ok(
            LegacyPingRequest {
                variant: LegacyPingVariant::V1_4,
                hostname: None,
                port: None,
                protocol_version: None,
            },
        );
    }
    let (_, rest) = data.split_at(2);
    assert(rest@ =~= data@.skip(2));
    parse_v1_6_ping(rest)
}

} // verus!
