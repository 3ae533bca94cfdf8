//! Legacy Minecraft protocol support (Beta 1.8 – MC 1.6).
//!
//! The legacy protocol is completely outside the `VarInt` framing used by
//! modern (1.7+) Minecraft. This module provides detection, parsing, and
//! response construction for legacy ping and login connections.

pub mod utf16;
pub mod ping;
pub mod handshake;

use vstd::prelude::*;

verus! {

/// Type of connection detected by the first byte of the TCP stream.
#[derive(Debug, Clone, Copy, PartialEq, Eq, Structural)]
pub enum LegacyDetection {
    /// `0xFE`: legacy ping (Beta 1.8 to MC 1.6, also supported by modern servers).
    LegacyPing,
    /// `0x02`: legacy login (pre-Netty).
    LegacyLogin,
    /// Other: modern protocol (1.7+), first byte is the start of a `VarInt` length.
    Modern,
}

/// Detects the type of connection by the first byte of the TCP stream.
pub fn detect(first_byte: u8) -> (d: LegacyDetection)
    ensures
        d == if first_byte == 0xFE {
            LegacyDetection::LegacyPing
        } else if first_byte == 0x02 {
            LegacyDetection::LegacyLogin
        } else {
            LegacyDetection::Modern
        },
{
    match first_byte {
        0xFE => LegacyDetection::LegacyPing,
        0x02 => LegacyDetection::LegacyLogin,
        _ => LegacyDetection::Modern,
    }
}

} // verus!
