//! UUIDs as the protocol carries them: 128-bit values, written as 16
//! big-endian bytes or, in old versions, as text. The text forms come from
//! the `uuid` crate.

use vstd::prelude::*;

verus! {

/// The lowercase hex digit of nibble `n` (below 16).
pub open spec fn hex_digit(n: u128) -> char {
    if n < 10 {
        (48 + n) as char
    } else {
        (87 + n) as char
    }
}

/// The 32 lowercase hex digits of `u`, most significant first.
pub open spec fn uuid_simple_text(u: u128) -> Seq<char> {
    Seq::new(32, |i: int| hex_digit((u >> ((4 * (31 - i)) as u128)) & 0xFu128))
}

/// The hyphenated form of `u`: its hex digits in groups of 8, 4, 4, 4 and 12.
pub open spec fn uuid_hyphenated_text(u: u128) -> Seq<char> {
    let h = uuid_simple_text(u);
    h.subrange(0, 8) + seq!['-'] + h.subrange(8, 12) + seq!['-'] + h.subrange(12, 16) + seq!['-']
        + h.subrange(16, 20) + seq!['-'] + h.subrange(20, 32)
}

/// The value of a hex digit in either case, or -1 for any other character.
pub open spec fn hex_value(c: char) -> int {
    if '0' <= c && c <= '9' {
        c as int - 48
    } else if 'a' <= c && c <= 'f' {
        c as int - 87
    } else if 'A' <= c && c <= 'F' {
        c as int - 55
    } else {
        -1
    }
}

/// The number that hex digits spell, most significant first.
pub open spec fn hex_number(h: Seq<char>) -> int
    decreases h.len(),
{
    if h.len() == 0 {
        0
    } else {
        hex_number(h.drop_last()) * 16 + hex_value(h.last())
    }
}

/// Every character of `h` is a hex digit.
pub open spec fn all_hex(h: Seq<char>) -> bool {
    forall|i: int| 0 <= i < h.len() ==> #[trigger] hex_value(h[i]) >= 0
}

/// The UUID that 32 hex digits spell.
pub open spec fn simple_uuid_value(h: Seq<char>) -> Option<u128> {
    if h.len() == 32 && all_hex(h) {
        Some(hex_number(h) as u128)
    } else {
        None
    }
}

/// The UUID that the hyphenated form spells: hex digits in groups of 8, 4,
/// 4, 4 and 12, with hyphens between.
pub open spec fn hyphenated_uuid_value(t: Seq<char>) -> Option<u128> {
    if t.len() == 36 && t[8] == '-' && t[13] == '-' && t[18] == '-' && t[23] == '-' {
        simple_uuid_value(
            t.subrange(0, 8) + t.subrange(9, 13) + t.subrange(14, 18) + t.subrange(19, 23)
                + t.subrange(24, 36),
        )
    } else {
        None
    }
}

/// `c` with ASCII capitals lowered.
pub open spec fn ascii_lower(c: char) -> char {
    if 'A' <= c && c <= 'Z' {
        ((c as u32) + 32) as char
    } else {
        c
    }
}

/// The UUID `uuid::Uuid::parse_str` reads from `text`: 32 hex digits, the
/// hyphenated form, the hyphenated form in braces, or `urn:uuid:` (in any
/// case) followed by the hyphenated form; hex digits in either case.
/// Anything else, any non-ASCII text included, is refused.
pub open spec fn uuid_text_value(t: Seq<char>) -> Option<u128> {
    if t.len() == 32 {
        simple_uuid_value(t)
    } else if t.len() == 36 {
        hyphenated_uuid_value(t)
    } else if t.len() == 38 && t[0] == '{' && t[37] == '}' {
        hyphenated_uuid_value(t.subrange(1, 37))
    } else if t.len() == 45 && t.take(9).map_values(|c: char| ascii_lower(c)) == "urn:uuid:"@ {
        hyphenated_uuid_value(t.skip(9))
    } else {
        None
    }
}

/// `uuid::Uuid::parse_str`, as a 128-bit value. Claimed: the result is
/// `uuid_text_value(text)` (the crate's parser checks the length and shape
/// byte by byte, so a text with any non-ASCII character is refused).
#[verifier::external_body]
pub(crate) fn parse_uuid(text: &str) -> (r: Option<u128>)
    ensures
        r == uuid_text_value(text@),
{
    match uuid::Uuid::parse_str(text) {
        Ok(u) => Some(u.as_u128()),
        Err(_) => None,
    }
}

/// `uuid::Uuid::to_string` (the hyphenated lowercase form). Claimed: the
/// text is `uuid_hyphenated_text(u)`.
#[verifier::external_body]
pub(crate) fn uuid_hyphenated(u: u128) -> (s: String)
    ensures
        s@ == uuid_hyphenated_text(u),
{
    uuid::Uuid::from_u128(u).to_string()
}

/// `uuid::Uuid::as_simple().to_string()` (32 lowercase hex digits).
/// Claimed: the text is `uuid_simple_text(u)`.
#[verifier::external_body]
pub(crate) fn uuid_simple(u: u128) -> (s: String)
    ensures
        s@ == uuid_simple_text(u),
{
    uuid::Uuid::from_u128(u).as_simple().to_string()
}

proof fn lemma_hex_digit_value(n: u128)
    requires
        n < 16,
    ensures
        hex_value(hex_digit(n)) == n,
{
}

proof fn lemma_simple_prefix(u: u128, k: int)
    requires
        0 <= k <= 32,
    ensures
        all_hex(uuid_simple_text(u).take(k)),
        hex_number(uuid_simple_text(u).take(k)) == (u >> ((4 * (32 - k)) as u128)) as int,
    decreases k,
{
    let h = uuid_simple_text(u);
    if k == 0 {
        assert(h.take(0) =~= Seq::<char>::empty());
        assert(u >> 128u128 == 0u128) by (bit_vector);
    } else {
        lemma_simple_prefix(u, k - 1);
        let t = h.take(k);
        assert(t.drop_last() =~= h.take(k - 1));
        let s = (4 * (32 - k)) as u128;
        let nib = (u >> s) & 0xFu128;
        assert(nib < 16) by (bit_vector)
            requires
                nib == (u >> s) & 0xFu128,
        ;
        lemma_hex_digit_value(nib);
        assert(t.last() == hex_digit(nib));
        assert((u >> (s + 4)) * 16 + ((u >> s) & 0xFu128) == u >> s) by (bit_vector)
            requires
                s <= 124,
        ;
        assert((4 * (32 - (k - 1))) as u128 == s + 4);
        assert forall|i: int| 0 <= i < t.len() implies #[trigger] hex_value(t[i]) >= 0 by {
            if i < k - 1 {
                assert(t[i] == h.take(k - 1)[i]);
            }
        }
    }
}

/// The simple and hyphenated forms of a UUID read back as the UUID.
pub proof fn law_uuid_text_round_trip(u: u128)
    ensures
        uuid_text_value(uuid_simple_text(u)) == Some(u),
        uuid_text_value(uuid_hyphenated_text(u)) == Some(u),
{
    let h = uuid_simple_text(u);
    lemma_simple_prefix(u, 32);
    assert(h.take(32) =~= h);
    assert(u >> 0u128 == u) by (bit_vector);
    let t = uuid_hyphenated_text(u);
    assert(t.subrange(0, 8) + t.subrange(9, 13) + t.subrange(14, 18) + t.subrange(19, 23)
        + t.subrange(24, 36) =~= h);
}

} // verus!
