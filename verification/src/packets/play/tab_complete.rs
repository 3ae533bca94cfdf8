//! Tab completion packets.

use vstd::prelude::*;

use crate::codec::raw::read_u8;
use crate::codec::spec::{
    lemma_p_byte_round_trips, lemma_string_round_trip, lemma_varint_round_trip, p_string, p_u8,
    p_varint, string_bytes, varint_bytes, SpecParse, MAX_STRING_CHARS,
};
use crate::codec::types::{encode_string, read_string};
use crate::codec::VarInt;
use crate::error::{eof, ErrorClass, ProtocolError, ProtocolResult};
use crate::packets::{packet_round_trips, Packet};
use crate::version::{ConnectionState, Direction, ProtocolVersion};

use crate::registry::PacketKind;

verus! {

/// Tab completion request (Serverbound, 1.13+): a transaction ID and the text.
#[derive(Debug, Clone)]
pub struct STabCompleteRequest {
    pub transaction_id: i32,
    pub text: String,
}

pub struct STabCompleteRequestView {
    pub transaction_id: i32,
    pub text: Seq<char>,
}

impl View for STabCompleteRequest {
    type V = STabCompleteRequestView;

    open spec fn view(&self) -> STabCompleteRequestView {
        STabCompleteRequestView { transaction_id: self.transaction_id, text: self.text@ }
    }
}

impl Packet for STabCompleteRequest {
    open spec fn packet_state() -> ConnectionState {
        ConnectionState::Play
    }

    open spec fn packet_direction() -> Direction {
        Direction::Serverbound
    }

    open spec fn parse(s: Seq<u8>, version: i32) -> SpecParse<STabCompleteRequestView> {
        match p_varint(s, eof()) {
            Err(e) => Err(e),
            Ok((id, r1)) => match p_string(r1, MAX_STRING_CHARS as nat, eof()) {
                Err(e) => Err(e),
                Ok((text, r2)) => Ok((STabCompleteRequestView { transaction_id: id, text }, r2)),
            },
        }
    }

    open spec fn encoding(p: STabCompleteRequestView, version: i32) -> Result<Seq<u8>, ErrorClass> {
        match string_bytes(p.text) {
            Err(e) => Err(e),
            Ok(b) => Ok(varint_bytes(p.transaction_id) + b),
        }
    }

    open spec fn name_text() -> Seq<char> {
        "STabCompleteRequest"@
    }

    fn name() -> (s: &'static str) {
        "STabCompleteRequest"
    }

    open spec fn packet_kind() -> PacketKind {
        PacketKind::STabCompleteRequest
    }

    fn kind() -> (k: PacketKind) {
        PacketKind::STabCompleteRequest
    }

    fn state() -> (s: ConnectionState) {
        ConnectionState::Play
    }

    fn direction() -> (d: Direction) {
        Direction::Serverbound
    }

    fn decode(r: &mut &[u8], version: ProtocolVersion) -> (res: ProtocolResult<STabCompleteRequest>) {
        let transaction_id = match VarInt::read(r, true) {
            Ok(v) => v.0,
            Err(e) => return Err(e),
        };
        match read_string(r, MAX_STRING_CHARS, true) {
            Ok(text) => Ok(STabCompleteRequest { transaction_id, text }),
            Err(e) => Err(e),
        }
    }

    fn encode(&self, w: &mut Vec<u8>, version: ProtocolVersion) -> (res: ProtocolResult<()>) {
        VarInt(self.transaction_id).encode(w);
        match encode_string(self.text.as_str(), w) {
            Ok(()) => {},
            Err(e) => return Err(e),
        }
        assert(w@ =~= old(w)@ + Self::encoding(self@, version.0).unwrap());
        Ok(())
    }
}

/// One completion: its text and an optional tooltip.
#[derive(Debug, Clone)]
pub struct TabCompleteMatch {
    pub text: String,
    pub tooltip: Option<String>,
}

pub struct TabCompleteMatchView {
    pub text: Seq<char>,
    pub tooltip: Option<Seq<char>>,
}

impl View for TabCompleteMatch {
    type V = TabCompleteMatchView;

    open spec fn view(&self) -> TabCompleteMatchView {
        TabCompleteMatchView {
            text: self.text@,
            tooltip: match self.tooltip {
                Some(t) => Some(t@),
                None => None,
            },
        }
    }
}

/// Tab completion response (Clientbound, 1.13+): the transaction ID, the
/// replaced span and the completions.
#[derive(Debug, Clone)]
pub struct CTabCompleteResponse {
    pub transaction_id: i32,
    pub start: i32,
    pub length: i32,
    pub matches: Vec<TabCompleteMatch>,
}

pub struct CTabCompleteResponseView {
    pub transaction_id: i32,
    pub start: i32,
    pub length: i32,
    pub matches: Seq<TabCompleteMatchView>,
}

impl View for CTabCompleteResponse {
    type V = CTabCompleteResponseView;

    open spec fn view(&self) -> CTabCompleteResponseView {
        CTabCompleteResponseView {
            transaction_id: self.transaction_id,
            start: self.start,
            length: self.length,
            matches: self.matches@.map_values(|m: TabCompleteMatch| m@),
        }
    }
}

/// One completion: its text, a tooltip flag byte (any nonzero value means
/// present) and the tooltip when present.
pub open spec fn p_match(s: Seq<u8>) -> SpecParse<TabCompleteMatchView> {
    match p_string(s, MAX_STRING_CHARS as nat, eof()) {
        Err(e) => Err(e),
        Ok((text, r1)) => match p_u8(r1, eof()) {
            Err(e) => Err(e),
            Ok((flag, r2)) => if flag != 0 {
                match p_string(r2, MAX_STRING_CHARS as nat, eof()) {
                    Err(e) => Err(e),
                    Ok((tip, r3)) => Ok((TabCompleteMatchView { text, tooltip: Some(tip) }, r3)),
                }
            } else {
                Ok((TabCompleteMatchView { text, tooltip: None }, r2))
            },
        },
    }
}

/// `n` completions.
pub open spec fn p_matches(s: Seq<u8>, n: nat) -> SpecParse<Seq<TabCompleteMatchView>>
    decreases n,
{
    if n == 0 {
        Ok((seq![], s))
    } else {
        match p_match(s) {
            Err(e) => Err(e),
            Ok((m, r1)) => match p_matches(r1, (n - 1) as nat) {
                Err(e) => Err(e),
                Ok((ms, r2)) => Ok((seq![m] + ms, r2)),
            },
        }
    }
}

/// The bytes of one completion: the flag byte is 1 with a tooltip, 0 without.
pub open spec fn match_bytes(m: TabCompleteMatchView) -> Result<Seq<u8>, ErrorClass> {
    match string_bytes(m.text) {
        Err(e) => Err(e),
        Ok(t) => match m.tooltip {
            Some(tip) => match string_bytes(tip) {
                Err(e) => Err(e),
                Ok(b) => Ok(t + seq![1u8] + b),
            },
            None => Ok(t + seq![0u8]),
        },
    }
}

/// The bytes of a sequence of completions; the first that fails decides.
pub open spec fn matches_bytes(ms: Seq<TabCompleteMatchView>) -> Result<Seq<u8>, ErrorClass>
    decreases ms.len(),
{
    if ms.len() == 0 {
        Ok(seq![])
    } else {
        match matches_bytes(ms.drop_last()) {
            Err(e) => Err(e),
            Ok(a) => match match_bytes(ms.last()) {
                Err(e) => Err(e),
                Ok(b) => Ok(a + b),
            },
        }
    }
}

proof fn lemma_matches_bytes_prefix_err(ms: Seq<TabCompleteMatchView>, k: int)
    requires
        0 <= k <= ms.len(),
        matches_bytes(ms.take(k)) is Err,
    ensures
        matches_bytes(ms) == matches_bytes(ms.take(k)),
    decreases ms.len() - k,
{
    if k < ms.len() {
        let m = ms.drop_last();
        assert(m.take(k) =~= ms.take(k));
        lemma_matches_bytes_prefix_err(m, k);
    } else {
        assert(ms.take(k) =~= ms);
    }
}

fn decode_match(r: &mut &[u8]) -> (res: ProtocolResult<TabCompleteMatch>)
    ensures
        crate::codec::spec::parsed_view(p_match(old(r)@), res, final(r)@),
{
    let text = match read_string(r, MAX_STRING_CHARS, true) {
        Ok(t) => t,
        Err(e) => return Err(e),
    };
    let flag = match read_u8(r, true, "u8") {
        Ok(f) => f,
        Err(e) => return Err(e),
    };
    if flag != 0 {
        match read_string(r, MAX_STRING_CHARS, true) {
            Ok(tip) => Ok(TabCompleteMatch { text, tooltip: Some(tip) }),
            Err(e) => Err(e),
        }
    } else {
        Ok(TabCompleteMatch { text, tooltip: None })
    }
}

fn encode_match(m: &TabCompleteMatch, w: &mut Vec<u8>) -> (res: ProtocolResult<()>)
    ensures
        crate::codec::spec::written(match_bytes(m@), res, old(w)@, final(w)@),
{
    match encode_string(m.text.as_str(), w) {
        Ok(()) => {},
        Err(e) => return Err(e),
    }
    match &m.tooltip {
        Some(tip) => {
            w.push(1u8);
            match encode_string(tip.as_str(), w) {
                Ok(()) => {},
                Err(e) => return Err(e),
            }
        },
        None => {
            w.push(0u8);
        },
    }
    assert(w@ =~= old(w)@ + match_bytes(m@).unwrap());
    Ok(())
}

impl Packet for CTabCompleteResponse {
    open spec fn packet_state() -> ConnectionState {
        ConnectionState::Play
    }

    open spec fn packet_direction() -> Direction {
        Direction::Clientbound
    }

    open spec fn parse(s: Seq<u8>, version: i32) -> SpecParse<CTabCompleteResponseView> {
        match p_varint(s, eof()) {
            Err(e) => Err(e),
            Ok((id, r1)) => match p_varint(r1, eof()) {
                Err(e) => Err(e),
                Ok((start, r2)) => match p_varint(r2, eof()) {
                    Err(e) => Err(e),
                    Ok((length, r3)) => match p_varint(r3, eof()) {
                        Err(e) => Err(e),
                        Ok((count, r4)) => if count < 0 {
                            Err(ErrorClass::Invalid)
                        } else {
                            match p_matches(r4, count as nat) {
                                Err(e) => Err(e),
                                Ok((ms, r5)) => Ok(
                                    (
                                        CTabCompleteResponseView {
                                            transaction_id: id,
                                            start,
                                            length,
                                            matches: ms,
                                        },
                                        r5,
                                    ),
                                ),
                            }
                        },
                    },
                },
            },
        }
    }

    open spec fn encoding(p: CTabCompleteResponseView, version: i32) -> Result<Seq<u8>, ErrorClass> {
        match matches_bytes(p.matches) {
            Err(e) => Err(e),
            Ok(b) => Ok(
                varint_bytes(p.transaction_id) + varint_bytes(p.start) + varint_bytes(p.length)
                    + varint_bytes(p.matches.len() as i32) + b,
            ),
        }
    }

    open spec fn name_text() -> Seq<char> {
        "CTabCompleteResponse"@
    }

    fn name() -> (s: &'static str) {
        "CTabCompleteResponse"
    }

    open spec fn packet_kind() -> PacketKind {
        PacketKind::CTabCompleteResponse
    }

    fn kind() -> (k: PacketKind) {
        PacketKind::CTabCompleteResponse
    }

    fn state() -> (s: ConnectionState) {
        ConnectionState::Play
    }

    fn direction() -> (d: Direction) {
        Direction::Clientbound
    }

    fn decode(r: &mut &[u8], version: ProtocolVersion) -> (res: ProtocolResult<CTabCompleteResponse>) {
        let transaction_id = match VarInt::read(r, true) {
            Ok(v) => v.0,
            Err(e) => return Err(e),
        };
        let start = match VarInt::read(r, true) {
            Ok(v) => v.0,
            Err(e) => return Err(e),
        };
        let length = match VarInt::read(r, true) {
            Ok(v) => v.0,
            Err(e) => return Err(e),
        };
        let ghost before_count = r@;
        let count = match VarInt::read(r, true) {
            Ok(v) => v.0,
            Err(e) => return Err(e),
        };
        if count < 0 {
            return Err(ProtocolError::invalid("negative match count"));
        }
        let ghost s0 = r@;
        let ghost mut acc: Seq<TabCompleteMatchView> = seq![];
        let mut matches: Vec<TabCompleteMatch> = Vec::new();
        let mut i: i32 = 0;
        while i < count
            invariant
                0 <= i <= count,
                p_varint(before_count, eof()) == Ok::<(i32, Seq<u8>), ErrorClass>((count, s0)),
                Self::parse(old(r)@, version.0) == match p_matches(s0, count as nat) {
                    Err(e) => Err(e),
                    Ok((ms, r5)) => Ok::<(CTabCompleteResponseView, Seq<u8>), ErrorClass>(
                        (
                            CTabCompleteResponseView { transaction_id, start, length, matches: ms },
                            r5,
                        ),
                    ),
                },
                acc.len() == matches@.len(),
                forall|k: int| 0 <= k < acc.len() ==> acc[k] == #[trigger] matches@[k]@,
                p_matches(s0, count as nat) == match p_matches(r@, (count - i) as nat) {
                    Ok((ms, rest)) => Ok((acc + ms, rest)),
                    Err(e) => Err(e),
                },
            decreases count - i,
        {
            let m = match decode_match(r) {
                Ok(m) => m,
                Err(e) => return Err(e),
            };
            let ghost mv = m@;
            matches.push(m);
            i = i + 1;
            proof {
                let prev = acc;
                acc = acc.push(mv);
                match p_matches(r@, (count - i) as nat) {
                    Ok((ms, rest)) => {
                        assert(prev + (seq![mv] + ms) =~= acc + ms);
                    },
                    Err(_) => {},
                }
            }
        }
        assert(matches@.map_values(|m: TabCompleteMatch| m@) =~= acc);
        assert(acc + seq![] =~= acc);
        Ok(CTabCompleteResponse { transaction_id, start, length, matches })
    }

    fn encode(&self, w: &mut Vec<u8>, version: ProtocolVersion) -> (res: ProtocolResult<()>) {
        VarInt(self.transaction_id).encode(w);
        VarInt(self.start).encode(w);
        VarInt(self.length).encode(w);
        VarInt(self.matches.len() as i32).encode(w);
        let ghost vs = self@.matches;
        let ghost start = w@;
        let n = self.matches.len();
        let mut i: usize = 0;
        while i < n
            invariant
                i <= n,
                n == self.matches@.len(),
                vs == self.matches@.map_values(|x: TabCompleteMatch| x@),
                matches_bytes(vs.take(i as int)) is Ok,
                w@ == start + matches_bytes(vs.take(i as int)).unwrap(),
            decreases n - i,
        {
            assert(vs.take(i + 1).drop_last() =~= vs.take(i as int));
            assert(vs[i as int] == self.matches@[i as int]@);
            match encode_match(&self.matches[i], w) {
                Ok(()) => {},
                Err(e) => {
                    proof {
                        lemma_matches_bytes_prefix_err(vs, i + 1);
                    }
                    return Err(e);
                },
            }
            i = i + 1;
        }
        assert(vs.take(n as int) =~= vs);
        assert(w@ =~= old(w)@ + Self::encoding(self@, version.0).unwrap());
        Ok(())
    }
}

// ---------------------------------------------------------------------------
// Round trips
// ---------------------------------------------------------------------------
/// The strings of a completion fit the protocol limit.
pub open spec fn match_fits(m: TabCompleteMatchView) -> bool {
    &&& m.text.len() <= MAX_STRING_CHARS
    &&& (m.tooltip matches Some(t) ==> t.len() <= MAX_STRING_CHARS)
}

/// Every completion of `ms` fits the protocol limit.
pub open spec fn matches_fit(ms: Seq<TabCompleteMatchView>) -> bool {
    forall|i: int| 0 <= i < ms.len() ==> match_fits(#[trigger] ms[i])
}

proof fn lemma_match_round_trip(m: TabCompleteMatchView, rest: Seq<u8>)
    requires
        match_fits(m),
    ensures
        match_bytes(m) is Ok,
        p_match(match_bytes(m).unwrap() + rest) == Ok::<(TabCompleteMatchView, Seq<u8>), ErrorClass>(
            (m, rest),
        ),
{
    lemma_string_round_trip(m.text, seq![], MAX_STRING_CHARS as nat, eof());
    let t = string_bytes(m.text).unwrap();
    match m.tooltip {
        Some(tip) => {
            lemma_string_round_trip(tip, rest, MAX_STRING_CHARS as nat, eof());
            let b = string_bytes(tip).unwrap();
            assert(t + seq![1u8] + b + rest =~= t + (seq![1u8] + (b + rest)));
            lemma_string_round_trip(m.text, seq![1u8] + (b + rest), MAX_STRING_CHARS as nat, eof());
            lemma_p_byte_round_trips(1u8, false, b + rest, eof());
        },
        None => {
            assert(t + seq![0u8] + rest =~= t + (seq![0u8] + rest));
            lemma_string_round_trip(m.text, seq![0u8] + rest, MAX_STRING_CHARS as nat, eof());
            lemma_p_byte_round_trips(0u8, false, rest, eof());
        },
    }
}

/// Completions that fit are written front to back.
proof fn lemma_matches_bytes_front(ms: Seq<TabCompleteMatchView>)
    requires
        matches_fit(ms),
    ensures
        matches_bytes(ms) is Ok,
        ms.len() > 0 ==> matches_bytes(ms).unwrap() == match_bytes(ms[0]).unwrap() + matches_bytes(
            ms.drop_first(),
        ).unwrap(),
    decreases ms.len(),
{
    if ms.len() > 0 {
        let m = ms.drop_last();
        assert(matches_fit(m)) by {
            assert forall|i: int| 0 <= i < m.len() implies match_fits(#[trigger] m[i]) by {
                assert(m[i] == ms[i]);
            }
        }
        assert(ms.last() == ms[ms.len() - 1]);
        assert(match_fits(ms[ms.len() - 1]));
        lemma_match_round_trip(ms.last(), seq![]);
        lemma_matches_bytes_front(m);
        if ms.len() == 1 {
            assert(m =~= seq![]);
            assert(ms.drop_first() =~= seq![]);
            assert(seq![] + match_bytes(ms.last()).unwrap() =~= match_bytes(ms[0]).unwrap());
            assert(match_bytes(ms[0]).unwrap() + seq![] =~= match_bytes(ms[0]).unwrap());
        } else {
            let t = ms.drop_first();
            assert(matches_fit(t)) by {
                assert forall|i: int| 0 <= i < t.len() implies match_fits(#[trigger] t[i]) by {
                    assert(t[i] == ms[i + 1]);
                }
            }
            lemma_matches_bytes_front(t);
            assert(t.drop_last() =~= m.drop_first());
            assert(t.last() == ms.last());
            assert(m[0] == ms[0]);
            let a = match_bytes(ms[0]).unwrap();
            let b = matches_bytes(m.drop_first()).unwrap();
            let c = match_bytes(ms.last()).unwrap();
            assert(a + b + c =~= a + (b + c));
        }
    }
}

proof fn lemma_matches_round_trip(ms: Seq<TabCompleteMatchView>, rest: Seq<u8>)
    requires
        matches_fit(ms),
    ensures
        matches_bytes(ms) is Ok,
        p_matches(matches_bytes(ms).unwrap() + rest, ms.len()) == Ok::<
            (Seq<TabCompleteMatchView>, Seq<u8>),
            ErrorClass,
        >((ms, rest)),
    decreases ms.len(),
{
    lemma_matches_bytes_front(ms);
    if ms.len() == 0 {
        assert(seq![] + rest =~= rest);
        assert(ms =~= seq![]);
    } else {
        let t = ms.drop_first();
        assert(matches_fit(t)) by {
            assert forall|i: int| 0 <= i < t.len() implies match_fits(#[trigger] t[i]) by {
                assert(t[i] == ms[i + 1]);
            }
        }
        assert(match_fits(ms[0]));
        lemma_matches_round_trip(t, rest);
        let a = match_bytes(ms[0]).unwrap();
        let b = matches_bytes(t).unwrap();
        assert(a + b + rest =~= a + (b + rest));
        lemma_match_round_trip(ms[0], b + rest);
        assert(t.len() == (ms.len() - 1) as nat);
        assert(p_matches(a + (b + rest), ms.len()) == Ok::<
            (Seq<TabCompleteMatchView>, Seq<u8>),
            ErrorClass,
        >((seq![ms[0]] + t, rest)));
        assert(seq![ms[0]] + t =~= ms);
    }
}

/// A tab-completion request whose text fits the protocol limit, and a
/// response whose completions fit it and can be counted in a `VarInt`,
/// read back as written, with what follows untouched.
pub proof fn law_tab_complete_round_trips(
    q: STabCompleteRequestView,
    p: CTabCompleteResponseView,
    version: i32,
    rest: Seq<u8>,
)
    requires
        q.text.len() <= MAX_STRING_CHARS,
        matches_fit(p.matches),
        p.matches.len() <= i32::MAX,
    ensures
        packet_round_trips::<STabCompleteRequest>(q, version, rest),
        packet_round_trips::<CTabCompleteResponse>(p, version, rest),
{
    lemma_string_round_trip(q.text, rest, MAX_STRING_CHARS as nat, eof());
    let t = string_bytes(q.text).unwrap();
    assert(varint_bytes(q.transaction_id) + t + rest =~= varint_bytes(q.transaction_id) + (t + rest));
    lemma_varint_round_trip(q.transaction_id, t + rest, eof());

    lemma_matches_round_trip(p.matches, rest);
    let b = matches_bytes(p.matches).unwrap();
    let n = p.matches.len() as i32;
    let r4 = b + rest;
    let r3 = varint_bytes(n) + r4;
    let r2 = varint_bytes(p.length) + r3;
    let r1 = varint_bytes(p.start) + r2;
    assert(CTabCompleteResponse::encoding(p, version).unwrap() + rest =~= varint_bytes(
        p.transaction_id,
    ) + r1);
    lemma_varint_round_trip(p.transaction_id, r1, eof());
    lemma_varint_round_trip(p.start, r2, eof());
    lemma_varint_round_trip(p.length, r3, eof());
    lemma_varint_round_trip(n, r4, eof());
    assert(n as nat == p.matches.len());
}

} // verus!
