//! Protocol version, connection state, and packet direction types.
//!
//! These types form the foundation of the packet registry, enabling
//! version-aware packet encoding/decoding across the full range of supported
//! Minecraft protocol versions.

use vstd::prelude::*;

use crate::text::{i32_decimal, i32_string};

verus! {

/// A Minecraft protocol version identifier.
///
/// Wraps the numeric protocol ID (e.g., 767 for Minecraft 1.21).
/// The ordering matches protocol IDs: newer versions are greater.
#[derive(Debug, Clone, Copy, PartialEq, Eq, PartialOrd, Ord, Hash, Structural)]
pub struct ProtocolVersion(pub i32);

// Protocol IDs of the named Minecraft versions.
/// Unknown protocol version.
pub const UNKNOWN: i32 = -1;
/// Legacy protocol (Beta 1.8 to MC 1.6, pre-Netty).
pub const LEGACY: i32 = 0;
/// Minecraft 1.7.2
pub const V1_7_2: i32 = 4;
/// Minecraft 1.7.6
pub const V1_7_6: i32 = 5;
/// Minecraft 1.8
pub const V1_8: i32 = 47;
/// Minecraft 1.9
pub const V1_9: i32 = 107;
/// Minecraft 1.9.2
pub const V1_9_2: i32 = 109;
/// Minecraft 1.9.4
pub const V1_9_4: i32 = 110;
/// Minecraft 1.12
pub const V1_12: i32 = 335;
/// Minecraft 1.12.1
pub const V1_12_1: i32 = 338;
/// Minecraft 1.12.2
pub const V1_12_2: i32 = 340;
/// Minecraft 1.13
pub const V1_13: i32 = 393;
/// Minecraft 1.14
pub const V1_14: i32 = 477;
/// Minecraft 1.15
pub const V1_15: i32 = 573;
/// Minecraft 1.16
pub const V1_16: i32 = 735;
/// Minecraft 1.16.2
pub const V1_16_2: i32 = 751;
/// Minecraft 1.16.4
pub const V1_16_4: i32 = 754;
/// Minecraft 1.17
pub const V1_17: i32 = 755;
/// Minecraft 1.18
pub const V1_18: i32 = 757;
/// Minecraft 1.18.2
pub const V1_18_2: i32 = 758;
/// Minecraft 1.19
pub const V1_19: i32 = 759;
/// Minecraft 1.19.1
pub const V1_19_1: i32 = 760;
/// Minecraft 1.19.3
pub const V1_19_3: i32 = 761;
/// Minecraft 1.19.4
pub const V1_19_4: i32 = 762;
/// Minecraft 1.20
pub const V1_20: i32 = 763;
/// Minecraft 1.20.2
pub const V1_20_2: i32 = 764;
/// Minecraft 1.20.3
pub const V1_20_3: i32 = 765;
/// Minecraft 1.20.5
pub const V1_20_5: i32 = 766;
/// Minecraft 1.21
pub const V1_21: i32 = 767;
/// Minecraft 1.21.2
pub const V1_21_2: i32 = 768;
/// Minecraft 1.21.4
pub const V1_21_4: i32 = 769;
/// Minecraft 1.21.5
pub const V1_21_5: i32 = 770;
/// Minecraft 1.21.6
pub const V1_21_6: i32 = 771;
/// Minecraft 1.21.7
pub const V1_21_7: i32 = 772;
/// Minecraft 1.21.9
pub const V1_21_9: i32 = 773;
/// Minecraft 1.21.11
pub const V1_21_11: i32 = 774;

/// The supported protocol versions, in ascending order.
pub open spec fn supported_versions() -> Seq<ProtocolVersion> {
    seq![ProtocolVersion(4), ProtocolVersion(5), ProtocolVersion(47), ProtocolVersion(107), ProtocolVersion(109), ProtocolVersion(110), ProtocolVersion(335), ProtocolVersion(338), ProtocolVersion(340), ProtocolVersion(393), ProtocolVersion(477), ProtocolVersion(573), ProtocolVersion(735), ProtocolVersion(751), ProtocolVersion(754), ProtocolVersion(755), ProtocolVersion(757), ProtocolVersion(758), ProtocolVersion(759), ProtocolVersion(760), ProtocolVersion(761), ProtocolVersion(762), ProtocolVersion(763), ProtocolVersion(764), ProtocolVersion(765), ProtocolVersion(766), ProtocolVersion(767), ProtocolVersion(768), ProtocolVersion(769), ProtocolVersion(770), ProtocolVersion(771), ProtocolVersion(772), ProtocolVersion(773), ProtocolVersion(774)]
}

/// The supported versions in the inclusive range `[from, to]`, in ascending order.
pub open spec fn versions_between(from: ProtocolVersion, to: ProtocolVersion) -> Seq<ProtocolVersion> {
    supported_versions().filter(|v: ProtocolVersion| from.0 <= v.0 && v.0 <= to.0)
}

/// The human-readable name of a known protocol ID.
pub open spec fn version_label(id: i32) -> Option<Seq<char>> {
    if id == 0 {
        Some("legacy"@)
    } else if id == 4 {
            Some("1.7.2"@)
        } else if id == 5 {
            Some("1.7.6"@)
        } else if id == 47 {
            Some("1.8"@)
        } else if id == 107 {
            Some("1.9"@)
        } else if id == 109 {
            Some("1.9.2"@)
        } else if id == 110 {
            Some("1.9.4"@)
        } else if id == 335 {
            Some("1.12"@)
        } else if id == 338 {
            Some("1.12.1"@)
        } else if id == 340 {
            Some("1.12.2"@)
        } else if id == 393 {
            Some("1.13"@)
        } else if id == 477 {
            Some("1.14"@)
        } else if id == 573 {
            Some("1.15"@)
        } else if id == 735 {
            Some("1.16"@)
        } else if id == 751 {
            Some("1.16.2"@)
        } else if id == 754 {
            Some("1.16.4"@)
        } else if id == 755 {
            Some("1.17"@)
        } else if id == 757 {
            Some("1.18"@)
        } else if id == 758 {
            Some("1.18.2"@)
        } else if id == 759 {
            Some("1.19"@)
        } else if id == 760 {
            Some("1.19.1"@)
        } else if id == 761 {
            Some("1.19.3"@)
        } else if id == 762 {
            Some("1.19.4"@)
        } else if id == 763 {
            Some("1.20"@)
        } else if id == 764 {
            Some("1.20.2"@)
        } else if id == 765 {
            Some("1.20.3"@)
        } else if id == 766 {
            Some("1.20.5"@)
        } else if id == 767 {
            Some("1.21"@)
        } else if id == 768 {
            Some("1.21.2"@)
        } else if id == 769 {
            Some("1.21.4"@)
        } else if id == 770 {
            Some("1.21.5"@)
        } else if id == 771 {
            Some("1.21.6"@)
        } else if id == 772 {
            Some("1.21.7"@)
        } else if id == 773 {
            Some("1.21.9"@)
        } else if id == 774 {
            Some("1.21.11"@)
    } else {
        None
    }
}

/// The name of a protocol ID, `"unknown"` for unrecognized IDs.
pub open spec fn version_name(id: i32) -> Seq<char> {
    match version_label(id) {
        Some(n) => n,
        None => "unknown"@,
    }
}

impl ProtocolVersion {
    /// All supported protocol versions, sorted in ascending order.
    ///
    /// Excludes [`UNKNOWN`](Self::UNKNOWN) and [`LEGACY`](Self::LEGACY).
    pub fn supported() -> (v: Vec<ProtocolVersion>)
        ensures
            v@ == supported_versions(),
    {
        let v = vec![
            ProtocolVersion(V1_7_2),
            ProtocolVersion(V1_7_6),
            ProtocolVersion(V1_8),
            ProtocolVersion(V1_9),
            ProtocolVersion(V1_9_2),
            ProtocolVersion(V1_9_4),
            ProtocolVersion(V1_12),
            ProtocolVersion(V1_12_1),
            ProtocolVersion(V1_12_2),
            ProtocolVersion(V1_13),
            ProtocolVersion(V1_14),
            ProtocolVersion(V1_15),
            ProtocolVersion(V1_16),
            ProtocolVersion(V1_16_2),
            ProtocolVersion(V1_16_4),
            ProtocolVersion(V1_17),
            ProtocolVersion(V1_18),
            ProtocolVersion(V1_18_2),
            ProtocolVersion(V1_19),
            ProtocolVersion(V1_19_1),
            ProtocolVersion(V1_19_3),
            ProtocolVersion(V1_19_4),
            ProtocolVersion(V1_20),
            ProtocolVersion(V1_20_2),
            ProtocolVersion(V1_20_3),
            ProtocolVersion(V1_20_5),
            ProtocolVersion(V1_21),
            ProtocolVersion(V1_21_2),
            ProtocolVersion(V1_21_4),
            ProtocolVersion(V1_21_5),
            ProtocolVersion(V1_21_6),
            ProtocolVersion(V1_21_7),
            ProtocolVersion(V1_21_9),
            ProtocolVersion(V1_21_11),
        ];
        assert(v@ =~= supported_versions());
        v
    }

    /// Returns `true` if `self >= other`.
    pub fn no_less_than(self, other: ProtocolVersion) -> (b: bool)
        ensures
            b == (self.0 >= other.0),
    {
        self.0 >= other.0
    }

    /// Returns `true` if `self <= other`.
    pub fn no_greater_than(self, other: ProtocolVersion) -> (b: bool)
        ensures
            b == (self.0 <= other.0),
    {
        self.0 <= other.0
    }

    /// Returns `true` if `self < other`.
    pub fn less_than(self, other: ProtocolVersion) -> (b: bool)
        ensures
            b == (self.0 < other.0),
    {
        self.0 < other.0
    }

    /// Returns `true` if `self > other`.
    pub fn greater_than(self, other: ProtocolVersion) -> (b: bool)
        ensures
            b == (self.0 > other.0),
    {
        self.0 > other.0
    }

    /// Returns `true` if this is a legacy (pre-Netty) protocol version.
    pub fn is_legacy(self) -> (b: bool)
        ensures
            b == (self.0 == 0),
    {
        self.0 <= 0 && self.0 >= 0
    }

    /// Returns `true` if this version is unknown.
    pub fn is_unknown(self) -> (b: bool)
        ensures
            b == (self.0 == -1),
    {
        self.0 == -1
    }

    /// The human-readable name of a known version, `None` otherwise.
    fn label(self) -> (r: Option<&'static str>)
        ensures
            match r {
                Some(s) => version_label(self.0) == Some(s@),
                None => version_label(self.0) is None,
            },
    {
        match self.0 {
            0 => Some("legacy"),
            4 => Some("1.7.2"),
            5 => Some("1.7.6"),
            47 => Some("1.8"),
            107 => Some("1.9"),
            109 => Some("1.9.2"),
            110 => Some("1.9.4"),
            335 => Some("1.12"),
            338 => Some("1.12.1"),
            340 => Some("1.12.2"),
            393 => Some("1.13"),
            477 => Some("1.14"),
            573 => Some("1.15"),
            735 => Some("1.16"),
            751 => Some("1.16.2"),
            754 => Some("1.16.4"),
            755 => Some("1.17"),
            757 => Some("1.18"),
            758 => Some("1.18.2"),
            759 => Some("1.19"),
            760 => Some("1.19.1"),
            761 => Some("1.19.3"),
            762 => Some("1.19.4"),
            763 => Some("1.20"),
            764 => Some("1.20.2"),
            765 => Some("1.20.3"),
            766 => Some("1.20.5"),
            767 => Some("1.21"),
            768 => Some("1.21.2"),
            769 => Some("1.21.4"),
            770 => Some("1.21.5"),
            771 => Some("1.21.6"),
            772 => Some("1.21.7"),
            773 => Some("1.21.9"),
            774 => Some("1.21.11"),
            _ => None,
        }
    }

    /// Returns the human-readable Minecraft version name, `"unknown"` for
    /// unrecognized protocol IDs.
    pub fn name(self) -> (s: &'static str)
        ensures
            s@ == version_name(self.0),
    {
        match self.label() {
            Some(n) => n,
            None => "unknown",
        }
    }

    /// The supported versions in the inclusive range `[from, to]`; empty
    /// when `from > to`.
    pub fn range(from: ProtocolVersion, to: ProtocolVersion) -> (v: Vec<ProtocolVersion>)
        ensures
            v@ == versions_between(from, to),
    {
        let all = ProtocolVersion::supported();
        let ghost pred = |v: ProtocolVersion| from.0 <= v.0 && v.0 <= to.0;
        let mut out: Vec<ProtocolVersion> = Vec::new();
        let mut i: usize = 0;
        while i < all.len()
            invariant
                i <= all@.len(),
                all@ == supported_versions(),
                pred == (|v: ProtocolVersion| from.0 <= v.0 && v.0 <= to.0),
                out@ == all@.take(i as int).filter(pred),
            decreases all@.len() - i,
        {
            let v = all[i];
            proof {
                reveal(Seq::filter);
                assert(all@.take(i + 1).drop_last() =~= all@.take(i as int));
            }
            if v.no_less_than(from) && v.no_greater_than(to) {
                out.push(v);
            }
            i = i + 1;
        }
        assert(all@.take(i as int) =~= all@);
        out
    }

    /// Returns the number of supported versions in the inclusive range `[from, to]`.
    pub fn range_count(from: ProtocolVersion, to: ProtocolVersion) -> (n: usize)
        ensures
            n == versions_between(from, to).len(),
    {
        ProtocolVersion::range(from, to).len()
    }

    /// How the version is shown: its name, or `protocol:<id>` when unknown.
    pub fn display(&self) -> (s: String)
        ensures
            s@ == match version_label(self.0) {
                Some(n) => n,
                None => "protocol:"@ + i32_decimal(self.0),
            },
    {
        match self.label() {
            Some(n) => n.to_string(),
            None => {
                let mut s = "protocol:".to_string();
                s.append(i32_string(self.0).as_str());
                s
            },
        }
    }
}

/// The state of a Minecraft protocol connection.
///
/// Connections progress through states: Handshake → Status or Login → (Config →) Play.
/// Each state has its own set of valid packet IDs.
#[derive(Debug, Clone, Copy, PartialEq, Eq, Hash, Structural)]
pub enum ConnectionState {
    /// Initial state. The client sends a handshake packet to declare intent.
    Handshake,
    /// Server list ping / status query.
    Status,
    /// Authentication and login flow.
    Login,
    /// Configuration state, added in 1.20.2 (protocol 764).
    Config,
    /// Main gameplay state.
    Play,
}

/// The `next_state` value a Handshake packet uses to request `s`.
pub open spec fn handshake_id_of(s: ConnectionState) -> Option<i32> {
    match s {
        ConnectionState::Status => Some(1i32),
        ConnectionState::Login => Some(2i32),
        _ => None::<i32>,
    }
}

/// The state a Handshake packet's `next_state` value requests.
pub open spec fn state_of_handshake_id(id: i32) -> Option<ConnectionState> {
    if id == 1 {
        Some(ConnectionState::Status)
    } else if id == 2 || id == 3 {
        Some(ConnectionState::Login)
    } else {
        None::<ConnectionState>
    }
}

impl ConnectionState {
    /// The `next_state` value a Handshake packet uses to request this state:
    /// `Status` is 1, `Login` is 2; the other states cannot be requested.
    pub fn handshake_id(self) -> (id: Option<i32>)
        ensures
            id == handshake_id_of(self),
    {
        match self {
            ConnectionState::Status => Some(1),
            ConnectionState::Login => Some(2),
            ConnectionState::Handshake | ConnectionState::Config | ConnectionState::Play => None,
        }
    }

    /// Resolves a Handshake packet's `next_state` field: 1 is `Status`; 2, and
    /// 3 (the Transfer intent of 1.20.5, whose flow is that of a login), are
    /// `Login`; anything else is `None`.
    pub fn from_handshake_id(id: i32) -> (s: Option<ConnectionState>)
        ensures
            s == state_of_handshake_id(id),
    {
        match id {
            1 => Some(ConnectionState::Status),
            2 | 3 => Some(ConnectionState::Login),
            _ => None,
        }
    }

    /// The lowercase name of the state.
    pub fn as_str(self) -> (s: &'static str)
        ensures
            s@ == match self {
                ConnectionState::Handshake => "handshake"@,
                ConnectionState::Status => "status"@,
                ConnectionState::Login => "login"@,
                ConnectionState::Config => "config"@,
                ConnectionState::Play => "play"@,
            },
    {
        match self {
            ConnectionState::Handshake => "handshake",
            ConnectionState::Status => "status",
            ConnectionState::Login => "login",
            ConnectionState::Config => "config",
            ConnectionState::Play => "play",
        }
    }
}

/// The direction of a packet in the Minecraft protocol.
#[derive(Debug, Clone, Copy, PartialEq, Eq, Hash, Structural)]
pub enum Direction {
    /// Client → Server.
    Serverbound,
    /// Server → Client.
    Clientbound,
}

impl Direction {
    /// Returns the opposite direction.
    pub fn opposite(self) -> (d: Direction)
        ensures
            d != self,
    {
        match self {
            Direction::Serverbound => Direction::Clientbound,
            Direction::Clientbound => Direction::Serverbound,
        }
    }

    /// The lowercase name of the direction.
    pub fn as_str(self) -> (s: &'static str)
        ensures
            s@ == match self {
                Direction::Serverbound => "serverbound"@,
                Direction::Clientbound => "clientbound"@,
            },
    {
        match self {
            Direction::Serverbound => "serverbound",
            Direction::Clientbound => "clientbound",
        }
    }
}

/// Requesting a state by its handshake ID leads back to that state.
pub proof fn law_handshake_id_round_trip(s: ConnectionState)
    ensures
        handshake_id_of(s) matches Some(id) ==> state_of_handshake_id(id) == Some(s),
{
}

/// Strictly ascending versions stay strictly ascending when filtered.
proof fn lemma_filter_ascending(s: Seq<ProtocolVersion>, pred: spec_fn(ProtocolVersion) -> bool)
    requires
        forall|i: int, j: int| 0 <= i < j < s.len() ==> #[trigger] s[i].0 < #[trigger] s[j].0,
    ensures
        forall|i: int, j: int|
            0 <= i < j < s.filter(pred).len() ==> #[trigger] s.filter(pred)[i].0 < #[trigger] s.filter(
                pred,
            )[j].0,
    decreases s.len(),
{
    reveal(Seq::filter);
    if s.len() > 0 {
        let d = s.drop_last();
        assert forall|i: int, j: int| 0 <= i < j < d.len() implies #[trigger] d[i].0 < #[trigger] d[j].0 by {
            assert(d[i] == s[i] && d[j] == s[j]);
        }
        lemma_filter_ascending(d, pred);
        let f = d.filter(pred);
        if pred(s.last()) {
            let g = f.push(s.last());
            assert forall|i: int, j: int| 0 <= i < j < g.len() implies #[trigger] g[i].0 < #[trigger] g[j].0 by {
                if j == f.len() {
                    assert(f.contains(f[i]));
                    d.lemma_filter_contains_rev(pred, f[i]);
                    let k = choose|k: int| 0 <= k < d.len() && d[k] == f[i];
                    assert(s[k] == d[k]);
                    assert(s.last() == s[s.len() - 1]);
                } else {
                    assert(g[i] == f[i] && g[j] == f[j]);
                }
            }
        }
    }
}

/// The versions of a range are supported versions inside its bounds, in
/// strictly ascending order; every supported version inside the bounds is
/// there.
pub proof fn law_range_members(from: ProtocolVersion, to: ProtocolVersion)
    ensures
        forall|i: int, j: int|
            0 <= i < j < versions_between(from, to).len() ==> #[trigger] versions_between(from, to)[i].0
                < #[trigger] versions_between(from, to)[j].0,
        forall|i: int|
            0 <= i < versions_between(from, to).len() ==> from.0 <= #[trigger] versions_between(
                from,
                to,
            )[i].0 <= to.0 && supported_versions().contains(versions_between(from, to)[i]),
        forall|v: ProtocolVersion|
            supported_versions().contains(v) && from.0 <= v.0 <= to.0 ==> #[trigger] versions_between(
                from,
                to,
            ).contains(v),
        from.0 > to.0 ==> versions_between(from, to).len() == 0,
{
    let pred = |v: ProtocolVersion| from.0 <= v.0 && v.0 <= to.0;
    let all = supported_versions();
    let f = versions_between(from, to);
    law_supported_versions_sorted();
    lemma_filter_ascending(all, pred);
    assert forall|i: int| 0 <= i < f.len() implies from.0 <= #[trigger] f[i].0 <= to.0
        && all.contains(f[i]) by {
        all.lemma_filter_pred(pred, i);
        assert(f.contains(f[i]));
        all.lemma_filter_contains_rev(pred, f[i]);
    }
    assert forall|v: ProtocolVersion| all.contains(v) && from.0 <= v.0 <= to.0 implies #[trigger] f.contains(v) by {
        let j = choose|j: int| 0 <= j < all.len() && all[j] == v;
        all.lemma_filter_contains(pred, j);
    }
    if from.0 > to.0 {
        if f.len() > 0 {
            all.lemma_filter_pred(pred, 0);
        }
    }
}

/// From index `k` on, each version of `s` is below the next.
pub open spec fn ascending_from(s: Seq<ProtocolVersion>, k: int) -> bool
    decreases s.len() - k,
{
    if k < 0 || k + 1 >= s.len() {
        true
    } else {
        s[k].0 < s[k + 1].0 && ascending_from(s, k + 1)
    }
}

proof fn lemma_ascending(s: Seq<ProtocolVersion>, i: int, j: int)
    requires
        ascending_from(s, 0),
        0 <= i < j < s.len(),
    ensures
        s[i].0 < s[j].0,
    decreases j - i,
{
    lemma_ascending_step(s, 0, i);
    if j > i + 1 {
        lemma_ascending(s, i + 1, j);
    }
}

proof fn lemma_ascending_step(s: Seq<ProtocolVersion>, k: int, i: int)
    requires
        ascending_from(s, k),
        0 <= k <= i,
        i + 1 < s.len(),
    ensures
        ascending_from(s, i),
        s[i].0 < s[i + 1].0,
    decreases i - k,
{
    if k < i {
        lemma_ascending_step(s, k + 1, i);
    }
}

/// The supported versions are strictly ascending, and neither the unknown
/// nor the legacy version is among them.
pub proof fn law_supported_versions_sorted()
    ensures
        forall|i: int, j: int|
            0 <= i < j < supported_versions().len() ==> #[trigger] supported_versions()[i].0
                < #[trigger] supported_versions()[j].0,
        forall|i: int| 0 <= i < supported_versions().len() ==> #[trigger] supported_versions()[i].0 > 0,
{
    let s = supported_versions();
    assert(ascending_from(s, 0)) by {
        reveal_with_fuel(ascending_from, 40);
    }
    assert(s[0].0 > 0);
    assert forall|i: int, j: int| 0 <= i < j < s.len() implies #[trigger] s[i].0 < #[trigger] s[j].0 by {
        lemma_ascending(s, i, j);
    }
    assert forall|i: int| 0 <= i < s.len() implies #[trigger] s[i].0 > 0 by {
        if i > 0 {
            lemma_ascending(s, 0, i);
        }
    }
}

} // verus!
