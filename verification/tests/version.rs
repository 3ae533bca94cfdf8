use infrarust::version::{
    ConnectionState, Direction, ProtocolVersion, LEGACY, UNKNOWN, V1_12_2, V1_16, V1_16_4,
    V1_19, V1_19_1, V1_19_3, V1_19_4, V1_20, V1_21, V1_21_4, V1_7_2, V1_8,
};

#[test]
fn test_version_ordering_matches_protocol_ids() {
    assert!(ProtocolVersion(V1_21) > ProtocolVersion(V1_20));
    assert!(ProtocolVersion(V1_20) > ProtocolVersion(V1_8));
    assert!(ProtocolVersion(V1_8) > ProtocolVersion(V1_7_2));
}

#[test]
fn test_version_equality() {
    assert_eq!(ProtocolVersion(767), ProtocolVersion(767));
    assert_eq!(ProtocolVersion(V1_21), ProtocolVersion(767));
}

#[test]
fn test_version_range_returns_inclusive_bounds() {
    let versions: Vec<_> = ProtocolVersion::range(ProtocolVersion(V1_19), ProtocolVersion(V1_19_4));
    assert_eq!(
        versions,
        vec![
            ProtocolVersion(V1_19),
            ProtocolVersion(V1_19_1),
            ProtocolVersion(V1_19_3),
            ProtocolVersion(V1_19_4),
        ]
    );
}

#[test]
fn test_version_range_single_version() {
    let versions: Vec<_> = ProtocolVersion::range(ProtocolVersion(V1_21), ProtocolVersion(V1_21));
    assert_eq!(versions, vec![ProtocolVersion(V1_21)]);
}

#[test]
fn test_version_range_empty_when_inverted() {
    assert!(ProtocolVersion::range(ProtocolVersion(V1_20), ProtocolVersion(V1_19)).is_empty());
}

#[test]
fn test_version_range_count_matches_iterator() {
    let from = ProtocolVersion(V1_16);
    let to = ProtocolVersion(V1_19);
    assert_eq!(
        ProtocolVersion::range_count(from, to),
        ProtocolVersion::range(from, to).len()
    );
}

#[test]
fn test_legacy_detection() {
    assert!(ProtocolVersion(LEGACY).is_legacy());
    assert!(!ProtocolVersion(V1_7_2).is_legacy());
    assert!(!ProtocolVersion(V1_8).is_legacy());
}

#[test]
fn test_unknown_detection() {
    assert!(ProtocolVersion(UNKNOWN).is_unknown());
    assert!(!ProtocolVersion(V1_8).is_unknown());
}

#[test]
fn test_comparison_methods_match_operators() {
    let pairs = [
        (ProtocolVersion(V1_8), ProtocolVersion(V1_7_2)),
        (ProtocolVersion(V1_21), ProtocolVersion(V1_21)),
        (ProtocolVersion(V1_19), ProtocolVersion(V1_20)),
        (ProtocolVersion(V1_16), ProtocolVersion(V1_16_4)),
    ];
    for (a, b) in pairs {
        assert_eq!(a.no_less_than(b), a >= b, "no_less_than({a:?}, {b:?})");
        assert_eq!(a.no_greater_than(b), a <= b, "no_greater_than({a:?}, {b:?})");
        assert_eq!(a.less_than(b), a < b, "less_than({a:?}, {b:?})");
        assert_eq!(a.greater_than(b), a > b, "greater_than({a:?}, {b:?})");
    }
}

#[test]
fn test_name_returns_human_readable() {
    assert_eq!(ProtocolVersion(V1_21).name(), "1.21");
    assert_eq!(ProtocolVersion(V1_8).name(), "1.8");
    assert_eq!(ProtocolVersion(V1_21_4).name(), "1.21.4");
    assert_eq!(ProtocolVersion(V1_12_2).name(), "1.12.2");
}

#[test]
fn test_name_unknown_version_returns_unknown() {
    assert_eq!(ProtocolVersion(99999).name(), "unknown");
}

#[test]
fn test_display_uses_name() {
    assert_eq!(ProtocolVersion(V1_21_4).display(), "1.21.4");
    assert_eq!(ProtocolVersion(V1_8).display(), "1.8");
}

#[test]
fn test_display_unknown_version() {
    let display = ProtocolVersion(42).display();
    assert!(
        display.contains("protocol:42"),
        "expected 'protocol:42', got '{display}'"
    );
}

#[test]
fn test_supported_is_sorted() {
    assert!(ProtocolVersion::supported().windows(2).all(|w| w[0] < w[1]));
}

#[test]
fn test_supported_does_not_contain_unknown_or_legacy() {
    assert!(!ProtocolVersion::supported().contains(&ProtocolVersion(UNKNOWN)));
    assert!(!ProtocolVersion::supported().contains(&ProtocolVersion(LEGACY)));
}

#[test]
fn test_handshake_id_status() {
    assert_eq!(ConnectionState::Status.handshake_id(), Some(1));
}

#[test]
fn test_handshake_id_login() {
    assert_eq!(ConnectionState::Login.handshake_id(), Some(2));
}

#[test]
fn test_handshake_id_handshake_is_none() {
    assert_eq!(ConnectionState::Handshake.handshake_id(), None);
}

#[test]
fn test_from_handshake_id_round_trip() {
    for state in [ConnectionState::Status, ConnectionState::Login] {
        let id = state.handshake_id().unwrap();
        assert_eq!(ConnectionState::from_handshake_id(id), Some(state));
    }
}

#[test]
fn test_from_handshake_id_invalid() {
    assert_eq!(ConnectionState::from_handshake_id(99), None);
}

#[test]
fn test_from_handshake_id_transfer() {
    assert_eq!(
        ConnectionState::from_handshake_id(3),
        Some(ConnectionState::Login)
    );
}

#[test]
fn test_display_lowercase() {
    assert_eq!(ConnectionState::Play.as_str(), "play");
    assert_eq!(ConnectionState::Handshake.as_str(), "handshake");
    assert_eq!(ConnectionState::Status.as_str(), "status");
    assert_eq!(ConnectionState::Login.as_str(), "login");
    assert_eq!(ConnectionState::Config.as_str(), "config");
}

#[test]
fn test_opposite() {
    assert_eq!(Direction::Serverbound.opposite(), Direction::Clientbound);
    assert_eq!(Direction::Clientbound.opposite(), Direction::Serverbound);
}

#[test]
fn test_display() {
    assert_eq!(Direction::Serverbound.as_str(), "serverbound");
    assert_eq!(Direction::Clientbound.as_str(), "clientbound");
}

#[test]
fn legacy_name_and_counts() {
    assert_eq!(ProtocolVersion(LEGACY).name(), "legacy");
    assert_eq!(ProtocolVersion(LEGACY).display(), "legacy");
    assert_eq!(ProtocolVersion::supported().len(), 34);
    assert_eq!(
        ProtocolVersion::range_count(ProtocolVersion(V1_19), ProtocolVersion(V1_19_4)),
        4
    );
    assert_eq!(
        ProtocolVersion::range_count(ProtocolVersion(V1_20), ProtocolVersion(V1_19)),
        0
    );
    assert_eq!(ProtocolVersion(-7).display(), "protocol:-7");
}
