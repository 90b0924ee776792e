use p2p_app::mobile_api::{
    calculate_visible_range, format_time_hhmm, get_peers_with_stats, is_at_bottom,
    parse_last_seen_ms, sort_peers, validate_nickname, MobileInitStatus, MobilePeerStatus,
    PeerSortInput, PeerStats,
};
use p2p_app::mobile_node::MobilePeerRecord;

#[test]
fn test_mobile_init_status_clone_debug() {
    let s = MobileInitStatus {
        database_url: "db.sqlite".into(),
        local_peer_id: "peer1".into(),
    };
    let cloned = s.clone();
    assert_eq!(cloned.database_url, "db.sqlite");
    assert_eq!(cloned.local_peer_id, "peer1");
    let _ = format!("{s:?}");
}

#[test]
fn test_mobile_peer_status_clone_debug() {
    let s = MobilePeerStatus {
        database_url: "db.sqlite".into(),
        local_peer_id: "peer1".into(),
        self_nickname: Some("Alice".into()),
    };
    let cloned = s.clone();
    assert_eq!(cloned.self_nickname.as_deref(), Some("Alice"));
    let _ = format!("{s:?}");
}

#[test]
fn test_format_time_hhmm() {
    // ISO format "YYYY-MM-DD HH:MM:SS"
    let result = format_time_hhmm("2024-06-15 10:30:00");
    assert_eq!(result, "10:30");

    // Short string fallback
    let result = format_time_hhmm("short");
    assert_eq!(result, "short");

    // Edge case: exactly 16 chars
    let result = format_time_hhmm("2024-06-15 09:05:00");
    assert_eq!(result, "09:05");
}

#[test]
fn format_time_hhmm_non_boundary_falls_back() {
    // Byte 11 falls inside the two-byte 'é' (bytes 10 and 11), so the range
    // does not exist.
    let s = "2024-06-15é0:30:00";
    assert_eq!(format_time_hhmm(s), s);
    // Here 'é' takes bytes 9 and 10, so bytes 11..16 are " 10:3".
    assert_eq!(format_time_hhmm("2024-06-1é 10:30:00"), " 10:3");
    assert_eq!(format_time_hhmm("2024-06-15 10:3"), "2024-06-15 10:3");
}

#[test]
fn test_is_at_bottom() {
    assert!(is_at_bottom(95, 100, 10));
    assert!(!is_at_bottom(89, 100, 10));
    assert!(is_at_bottom(100, 100, 10));
    assert!(!is_at_bottom(0, 100, 10));

    assert!(is_at_bottom(5, 5, 10));
    assert!(is_at_bottom(0, 0, 0));
}

#[test]
fn test_calculate_visible_range() {
    let (start, end) = calculate_visible_range(10, 3, 5);
    assert_eq!(start, 3);
    assert_eq!(end, 8);

    let (start, end) = calculate_visible_range(10, 15, 5);
    assert_eq!(start, 9);
    assert_eq!(end, 10);

    let (start, end) = calculate_visible_range(10, 0, 100);
    assert_eq!(start, 0);
    assert_eq!(end, 10);

    let (start, end) = calculate_visible_range(0, 0, 10);
    assert_eq!(start, 0);
    assert_eq!(end, 0);
}

#[test]
fn calculate_visible_range_saturates() {
    assert_eq!(calculate_visible_range(usize::MAX, 5, usize::MAX), (5, usize::MAX));
}

#[test]
fn test_validate_nickname() {
    assert!(validate_nickname("valid-nick"));
    assert!(validate_nickname("abc123"));
    assert!(validate_nickname("a"));

    assert!(!validate_nickname(""));
    assert!(!validate_nickname(
        "this-nickname-is-way-too-long-exceeds-twenty-chars"
    ));
    assert!(!validate_nickname("nick with spaces"));
    assert!(!validate_nickname("nick@special"));
    assert!(!validate_nickname("nick%dollar"));
}

#[test]
fn validate_nickname_counts_characters_and_unicode_letters() {
    // Twenty characters is the limit.
    assert!(validate_nickname("abcdefghijklmnopqrst"));
    assert!(!validate_nickname("abcdefghijklmnopqrstu"));
    // Unicode letters are alphanumeric; twenty two-byte letters fit.
    assert!(validate_nickname("éééééééééééééééééééé"));
    assert!(validate_nickname("ééééééééééé"));
    assert!(!validate_nickname("ééééééééééééééééééééé"));
}

fn sample_peer(id: &str, name: &str, last_seen: &str, dm: u32, br: u32) -> PeerSortInput {
    PeerSortInput {
        peer_id: id.into(),
        display_name: name.into(),
        last_seen: last_seen.into(),
        dm_count: dm,
        broadcast_count: br,
    }
}

fn ids(peers: &[PeerSortInput]) -> Vec<&str> {
    peers.iter().map(|p| p.peer_id.as_str()).collect()
}

#[test]
fn parse_last_seen_ms_delegates_to_canonical() {
    let ms = parse_last_seen_ms("2024-01-01 00:00:01");
    let direct = parse_last_seen_ms("2024-01-01T00:00:01");
    assert_eq!(ms, direct);
    assert!(ms > 0);
    assert_eq!(parse_last_seen_ms("not-a-date"), 0);
    assert_eq!(ms, 1_704_067_201_000);
}

#[test]
fn sort_peers_last_seen_desc_with_id_tiebreak() {
    let peers = vec![
        sample_peer("aaa", "alpha", "2024-01-01 09:00:00", 1, 2),
        sample_peer("bbb", "beta", "2024-01-01 10:00:00", 1, 1),
        sample_peer("ccc", "gamma", "2024-01-01 09:00:00", 3, 0),
    ];
    let sorted = sort_peers(peers, 3, false);
    assert_eq!(ids(&sorted), vec!["bbb", "ccc", "aaa"]);
}

#[test]
fn sort_peers_name_asc_is_case_insensitive() {
    let peers = vec![
        sample_peer("bbb", "Zulu", "2024-01-01 09:00:00", 0, 0),
        sample_peer("aaa", "alpha", "2024-01-01 09:00:00", 0, 0),
        sample_peer("ccc", "Bravo", "2024-01-01 09:00:00", 0, 0),
    ];
    let sorted = sort_peers(peers, 0, true);
    assert_eq!(ids(&sorted), vec!["aaa", "ccc", "bbb"]);
}

#[test]
fn sort_peers_count_columns_not_affected_by_columns() {
    let peers = vec![
        sample_peer("aaa", "A", "2024-01-01 09:00:00", 3, 5),
        sample_peer("bbb", "B", "2024-01-01 09:00:00", 1, 9),
        sample_peer("ccc", "C", "2024-01-01 09:00:00", 2, 1),
    ];
    let by_dm = sort_peers(peers.clone(), 1, true);
    assert_eq!(ids(&by_dm), vec!["bbb", "ccc", "aaa"]);
    let by_br = sort_peers(peers.clone(), 2, false);
    assert_eq!(ids(&by_br), vec!["bbb", "aaa", "ccc"]);
    let unknown = sort_peers(peers, 99, true);
    assert_eq!(ids(&unknown), vec!["aaa", "bbb", "ccc"]);
}

#[test]
fn sort_peers_empty_and_ties() {
    assert!(sort_peers(Vec::new(), 0, true).is_empty());
    // Equal names are ordered by peer id, in either direction.
    let peers = vec![
        sample_peer("b", "same", "", 0, 0),
        sample_peer("a", "Same", "", 0, 0),
        sample_peer("c", "SAME", "", 0, 0),
    ];
    assert_eq!(ids(&sort_peers(peers.clone(), 0, true)), vec!["a", "b", "c"]);
    assert_eq!(ids(&sort_peers(peers, 0, false)), vec!["c", "b", "a"]);
}

#[test]
fn peers_join_their_counts() {
    let record = MobilePeerRecord {
        peer_id: "peerA".into(),
        first_seen: "f".into(),
        last_seen: "l".into(),
        nickname: Some("Announced".into()),
        local_nickname: Some("Local".into()),
        display_name: "Local".into(),
    };
    let stats = PeerStats {
        dm_count: 1,
        broadcast_received: 1,
        broadcast_sent: 0,
    };
    let rows = get_peers_with_stats(vec![(record, stats)]);
    assert_eq!(rows.len(), 1);
    assert_eq!(rows[0].peer_id, "peerA");
    assert_eq!(rows[0].broadcast_received, 1);
    assert_eq!(rows[0].dm_count, 1);
    assert_eq!(rows[0].nickname.as_deref(), Some("Announced"));
    assert_eq!(rows[0].local_nickname.as_deref(), Some("Local"));
    assert!(!rows[0].display_name.is_empty());
    assert!(get_peers_with_stats(Vec::new()).is_empty());
}
