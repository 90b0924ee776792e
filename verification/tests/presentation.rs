use p2p_app::map::StrMap;
use p2p_app::presentation::{
    broadcast_receipt_prefix, dm_receipt_prefix, format_broadcast_title, format_dm_title,
    format_peer_line, row_to_visible_index,
};

fn counts(pairs: &[(&str, usize)]) -> StrMap<usize> {
    let mut m = StrMap::new();
    for (k, v) in pairs {
        m.insert(k.to_string(), *v);
    }
    m
}

#[test]
fn row_to_visible_index_tracks_multiline_boundaries() {
    let line_counts = vec![2, 1, 3];

    assert_eq!(row_to_visible_index(&line_counts, 3, 3), Some(0));
    assert_eq!(row_to_visible_index(&line_counts, 3, 4), Some(0));
    assert_eq!(row_to_visible_index(&line_counts, 3, 5), Some(1));
    assert_eq!(row_to_visible_index(&line_counts, 3, 8), Some(2));
    assert_eq!(row_to_visible_index(&line_counts, 3, 9), None);
}

#[test]
fn broadcast_receipt_prefix_only_marks_outgoing_confirmed_messages() {
    let mut receipts: StrMap<StrMap<f64>> = StrMap::new();
    let mut peers = StrMap::new();
    peers.insert("peer-1".to_string(), 1.0);
    receipts.insert("msg-1".to_string(), peers);

    assert_eq!(broadcast_receipt_prefix(Some("msg-1"), None, &receipts), "v ");
    assert_eq!(broadcast_receipt_prefix(Some("msg-2"), None, &receipts), "  ");
    assert_eq!(
        broadcast_receipt_prefix(Some("msg-1"), Some("peer-1"), &receipts),
        "  "
    );
}

#[test]
fn dm_receipt_prefix_marks_confirmed_messages() {
    let mut receipts: StrMap<(String, f64)> = StrMap::new();
    receipts.insert("msg-1".to_string(), ("peer-1".to_string(), 2.0));

    assert_eq!(dm_receipt_prefix(Some("msg-1"), &receipts), "v ");
    assert_eq!(dm_receipt_prefix(Some("msg-2"), &receipts), "  ");
    assert_eq!(dm_receipt_prefix(None, &receipts), "  ");
}

#[test]
fn format_peer_line_shows_unique_nickname_only() {
    let unique_counts = counts(&[("alice", 1)]);
    let duplicate_counts = counts(&[("alice", 2)]);

    assert_eq!(
        format_peer_line("peer-1", "just now", Some("alice"), &unique_counts),
        "alice peer-1 just now"
    );
    assert_eq!(
        format_peer_line("peer-1", "just now", Some("alice"), &duplicate_counts),
        "peer-1 just now"
    );
}

#[test]
fn titles_include_optional_nickname_context() {
    assert_eq!(
        format_broadcast_title(Some("alice"), "12345678"),
        "Broadcast from alice 12345678"
    );
    assert_eq!(
        format_dm_title(Some("alice"), "12345678", Some("now"), Some("earlier")),
        "DM: alice 12345678 | seen: now (first: earlier)"
    );
}

#[test]
fn titles_work_without_nickname() {
    assert_eq!(format_broadcast_title(None, "12345678"), "Broadcast from 12345678");
    assert_eq!(
        format_dm_title(None, "12345678", Some("now"), None),
        "DM: 12345678 | seen: now"
    );
    assert_eq!(format_dm_title(None, "12345678", None, None), "DM: 12345678 | seen: ?");
}

#[test]
fn format_peer_line_no_nickname() {
    let counts = StrMap::new();
    assert_eq!(format_peer_line("peer-1", "just now", None, &counts), "peer-1 just now");
}

#[test]
fn row_to_visible_index_empty_line_counts() {
    assert_eq!(row_to_visible_index(&[], 3, 3), None);
}

#[test]
fn row_to_visible_index_before_content_start() {
    let line_counts = vec![2, 1];
    // rows 0 and 1 are before first_content_row=3: content only starts at row 3
    assert_eq!(row_to_visible_index(&line_counts, 3, 0), None);
}

#[test]
fn row_to_visible_index_skips_zero_height_messages() {
    let line_counts = vec![0, 2, 0, 1];
    assert_eq!(row_to_visible_index(&line_counts, 0, 0), Some(1));
    assert_eq!(row_to_visible_index(&line_counts, 0, 2), Some(3));
    assert_eq!(row_to_visible_index(&line_counts, 0, 3), None);
}

#[test]
fn format_peer_line_missing_count_hides_nickname() {
    let counts = counts(&[("bob", 1)]);
    assert_eq!(format_peer_line("peer-9", "today", Some("alice"), &counts), "peer-9 today");
}

#[test]
fn nickname_counts_use_local_then_received_trimmed() {
    let peers: Vec<(String, String, String)> = ["p1", "p2", "p3", "p4"]
        .iter()
        .map(|p| (p.to_string(), String::new(), String::new()))
        .collect();
    let mut local = StrMap::new();
    let mut received = StrMap::new();
    local.insert("p1".to_string(), " alice ".to_string());
    received.insert("p2".to_string(), "alice".to_string());
    received.insert("p3".to_string(), "bob".to_string());
    // A blank local nickname hides the announced one.
    local.insert("p4".to_string(), "  ".to_string());
    received.insert("p4".to_string(), "carol".to_string());
    let c = p2p_app::presentation::nickname_counts(&peers, &local, &received);
    assert_eq!(c.get("alice"), Some(&2));
    assert_eq!(c.get("bob"), Some(&1));
    assert_eq!(c.get("carol"), None);
    assert_eq!(c.len(), 2);
    assert_eq!(format_peer_line("p3", "now", Some("bob"), &c), "bob p3 now");
    assert_eq!(format_peer_line("p1", "now", Some("alice"), &c), "p1 now");
}
