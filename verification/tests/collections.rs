use p2p_app::connected::ConnectedTracker;
use p2p_app::map::StrMap;
use p2p_app::tab::{Tab, TabContent};
use p2p_app::visibility::{calc_visible_strings, calc_visible_tuples, count_lines};
use std::collections::VecDeque;

#[test]
fn string_map_basics() {
    let mut m: StrMap<u32> = StrMap::new();
    assert!(m.is_empty());
    m.insert("a".into(), 1);
    m.insert("b".into(), 2);
    m.insert("a".into(), 3);
    assert_eq!(m.len(), 2);
    assert_eq!(m.get("a"), Some(&3));
    assert!(m.contains_key("b"));
    assert_eq!(m.remove("b"), Some(2));
    assert_eq!(m.remove("b"), None);
    assert_eq!(m.keys(), vec!["a".to_string()]);
    let c = m.clone();
    assert_eq!(c.len(), 1);
}

#[test]
fn connected_tracker() {
    let mut t = ConnectedTracker::new();
    assert!(t.is_empty());
    t.on_peer_connected("p1".into());
    t.on_peer_connected("p2".into());
    t.on_peer_connected("p1".into());
    assert_eq!(t.len(), 2);
    assert!(t.contains("p1"));
    let mut ids = t.connected_peer_ids();
    ids.sort();
    assert_eq!(ids, vec!["p1".to_string(), "p2".to_string()]);
    assert!(t.last_disconnection().is_none());
    t.on_peer_disconnected("p1", 12.0f64.to_bits());
    assert!(!t.contains("p1"));
    assert_eq!(t.len(), 1);
    assert_eq!(t.last_disconnection(), Some(("p1".to_string(), 12.0f64.to_bits())));
    t.clear();
    assert!(t.is_empty());
    assert!(t.last_disconnection().is_none());
}

#[test]
fn tabs() {
    for t in [Tab::Chat, Tab::Peers, Tab::Direct, Tab::Log] {
        assert_eq!(Tab::from_index(t.index()), t);
    }
    assert_eq!(Tab::from_index(9), Tab::Chat);
    assert_eq!(Tab::Chat.total_tabs(), 4);
    assert_eq!(TabContent::Direct("p".into()).peer_id(), Some("p"));
    assert_eq!(TabContent::Log.peer_id(), None);
    assert!(TabContent::Chat.is_input_enabled());
    assert!(TabContent::Direct("p".into()).is_input_enabled());
    assert!(!TabContent::Peers.is_input_enabled());
}

#[test]
fn visible_windows() {
    assert_eq!(count_lines("hello", 10), 1);
    assert_eq!(count_lines("hello world", 5), 3);
    assert_eq!(count_lines("a\nb", 10), 2);
    let msgs: VecDeque<String> = ["one", "two", "three", "four"].iter().map(|s| s.to_string()).collect();
    // Following the end: the last messages that fit, offset to match.
    assert_eq!(calc_visible_strings(&msgs, true, 0, 20, 2), (2, 2));
    // Scrolled by hand: the offset stays.
    assert_eq!(calc_visible_strings(&msgs, false, 1, 20, 2).1, 1);
    let tuples: VecDeque<(String, Option<String>)> =
        msgs.iter().map(|s| (s.clone(), None)).collect();
    assert_eq!(calc_visible_tuples(&tuples, true, 0, 20, 3), (3, 1));
}
