use p2p_app::fmt::{
    auto_scroll_offset, format_msg_id, gen_msg_id, peer_display_name, scroll_title, short_peer_id,
    MsgIdCounter,
};
use p2p_app::map::StrMap;

#[test]
fn short_ids_are_the_last_eight_characters() {
    assert_eq!(short_peer_id("12D3KooWABCDEFGH"), "ABCDEFGH");
    assert_eq!(short_peer_id("short"), "short");
    assert_eq!(short_peer_id(""), "");
    assert_eq!(short_peer_id("ééééééééé"), "éééééééé");
}

#[test]
fn display_names_prefer_local_then_received() {
    let mut local = StrMap::new();
    let mut received = StrMap::new();
    assert_eq!(peer_display_name("12D3KooWABCDEFGH", &local, &received), "ABCDEFGH");
    received.insert("12D3KooWABCDEFGH".to_string(), "Bob".to_string());
    assert_eq!(peer_display_name("12D3KooWABCDEFGH", &local, &received), "Bob");
    local.insert("12D3KooWABCDEFGH".to_string(), "Bobby".to_string());
    assert_eq!(peer_display_name("12D3KooWABCDEFGH", &local, &received), "Bobby");
}

#[test]
fn scrolling() {
    assert_eq!(auto_scroll_offset(100, 10), 90);
    assert_eq!(auto_scroll_offset(5, 10), 0);
    assert_eq!(scroll_title("Chat", 3, 10), "Chat (3/10)");
    assert_eq!(scroll_title("Log", 30, 10), "Log (10/10)");
}

#[test]
fn message_ids() {
    assert_eq!(format_msg_id(0x1a2b, 0), "1a2b0");
    assert_eq!(format_msg_id(255, 16), "ff10");
    let mut counter = MsgIdCounter::new();
    let a = gen_msg_id(&mut counter);
    let b = gen_msg_id(&mut counter);
    assert_ne!(a, b);
    assert_eq!(counter.next, 2);
    assert!(a.ends_with('0') && b.ends_with('1'));
    assert!(a.chars().all(|c| c.is_ascii_hexdigit() && !c.is_ascii_uppercase()));
    let mut last = MsgIdCounter { next: u64::MAX };
    let _ = gen_msg_id(&mut last);
    assert_eq!(last.next, 0);
}
