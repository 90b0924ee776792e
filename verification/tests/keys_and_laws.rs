use p2p_app::connected::ConnectedTracker;
use p2p_app::fmt::{gen_msg_id, MsgIdCounter};
use p2p_app::groups::{canonical_group_name, public_group_plan, stable_group_id, GroupPlan, GroupRow};
use p2p_app::logging::{get_tui_logs, log_time_format, push_log_at, MAX_LOGS};
use p2p_app::mobile_api::{sort_peers, PeerSortInput};
use p2p_app::swarm_handler::{build_broadcast_message, build_group_message};
use p2p_app::text::{char_utf8_width, is_whitespace};
use p2p_app::tui::input::{
    handle_esc_key, handle_navigation_key, handle_peer_sort_key, handle_scroll_key, process_key_event,
    scroll_section, handle_mouse_scroll, wheel_section, KeyAction, KeyCode, KeyContext, KeyInput, KeyState, PaneScroll, TabKind,
};
use p2p_app::map::StrMap;
use p2p_app::tui::keys::NavKey;
use p2p_app::visibility::{calc_visible_strings, calc_visible_tuples};
use std::collections::VecDeque;

fn state() -> KeyState {
    KeyState {
        active_tab: 2,
        chat_scroll_offset: 5,
        chat_auto_scroll: false,
        chat_unread_count: 3,
        log_scroll_offset: 0,
        log_auto_scroll: true,
        broadcast_selection: Some(1),
        editing_nickname: false,
        editing_nickname_peer: None,
        popup: None,
        mouse_capture: true,
        peer_sort_column: 0,
        peer_sort_ascending: true,
        peer_selection: 0,
        group_selection: 0,
    }
}

fn ctx(tab: TabKind) -> KeyContext {
    KeyContext {
        tab,
        total_tabs: 4,
        input_enabled: matches!(tab, TabKind::Chat | TabKind::Direct | TabKind::GroupChat),
        mouse_row: 0,
        chat_area_height: 10,
        peer_count: 5,
        group_count: 3,
        chat_max_offset: 12,
        log_max_offset: 4,
        dm_broadcast_max_offset: Some(6),
        dm_max_offset: Some(8),
        group_max_offset: None,
        page_size: 10,
        wheel_lines: 3,
    }
}

fn panes() -> PaneScroll {
    PaneScroll { dm_broadcast: StrMap::new(), dm: StrMap::new(), groups: StrMap::new() }
}

fn key(code: KeyCode) -> KeyInput {
    KeyInput { code, ctrl: false, shift: false }
}

#[test]
fn tab_keys_cycle_and_reset() {
    let mut s = state();
    handle_navigation_key(&mut s, 4, true);
    assert_eq!(s.active_tab, 3);
    assert_eq!(s.chat_scroll_offset, 0);
    assert_eq!(s.chat_unread_count, 3);
    handle_navigation_key(&mut s, 4, true);
    assert_eq!(s.active_tab, 0);
    assert_eq!(s.chat_unread_count, 0);
    handle_navigation_key(&mut s, 4, false);
    assert_eq!(s.active_tab, 3);
    s.editing_nickname = true;
    s.editing_nickname_peer = Some("p".into());
    let r = process_key_event(&mut s, &mut panes(), &ctx(TabKind::Log), "p", key(KeyCode::Tab));
    assert_eq!(r, KeyAction::ClearInput);
    assert!(!s.editing_nickname);
    assert!(s.editing_nickname_peer.is_none());
    assert_eq!(s.active_tab, 0);
}

#[test]
fn escape_returns_to_chat_or_cancels_edit() {
    let mut s = state();
    s.popup = Some("info".into());
    handle_esc_key(&mut s);
    assert!(s.popup.is_none());
    assert_eq!(s.active_tab, 0);
    assert!(s.broadcast_selection.is_none());
    assert!(s.chat_auto_scroll);
    let mut s = state();
    s.editing_nickname = true;
    let r = process_key_event(&mut s, &mut panes(), &ctx(TabKind::Settings), "p", key(KeyCode::Esc));
    assert_eq!(r, KeyAction::ClearInput);
    assert!(!s.editing_nickname);
    assert_eq!(s.active_tab, 2);
}

#[test]
fn ctrl_q_exits_and_popup_swallows_keys() {
    let mut s = state();
    let q = KeyInput { code: KeyCode::Char('q'), ctrl: true, shift: false };
    assert_eq!(process_key_event(&mut s, &mut panes(), &ctx(TabKind::Chat), "p", q), KeyAction::Exit);
    s.popup = Some("x".into());
    assert_eq!(process_key_event(&mut s, &mut panes(), &ctx(TabKind::Chat), "p", key(KeyCode::Tab)), KeyAction::Redraw);
    assert!(s.popup.is_none());
    assert_eq!(s.active_tab, 2);
}

#[test]
fn keys_by_tab() {
    let mut s = state();
    assert_eq!(
        process_key_event(&mut s, &mut panes(), &ctx(TabKind::Peers), "p", key(KeyCode::Nav(NavKey::End))),
        KeyAction::Redraw
    );
    assert_eq!(s.peer_selection, 4);
    // The chat scrolls: leaving auto-scroll pins the view at the bottom first.
    s.chat_auto_scroll = true;
    assert_eq!(
        process_key_event(&mut s, &mut panes(), &ctx(TabKind::Chat), "p", key(KeyCode::Nav(NavKey::Up))),
        KeyAction::Redraw
    );
    assert_eq!(s.chat_scroll_offset, 11);
    assert!(!s.chat_auto_scroll);
    process_key_event(&mut s, &mut panes(), &ctx(TabKind::Chat), "p", key(KeyCode::Nav(NavKey::PageDown)));
    assert_eq!(s.chat_scroll_offset, 12);
    assert!(s.chat_auto_scroll);
    assert_eq!(s.chat_unread_count, 0);
    // On a direct-message tab the pane under the mouse scrolls.
    let mut p = panes();
    p.dm.insert("bob".into(), (3, false));
    p.dm_broadcast.insert("bob".into(), (0, true));
    let mut c = ctx(TabKind::Direct);
    c.mouse_row = 100;
    assert_eq!(handle_scroll_key(&mut s, &mut p, &c, "bob", NavKey::Down), KeyAction::Redraw);
    assert_eq!(p.dm.get("bob"), Some(&(4, false)));
    assert_eq!(p.dm_broadcast.get("bob"), Some(&(0, true)));
    c.mouse_row = 1;
    handle_scroll_key(&mut s, &mut p, &c, "bob", NavKey::Up);
    assert_eq!(p.dm_broadcast.get("bob"), Some(&(5, false)));
    // A pane with no scroll state yet stays as it is.
    handle_scroll_key(&mut s, &mut p, &c, "amy", NavKey::Up);
    assert!(p.dm_broadcast.get("amy").is_none());
    // A group chat pane scrolls by its own state.
    let mut g = ctx(TabKind::GroupChat);
    g.group_max_offset = Some(2);
    p.groups.insert("g1".into(), (0, false));
    handle_scroll_key(&mut s, &mut p, &g, "g1", NavKey::End);
    assert_eq!(p.groups.get("g1"), Some(&(0, true)));
    assert_eq!(process_key_event(&mut s, &mut panes(), &ctx(TabKind::Chat), "p", key(KeyCode::F12)), KeyAction::SetMouseCapture(false));
    assert!(!s.mouse_capture);
    let shift_enter = KeyInput { code: KeyCode::Enter, ctrl: false, shift: true };
    assert_eq!(process_key_event(&mut s, &mut panes(), &ctx(TabKind::Chat), "p", shift_enter), KeyAction::Enter(true));
    let ctrl_w = KeyInput { code: KeyCode::Char('w'), ctrl: true, shift: false };
    assert_eq!(process_key_event(&mut s, &mut panes(), &ctx(TabKind::Direct), "p", ctrl_w), KeyAction::CloseTab);
    assert_eq!(process_key_event(&mut s, &mut panes(), &ctx(TabKind::Chat), "p", key(KeyCode::Char('i'))), KeyAction::OpenPeerInfo);
    assert_eq!(process_key_event(&mut s, &mut panes(), &ctx(TabKind::Chat), "p", key(KeyCode::Char('x'))), KeyAction::TypeKey);
    assert_eq!(process_key_event(&mut s, &mut panes(), &ctx(TabKind::Log), "p", key(KeyCode::Char('x'))), KeyAction::Redraw);
    assert_eq!(
        process_key_event(&mut s, &mut panes(), &ctx(TabKind::Settings), "p", key(KeyCode::Char('n'))),
        KeyAction::ClearInput
    );
    assert!(s.editing_nickname);
    assert_eq!(process_key_event(&mut s, &mut panes(), &ctx(TabKind::Settings), "p", key(KeyCode::Enter)), KeyAction::SubmitNickname);
}

#[test]
fn peer_sort_keys() {
    let mut s = state();
    assert!(handle_peer_sort_key(&mut s, '1'));
    assert_eq!(s.peer_sort_column, 0);
    assert!(!s.peer_sort_ascending);
    assert!(handle_peer_sort_key(&mut s, 'b'));
    assert_eq!(s.peer_sort_column, 2);
    assert!(!s.peer_sort_ascending);
    assert!(handle_peer_sort_key(&mut s, 'o'));
    assert!(s.peer_sort_ascending);
    assert!(!handle_peer_sort_key(&mut s, 'z'));
    assert_eq!(process_key_event(&mut s, &mut panes(), &ctx(TabKind::Peers), "p", key(KeyCode::Char('4'))), KeyAction::Resort);
    assert_eq!(s.peer_sort_column, 3);
}

#[test]
fn pane_scroll_steps() {
    // From auto-scroll, a move pins the view at the bottom first.
    let (mut o, mut a) = (0usize, true);
    scroll_section(&mut o, &mut a, NavKey::Up, 10, 5);
    assert_eq!((o, a), (9, false));
    scroll_section(&mut o, &mut a, NavKey::PageUp, 10, 5);
    assert_eq!((o, a), (4, false));
    scroll_section(&mut o, &mut a, NavKey::PageUp, 10, 5);
    assert_eq!((o, a), (0, false));
    scroll_section(&mut o, &mut a, NavKey::Up, 10, 5);
    assert_eq!((o, a), (0, false));
    scroll_section(&mut o, &mut a, NavKey::Down, 10, 5);
    assert_eq!((o, a), (1, false));
    scroll_section(&mut o, &mut a, NavKey::PageDown, 10, 5);
    assert_eq!((o, a), (6, false));
    // Reaching the bottom turns auto-scroll back on.
    scroll_section(&mut o, &mut a, NavKey::PageDown, 10, 5);
    assert_eq!((o, a), (10, true));
    scroll_section(&mut o, &mut a, NavKey::Home, 10, 5);
    assert_eq!((o, a), (0, false));
    scroll_section(&mut o, &mut a, NavKey::End, 10, 5);
    assert_eq!((o, a), (0, true));
    let (mut o, mut a) = (9usize, false);
    scroll_section(&mut o, &mut a, NavKey::Down, 10, 5);
    assert_eq!((o, a), (10, true));
    // Nothing to scroll: down keeps the offset.
    let (mut o, mut a) = (0usize, false);
    scroll_section(&mut o, &mut a, NavKey::Down, 0, 5);
    assert_eq!((o, a), (0, false));
}

#[test]
fn wheel_scrolling() {
    let (mut o, mut a) = (0usize, true);
    // Up from auto-scroll anchors at the bottom, then steps back.
    assert!(wheel_section(&mut o, &mut a, true, 10, 3));
    assert_eq!((o, a), (7, false));
    assert!(wheel_section(&mut o, &mut a, false, 10, 3));
    assert_eq!((o, a), (10, true));
    // Nothing to scroll: nothing changes.
    assert!(!wheel_section(&mut o, &mut a, true, 0, 3));
    assert_eq!((o, a), (10, true));

    let mut s = state();
    s.chat_auto_scroll = false;
    s.chat_scroll_offset = 11;
    let mut p = panes();
    assert!(handle_mouse_scroll(&mut s, &mut p, &ctx(TabKind::Chat), "", false));
    assert_eq!((s.chat_scroll_offset, s.chat_auto_scroll, s.chat_unread_count), (12, true, 0));
    assert!(handle_mouse_scroll(&mut s, &mut p, &ctx(TabKind::Log), "", true));
    assert_eq!((s.log_scroll_offset, s.log_auto_scroll), (1, false));
    assert!(!handle_mouse_scroll(&mut s, &mut p, &ctx(TabKind::Settings), "", true));
    p.dm.insert("bob".into(), (2, false));
    let mut c = ctx(TabKind::Direct);
    c.mouse_row = 100;
    assert!(handle_mouse_scroll(&mut s, &mut p, &c, "bob", false));
    assert_eq!(p.dm.get("bob"), Some(&(5, false)));
    assert!(!handle_mouse_scroll(&mut s, &mut p, &c, "amy", false));
}

#[test]
fn whitespace_and_utf8_width() {
    assert!(is_whitespace(' '));
    assert!(is_whitespace('\t'));
    assert!(is_whitespace('\u{3000}'));
    assert!(is_whitespace('\u{2009}'));
    assert!(!is_whitespace('a'));
    assert!(!is_whitespace('\u{200B}'));
    for c in [' ', 'a', '\u{85}', '\u{3000}', '\u{1680}', 'é', '\u{202F}'] {
        assert_eq!(is_whitespace(c), c.is_whitespace());
    }
    for c in ['a', 'é', '€', '😀'] {
        assert_eq!(char_utf8_width(c), c.len_utf8());
    }
}

#[test]
fn log_stays_bounded_and_timestamp_layout() {
    assert_eq!(log_time_format(), "%Y-%m-%d %H:%M:%S%.3f");
    let mut b = None;
    for i in 0..(MAX_LOGS + 5) {
        push_log_at(&mut b, "t", &format!("m{i}"));
    }
    let logs = get_tui_logs(&b);
    assert_eq!(logs.len(), MAX_LOGS);
    assert_eq!(logs.last().unwrap(), &format!("[t] m{}", MAX_LOGS + 4));
}

#[test]
fn connected_count_after_disconnect() {
    let mut t = ConnectedTracker::new();
    t.on_peer_connected("a".into());
    t.on_peer_connected("b".into());
    t.on_peer_connected("a".into());
    assert_eq!(t.len(), 2);
    t.on_peer_disconnected("a", 7);
    assert_eq!(t.len(), 1);
    t.on_peer_disconnected("zz", 8);
    assert_eq!(t.len(), 1);
    assert!(!t.contains("zz"));
}

#[test]
fn message_ids_differ() {
    let mut c = MsgIdCounter::new();
    let a = gen_msg_id(&mut c);
    let b = gen_msg_id(&mut c);
    assert_ne!(a, b);
    assert!(a.chars().all(|ch| ch.is_ascii_hexdigit() && !ch.is_ascii_uppercase()));
}

#[test]
fn canonical_names_are_canonical() {
    for n in ["  Rust   Lovers ", "rust lovers", "RUST\tLOVERS\n"] {
        let c = canonical_group_name(n);
        assert_eq!(c, "rust lovers");
        assert_eq!(canonical_group_name(&c), c);
        assert_eq!(stable_group_id(&c), stable_group_id(n));
    }
}

#[test]
fn public_group_is_found_or_created() {
    match public_group_plan("  Rust Lovers ", None) {
        GroupPlan::Create(g) => {
            assert_eq!(g.group_id, stable_group_id("rust lovers"));
            assert_eq!(g.display_name, "Rust Lovers");
            assert_eq!(g.is_private, 0);
        }
        GroupPlan::Existing(_) => panic!("expected a new group"),
    }
    let row = GroupRow { group_id: "abc".into(), display_name: "x".into(), is_private: 0 };
    match public_group_plan("x", Some(row)) {
        GroupPlan::Existing(g) => assert_eq!(g.group_id, "abc"),
        GroupPlan::Create(_) => panic!("expected the stored group"),
    }
}

#[test]
fn built_gossip_messages_carry_their_parts() {
    let bits = 1718455800.5f64.to_bits();
    let m = build_broadcast_message("hi".into(), Some("Ann".into()), Some("id1".into()), bits);
    assert_eq!(m.content, "hi");
    assert_eq!(m.sent_at.map(f64::from_bits), Some(1718455800.5));
    assert_eq!(m.nickname.as_deref(), Some("Ann"));
    assert_eq!(m.msg_id.as_deref(), Some("id1"));
    let g = build_group_message("g1".into(), "yo".into(), None, None, bits);
    assert_eq!(g.group_id, "g1");
    assert_eq!(g.content, "yo");
    assert_eq!(g.sent_at, Some(bits));
}

fn peer(id: &str, name: &str, dm: u32) -> PeerSortInput {
    PeerSortInput {
        peer_id: id.into(),
        display_name: name.into(),
        last_seen: "2024-01-01 00:00:00".into(),
        dm_count: dm,
        broadcast_count: 0,
    }
}

#[test]
fn descending_sort_is_reversed_ascending() {
    let peers = vec![peer("c", "Cy", 2), peer("a", "Al", 2), peer("b", "Bo", 1), peer("d", "Di", 3)];
    for column in [0u32, 1, 2, 3] {
        let up: Vec<String> = sort_peers(peers.clone(), column, true).into_iter().map(|p| p.peer_id).collect();
        let mut down: Vec<String> =
            sort_peers(peers.clone(), column, false).into_iter().map(|p| p.peer_id).collect();
        down.reverse();
        assert_eq!(up, down);
    }
}

#[test]
fn tuple_and_string_windows_agree() {
    let texts = ["one", "two\nlines", "a much longer message that wraps", "x"];
    let tuples: VecDeque<(String, Option<String>)> = texts.iter().map(|t| (t.to_string(), None)).collect();
    let strings: VecDeque<String> = texts.iter().map(|t| t.to_string()).collect();
    for auto in [true, false] {
        for off in 0..5 {
            assert_eq!(
                calc_visible_tuples(&tuples, auto, off, 10, 4),
                calc_visible_strings(&strings, auto, off, 10, 4)
            );
        }
    }
}
