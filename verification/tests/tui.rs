use p2p_app::tui::keys::{
    broadcast_pane_visible_lines, byte_label, compute_new_peer_selection, dm_pane_first_row,
    dm_pane_visible_lines, expected_group_page_size, expected_peer_page_size, next_tab,
    previous_tab, NavKey,
};
use p2p_app::network::NetworkSize;
use p2p_app::tui::history::{trim_history, unique_peers};
use p2p_app::tui::logic::{
    get_dm_messages, get_network_size, handle_chat_input, handle_dm_input, load_messages,
    load_peers, mark_message_sent, new_state, new_state_with_messages, save_message, save_peer,
    save_session, sender_label,
};
use p2p_app::tui::render::{peer_display_name as render_peer_display_name, short_peer_id as render_short_peer_id};
use p2p_app::tui::shared::{NotificationState, TuiState, MAX_LOGS};
use p2p_app::tui::state::{test_messages, TuiTestState};
use std::collections::VecDeque;

fn lines(v: &[&str]) -> VecDeque<String> {
    v.iter().map(|s| s.to_string()).collect()
}

#[test]
fn new_state_defaults() {
    let s = new_state();
    assert!(s.messages.is_empty());
    assert!(s.chat_message_peers.is_empty());
    assert_eq!(s.active_tab, 0);
    assert!(s.chat_auto_scroll);
    assert!(s.debug_auto_scroll);
    assert_eq!(s.terminal_width, 80);
    assert!(s.own_nickname.is_empty());
    assert!(s.local_nicknames.is_empty());
    assert!(s.dm_messages.is_empty());
    let d = TuiState::default();
    assert_eq!(d.terminal_width, 80);
}

#[test]
fn notification_state_default_is_empty() {
    let n = NotificationState::default();
    assert_eq!(n.unread_broadcasts, 0);
    assert!(n.unread_dms.is_empty());
}

#[test]
fn sender_labels_of_lines() {
    assert_eq!(sender_label("[You] Hello"), "You");
    assert_eq!(sender_label("[Peer1] How are you?"), "Peer1");
    assert_eq!(sender_label("no brackets"), "");
    assert_eq!(sender_label("x [abc"), "abc");
    assert_eq!(sender_label("a [b [c] d"), "b ");
    assert_eq!(sender_label("[]"), "");
    assert_eq!(sender_label("[You"), "You");
    assert_eq!(sender_label("pre [You] x"), "You");
    assert_eq!(sender_label(""), "");
}

#[test]
fn new_state_with_messages_labels_senders() {
    let s = new_state_with_messages(lines(&["[You] hi", "[Bob] yo", "plain"]));
    assert_eq!(s.messages.len(), 3);
    assert_eq!(s.messages[1].content, "[Bob] yo");
    assert!(s.messages[1].peer_id.is_none());
    assert_eq!(s.chat_message_peers, vec!["You", "Bob", ""]);
    assert_eq!(s.terminal_width, 80);
}

#[test]
fn placeholders_succeed_with_nothing() {
    assert!(load_messages("chat", 10).unwrap().is_empty());
    assert!(load_peers().unwrap().is_empty());
    assert!(save_message("x", None, "chat", false, None).is_ok());
    assert!(mark_message_sent(1).is_ok());
    assert!(save_peer("p", &[]).is_ok());
    assert!(save_session(3).is_ok());
    assert_eq!(get_network_size().unwrap(), NetworkSize::Medium);
}

#[test]
fn chat_input_becomes_own_message() {
    let mut s = new_state();
    s.own_nickname = "me".into();
    let mut logs = VecDeque::new();
    handle_chat_input("hello there", &mut s, &mut logs);
    assert!(logs.is_empty());
    assert_eq!(s.messages.len(), 1);
    let m = &s.messages[0];
    assert_eq!(m.content, "hello there");
    assert!(m.peer_id.is_none());
    assert_eq!(m.nickname.as_deref(), Some("me"));
    assert_eq!(m.timestamp, "Now");
}

#[test]
fn nick_command_sets_trimmed_nickname() {
    let mut s = new_state();
    let mut logs = VecDeque::new();
    handle_chat_input("/nick   alice  ", &mut s, &mut logs);
    assert_eq!(s.own_nickname, "alice");
    assert_eq!(logs, lines(&["[Now] Nickname set to: alice"]));
    // A blank or missing name changes nothing.
    handle_chat_input("/nick    ", &mut s, &mut logs);
    handle_chat_input("/nick", &mut s, &mut logs);
    assert_eq!(s.own_nickname, "alice");
    assert_eq!(logs.len(), 1);
    assert!(s.messages.is_empty());
}

#[test]
fn help_and_unknown_commands_log() {
    let mut s = new_state();
    let mut logs = VecDeque::new();
    handle_chat_input("/help", &mut s, &mut logs);
    handle_chat_input("/h extra", &mut s, &mut logs);
    handle_chat_input("/frob x y", &mut s, &mut logs);
    assert_eq!(logs.len(), 7);
    assert_eq!(logs[0], "[Now] Available commands:");
    assert_eq!(logs[1], "[Now]   /nick [name] - Set your nickname");
    assert_eq!(logs[2], "[Now]   /help - Show this help");
    assert_eq!(logs[3], "[Now] Available commands:");
    assert_eq!(logs[6], "[Now] Unknown command: /frob");
    assert!(s.messages.is_empty());
}

#[test]
fn log_is_capped() {
    let mut s = new_state();
    let mut logs: VecDeque<String> = (0..MAX_LOGS).map(|i| format!("old {i}")).collect();
    handle_chat_input("/zzz", &mut s, &mut logs);
    assert_eq!(logs.len(), MAX_LOGS);
    assert_eq!(logs[0], "old 1");
    assert_eq!(logs[MAX_LOGS - 1], "[Now] Unknown command: /zzz");
}

#[test]
fn dm_input_appends_to_that_conversation() {
    let mut s = new_state();
    s.own_nickname = "me".into();
    handle_dm_input("peer-a", "hi a", &mut s);
    handle_dm_input("peer-b", "hi b", &mut s);
    handle_dm_input("peer-a", "again", &mut s);
    let a = get_dm_messages("peer-a", &s);
    assert_eq!(a.len(), 2);
    assert_eq!(a[0].content, "hi a");
    assert_eq!(a[1].content, "again");
    assert_eq!(a[1].peer_id.as_deref(), Some("peer-a"));
    assert_eq!(a[1].nickname.as_deref(), Some("me"));
    assert_eq!(get_dm_messages("peer-b", &s).len(), 1);
    assert!(get_dm_messages("nobody", &s).is_empty());
    assert!(s.messages.is_empty());
}

#[test]
fn test_state_from_sample_lines() {
    let t = TuiTestState::new();
    assert_eq!(t.messages, test_messages());
    assert_eq!(t.messages[0], "[You] Hello world");
    assert_eq!(t.chat_message_peers, vec!["You", "Peer1", "You", "Peer2", "You"]);
    assert_eq!(t.terminal_width, 80);
    assert_eq!(t.active_tab, 0);
    assert_eq!(t.unread_broadcasts, 0);
    let w = TuiTestState::with_messages_and_width(lines(&["[X] a"]), 40);
    assert_eq!(w.terminal_width, 40);
    assert_eq!(w.chat_message_peers, vec!["X"]);
    let m = TuiTestState::with_messages(lines(&[]));
    assert!(m.messages.is_empty());
    assert_eq!(m.terminal_width, 80);
}

#[test]
fn trim_history_keeps_newest() {
    let mut q: VecDeque<u32> = (1..=5).collect();
    trim_history(&mut q, 3);
    assert_eq!(q, VecDeque::from(vec![3, 4, 5]));
    trim_history(&mut q, 10);
    assert_eq!(q.len(), 3);
    trim_history(&mut q, 0);
    assert!(q.is_empty());
}


#[test]
fn list_selection_moves_and_clamps() {
    assert_eq!(compute_new_peer_selection(NavKey::Down, 0, 0, 5), 0);
    assert_eq!(compute_new_peer_selection(NavKey::Up, 0, 10, 5), 0);
    assert_eq!(compute_new_peer_selection(NavKey::Up, 3, 10, 5), 2);
    assert_eq!(compute_new_peer_selection(NavKey::Down, 9, 10, 5), 9);
    assert_eq!(compute_new_peer_selection(NavKey::Down, 3, 10, 5), 4);
    assert_eq!(compute_new_peer_selection(NavKey::PageDown, 3, 10, 5), 8);
    assert_eq!(compute_new_peer_selection(NavKey::PageDown, 7, 10, 5), 9);
    assert_eq!(compute_new_peer_selection(NavKey::PageUp, 7, 10, 5), 2);
    assert_eq!(compute_new_peer_selection(NavKey::PageUp, 2, 10, 0), 1);
    assert_eq!(compute_new_peer_selection(NavKey::Home, 7, 10, 5), 0);
    assert_eq!(compute_new_peer_selection(NavKey::End, 0, 10, 5), 9);
    assert_eq!(compute_new_peer_selection(NavKey::Other, 4, 10, 5), 4);
    assert_eq!(compute_new_peer_selection(NavKey::PageDown, usize::MAX - 1, 10, 5), 9);
}

#[test]
fn tabs_cycle() {
    assert_eq!(next_tab(0, 4), 1);
    assert_eq!(next_tab(3, 4), 0);
    assert_eq!(next_tab(2, 0), 0);
    assert_eq!(previous_tab(0, 4), 3);
    assert_eq!(previous_tab(2, 4), 1);
    assert_eq!(previous_tab(0, 0), 0);
}

#[test]
fn pane_sizes() {
    // A 20-row chat area: the 22 rows of the DM tab split 11 and 11.
    assert_eq!(dm_pane_visible_lines(20), 9);
    assert_eq!(broadcast_pane_visible_lines(20), 9);
    // An odd split gives the extra row to the upper pane.
    assert_eq!(dm_pane_visible_lines(21), 9);
    assert_eq!(broadcast_pane_visible_lines(21), 10);
    assert_eq!(dm_pane_first_row(21), 13);
    assert_eq!(dm_pane_visible_lines(0), 1);
    assert_eq!(expected_peer_page_size(20), 18);
    assert_eq!(expected_peer_page_size(1), 1);
    assert_eq!(expected_group_page_size(20), 19);
    assert_eq!(expected_group_page_size(0), 1);
}

#[test]
fn byte_labels() {
    assert_eq!(byte_label(0x1B), "ESC");
    assert_eq!(byte_label(0x09), "TAB");
    assert_eq!(byte_label(0x0D), "CR");
    assert_eq!(byte_label(0x0A), "LF");
    assert_eq!(byte_label(0x7F), "DEL");
    assert_eq!(byte_label(b'a'), "[a]");
    assert_eq!(byte_label(b' '), "[ ]");
    assert_eq!(byte_label(0x01), "\\x01");
    assert_eq!(byte_label(0xff), "\\xff");
}

#[test]
fn render_names_carry_a_short_suffix() {
    let mut local = p2p_app::map::StrMap::new();
    let mut received = p2p_app::map::StrMap::new();
    assert_eq!(render_short_peer_id("12D3KooWABCDEFGH"), "ABCDEFGH");
    assert_eq!(render_peer_display_name("12D3KooWABCDEFGH", &local, &received), "ABCDEFGH");
    received.insert("12D3KooWABCDEFGH".to_string(), "Bob".to_string());
    assert_eq!(render_peer_display_name("12D3KooWABCDEFGH", &local, &received), "Bob (ABC)");
    local.insert("12D3KooWABCDEFGH".to_string(), "Bobby".to_string());
    assert_eq!(render_peer_display_name("12D3KooWABCDEFGH", &local, &received), "Bobby (ABC)");
    local.insert("ab".to_string(), "Al".to_string());
    assert_eq!(render_peer_display_name("ab", &local, &received), "Al (ab)");
}

#[test]
fn loaded_peers_are_unique_and_capped() {
    let row = |id: &str, t: &str| (id.to_string(), t.to_string(), t.to_string());
    let rows = vec![row("a", "1"), row("b", "2"), row("a", "3"), row("c", "4"), row("d", "5")];
    let all = unique_peers(&rows, 10);
    let ids: Vec<(&str, &str)> = all.iter().map(|r| (r.0.as_str(), r.1.as_str())).collect();
    assert_eq!(ids, vec![("a", "1"), ("b", "2"), ("c", "4"), ("d", "5")]);
    let two = unique_peers(&rows, 2);
    assert_eq!(two.len(), 2);
    assert_eq!(two[1].0, "b");
    assert!(unique_peers(&rows, 0).is_empty());
}
