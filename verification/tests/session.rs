use p2p_app::tab::TabContent;
use p2p_app::tui::session::{
    on_broadcast, on_direct_message, on_dm_tab_closed, on_tab_shown, session_click, session_key_step,
    SessionAction, SessionClick, SessionContext, SessionKey, SessionState, SESSION_MAX_MESSAGES,
};
use std::collections::VecDeque;

fn ctx(tab: TabContent) -> SessionContext {
    SessionContext { tab, tab_count: 4, message_count: 30, log_count: 5, peer_count: 3 }
}

#[test]
fn chat_scrolling() {
    let mut s = SessionState::new();
    let c = ctx(TabContent::Chat);
    assert_eq!(session_key_step(&mut s, &c, SessionKey::PageDown), SessionAction::Redraw);
    assert_eq!(s.chat_scroll_offset, 20);
    session_key_step(&mut s, &c, SessionKey::PageDown);
    assert_eq!(s.chat_scroll_offset, 29);
    session_key_step(&mut s, &c, SessionKey::Up);
    assert_eq!(s.chat_scroll_offset, 28);
    assert!(!s.chat_auto_scroll);
    session_key_step(&mut s, &c, SessionKey::End);
    assert_eq!(s.chat_scroll_offset, usize::MAX);
    assert!(s.chat_auto_scroll);
    assert_eq!(session_key_step(&mut s, &c, SessionKey::Edit), SessionAction::TypeKey);
    assert_eq!(session_key_step(&mut s, &c, SessionKey::Enter), SessionAction::SendChat);
    assert_eq!(session_key_step(&mut s, &c, SessionKey::AltEnter), SessionAction::NewLine);
}

#[test]
fn log_and_peer_keys() {
    let mut s = SessionState::new();
    let l = ctx(TabContent::Log);
    session_key_step(&mut s, &l, SessionKey::PageDown);
    assert_eq!(s.log_scroll_offset, 4);
    session_key_step(&mut s, &l, SessionKey::PageUp);
    assert_eq!(s.log_scroll_offset, 0);
    assert!(!s.log_auto_scroll);
    let p = ctx(TabContent::Peers);
    session_key_step(&mut s, &p, SessionKey::Down);
    session_key_step(&mut s, &p, SessionKey::Down);
    session_key_step(&mut s, &p, SessionKey::Down);
    assert_eq!(s.peer_selection, 2);
    assert_eq!(session_key_step(&mut s, &p, SessionKey::Enter), SessionAction::OpenPeerAt(2));
}

#[test]
fn tabs_exit_and_mouse() {
    let mut s = SessionState::new();
    let c = ctx(TabContent::Chat);
    assert_eq!(session_key_step(&mut s, &c, SessionKey::BackTab), SessionAction::TabSwitched);
    assert_eq!(s.active_tab, 3);
    session_key_step(&mut s, &c, SessionKey::Tab);
    assert_eq!(s.active_tab, 0);
    assert_eq!(session_key_step(&mut s, &c, SessionKey::F12), SessionAction::SetMouseCapture(false));
    assert_eq!(session_key_step(&mut s, &c, SessionKey::Esc), SessionAction::Exit);
    assert_eq!(session_key_step(&mut s, &c, SessionKey::Quit), SessionAction::Exit);
}

#[test]
fn unread_counts_and_jumps() {
    let mut s = SessionState::new();
    let mut msgs: VecDeque<(String, Option<String>)> = VecDeque::new();
    on_broadcast(&mut s, &mut msgs, "hi".into(), "p1".into());
    assert_eq!(s.unread_broadcasts, 0);
    s.active_tab = 2;
    on_broadcast(&mut s, &mut msgs, "yo".into(), "p2".into());
    assert_eq!(s.unread_broadcasts, 1);
    assert_eq!(msgs.len(), 2);
    on_direct_message(&mut s, "bob", None);
    on_direct_message(&mut s, "bob", Some("amy"));
    on_direct_message(&mut s, "amy", Some("amy"));
    assert_eq!(s.unread_dms.get("bob"), Some(&2));
    assert!(s.unread_dms.get("amy").is_none());
    let c = ctx(TabContent::Log);
    assert_eq!(session_key_step(&mut s, &c, SessionKey::JumpUnread), SessionAction::Redraw);
    assert_eq!(s.active_tab, 0);
    assert_eq!(s.unread_broadcasts, 0);
    assert_eq!(
        session_key_step(&mut s, &c, SessionKey::JumpUnread),
        SessionAction::OpenDm("bob".into())
    );
    assert!(s.unread_dms.is_empty());
    on_direct_message(&mut s, "cy", None);
    on_tab_shown(&mut s, &TabContent::Direct("cy".into()));
    assert!(s.unread_dms.is_empty());
    on_direct_message(&mut s, "cy", None);
    s.active_tab = 2;
    let d = ctx(TabContent::Direct("cy".into()));
    assert_eq!(session_key_step(&mut s, &d, SessionKey::CloseTab), SessionAction::CloseDm("cy".into()));
    assert_eq!(s.active_tab, 0);
    assert!(s.unread_dms.is_empty());
}

#[test]
fn chat_keeps_the_newest_messages() {
    let mut s = SessionState::new();
    let mut msgs: VecDeque<(String, Option<String>)> = VecDeque::new();
    for i in 0..(SESSION_MAX_MESSAGES + 2) {
        on_broadcast(&mut s, &mut msgs, format!("m{i}"), "p".into());
    }
    assert_eq!(msgs.len(), SESSION_MAX_MESSAGES);
    assert_eq!(msgs.front().unwrap().0, "m2");
}

#[test]
fn tab_bar_clicks() {
    let titles = vec![(4usize, false), (5, false), (3, false), (7, true)];
    let msgs: VecDeque<(String, Option<String>)> = VecDeque::new();
    let mut s = SessionState::new();
    let c = ctx(TabContent::Chat);
    assert_eq!(session_click(&mut s, &c, &titles, &msgs, 0, 8, 80), SessionClick::Redraw);
    assert_eq!(s.active_tab, 1);
    assert_eq!(session_click(&mut s, &c, &titles, &msgs, 0, 22, 80), SessionClick::Redraw);
    assert_eq!(s.active_tab, 3);
    assert_eq!(session_click(&mut s, &c, &titles, &msgs, 0, 26, 80), SessionClick::CloseTabAt(3));
    assert_eq!(s.active_tab, 3);
    assert_eq!(session_click(&mut s, &c, &titles, &msgs, 0, 40, 80), SessionClick::Redraw);
    assert_eq!(s.active_tab, 3);
    s.unread_dms.insert("bob".into(), 1);
    on_dm_tab_closed(&mut s, "bob");
    assert_eq!(s.active_tab, 0);
    assert!(s.unread_dms.is_empty());
}

#[test]
fn notice_and_list_clicks() {
    let titles = vec![(4usize, false)];
    let mut msgs: VecDeque<(String, Option<String>)> = VecDeque::new();
    let mut s = SessionState::new();
    s.unread_broadcasts = 12;
    s.unread_dms.insert("bob".into(), 2);
    s.active_tab = 2;
    let c = ctx(TabContent::Log);
    // "12 broadcast(s) | ..." — the left part goes to the chat.
    assert_eq!(session_click(&mut s, &c, &titles, &msgs, 3, 17, 80), SessionClick::Redraw);
    assert_eq!((s.active_tab, s.unread_broadcasts), (0, 0));
    assert_eq!(session_click(&mut s, &c, &titles, &msgs, 3, 0, 80), SessionClick::OpenDmTab("bob".into()));
    assert!(s.unread_dms.is_empty());
    // The peers list starts on row four with no notice.
    let p = ctx(TabContent::Peers);
    assert_eq!(session_click(&mut s, &p, &titles, &msgs, 5, 0, 80), SessionClick::OpenPeerAt(1));
    assert_eq!(s.peer_selection, 1);
    assert_eq!(session_click(&mut s, &p, &titles, &msgs, 9, 0, 80), SessionClick::Redraw);
    // Chat lines start on row five; a two-line message takes two rows.
    msgs.push_back(("one\ntwo".into(), Some("amy".into())));
    msgs.push_back(("mine".into(), None));
    msgs.push_back(("hi".into(), Some("cy".into())));
    let ch = ctx(TabContent::Chat);
    assert_eq!(session_click(&mut s, &ch, &titles, &msgs, 6, 0, 80), SessionClick::OpenDmTab("amy".into()));
    assert_eq!(session_click(&mut s, &ch, &titles, &msgs, 7, 0, 80), SessionClick::Redraw);
    assert_eq!(session_click(&mut s, &ch, &titles, &msgs, 8, 0, 80), SessionClick::OpenDmTab("cy".into()));
    assert_eq!(session_click(&mut s, &ch, &titles, &msgs, 9, 0, 80), SessionClick::Redraw);
}
