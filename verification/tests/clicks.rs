use p2p_app::tui::clicks::{
    clicked_index, handle_peer_header_column, handle_tab_closed, handle_tab_selected, left_click_target,
    tab_click_target, ClickTarget, TabClick,
};
use p2p_app::tui::input::{KeyState, TabKind};

fn state() -> KeyState {
    KeyState {
        active_tab: 1,
        chat_scroll_offset: 5,
        chat_auto_scroll: false,
        chat_unread_count: 0,
        log_scroll_offset: 0,
        log_auto_scroll: true,
        broadcast_selection: None,
        editing_nickname: true,
        editing_nickname_peer: Some("p".into()),
        popup: None,
        mouse_capture: true,
        peer_sort_column: 0,
        peer_sort_ascending: false,
        peer_selection: 0,
        group_selection: 0,
    }
}

#[test]
fn tab_bar_hits() {
    // " Chat " | " Peers " | " bob [X] "
    let tabs = vec![(4usize, false), (5, false), (7, true)];
    assert_eq!(tab_click_target(&tabs, 0, 1), TabClick::Select(0));
    assert_eq!(tab_click_target(&tabs, 5, 1), TabClick::Select(0));
    assert_eq!(tab_click_target(&tabs, 6, 1), TabClick::Nothing);
    assert_eq!(tab_click_target(&tabs, 9, 1), TabClick::Nothing);
    assert_eq!(tab_click_target(&tabs, 16, 1), TabClick::Select(2));
    assert_eq!(tab_click_target(&tabs, 21, 1), TabClick::Close(2));
    assert_eq!(tab_click_target(&tabs, 23, 1), TabClick::Select(2));
    assert_eq!(tab_click_target(&tabs, 40, 1), TabClick::Nothing);
}

#[test]
fn tab_close_and_select() {
    let mut s = state();
    s.active_tab = 3;
    handle_tab_closed(&mut s, 2);
    assert_eq!(s.active_tab, 2);
    handle_tab_closed(&mut s, 2);
    assert_eq!(s.active_tab, 1);
    handle_tab_closed(&mut s, 4);
    assert_eq!(s.active_tab, 1);
    handle_tab_selected(&mut s, 3);
    assert_eq!(s.active_tab, 3);
    assert_eq!(s.chat_scroll_offset, 0);
    assert!(!s.editing_nickname);
    assert!(s.editing_nickname_peer.is_none());
}

#[test]
fn click_targets() {
    assert_eq!(left_click_target(0, TabKind::Chat, 10), ClickTarget::TabBar);
    assert_eq!(left_click_target(1, TabKind::Chat, 10), ClickTarget::Nothing);
    assert_eq!(left_click_target(11, TabKind::Chat, 10), ClickTarget::Message);
    assert_eq!(left_click_target(12, TabKind::Chat, 10), ClickTarget::Nothing);
    assert_eq!(left_click_target(2, TabKind::Peers, 10), ClickTarget::PeerHeader);
    assert_eq!(left_click_target(10, TabKind::Peers, 10), ClickTarget::PeerRow);
    assert_eq!(left_click_target(11, TabKind::Peers, 10), ClickTarget::Nothing);
    assert_eq!(left_click_target(5, TabKind::Groups, 10), ClickTarget::GroupRow);
    assert_eq!(left_click_target(5, TabKind::Settings, 10), ClickTarget::Nothing);
    assert_eq!(clicked_index(4, 3, 3, 10), Some(4));
    assert_eq!(clicked_index(4, 9, 3, 10), None);
    assert_eq!(clicked_index(0, 1, 3, 10), Some(0));
}

#[test]
fn header_click_sorts() {
    let mut s = state();
    handle_peer_header_column(&mut s, 0);
    assert!(s.peer_sort_ascending);
    handle_peer_header_column(&mut s, 2);
    assert_eq!(s.peer_sort_column, 2);
    assert!(!s.peer_sort_ascending);
}
