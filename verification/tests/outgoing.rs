use p2p_app::chat_view::ChatState;
use p2p_app::connected::ConnectedTracker;
use p2p_app::map::StrMap;
use p2p_app::mobile_node::SwarmCommand;
use p2p_app::tui::outgoing::{tui_send_message, GroupHistory, SendTarget, StoreRequest};
use std::collections::VecDeque;

fn chat() -> ChatState {
    ChatState {
        messages: VecDeque::new(),
        message_ids: VecDeque::new(),
        broadcast_receipts: StrMap::new(),
        dm_messages: StrMap::new(),
        dm_message_ids: StrMap::new(),
        dm_receipts: StrMap::new(),
        peers: VecDeque::new(),
        concurrent_peers: 0,
        local_nicknames: StrMap::new(),
        received_nicknames: StrMap::new(),
        dm_tabs: Vec::new(),
        own_nickname: "me".into(),
        connected: true,
    }
}

fn groups() -> GroupHistory {
    GroupHistory {
        group_messages: StrMap::new(),
        group_message_ids: StrMap::new(),
        group_message_peer_ids: StrMap::new(),
        group_scroll_state: StrMap::new(),
    }
}

#[test]
fn broadcast_credits_connected_peers() {
    let mut c = chat();
    let mut g = groups();
    let mut online = ConnectedTracker::new();
    online.on_peer_connected("p1".into());
    online.on_peer_connected("p2".into());
    let plan = tui_send_message(&mut c, &mut g, &StrMap::new(), &online, SendTarget::Broadcast, "hi".into(), "10:00", "id1".into());
    assert_eq!(c.messages.back().unwrap().text, "10:00 [me] hi");
    assert!(c.messages.back().unwrap().sender_peer_id.is_none());
    assert_eq!(c.message_ids.back().unwrap().as_deref(), Some("id1"));
    match &plan.command {
        SwarmCommand::Publish { content, nickname, msg_id } => {
            assert_eq!(content, "hi");
            assert_eq!(nickname.as_deref(), Some("me"));
            assert_eq!(msg_id.as_deref(), Some("id1"));
        }
        other => panic!("unexpected {other:?}"),
    }
    let mut r = plan.recipients.clone();
    r.sort();
    assert_eq!(r, vec!["p1".to_string(), "p2".to_string()]);
    match plan.store {
        StoreRequest::Message { is_direct, target_peer, .. } => {
            assert!(!is_direct);
            assert!(target_peer.is_none());
        }
        other => panic!("unexpected {other:?}"),
    }
}

#[test]
fn direct_message_uses_nickname_for_peer() {
    let mut c = chat();
    let mut g = groups();
    let mut names = StrMap::new();
    names.insert("bob".to_string(), "Meg".to_string());
    let plan = tui_send_message(&mut c, &mut g, &names, &ConnectedTracker::new(), SendTarget::Direct("bob".into()), "yo".into(), "t", "id2".into());
    assert_eq!(c.dm_messages.get("bob").unwrap().back().unwrap(), "t [Meg] yo");
    match plan.command {
        SwarmCommand::SendDm { peer_id, nickname, .. } => {
            assert_eq!(peer_id, "bob");
            assert_eq!(nickname.as_deref(), Some("Meg"));
        }
        other => panic!("unexpected {other:?}"),
    }
    assert!(plan.recipients.is_empty());
    let plan = tui_send_message(&mut c, &mut g, &names, &ConnectedTracker::new(), SendTarget::Direct("amy".into()), "x".into(), "t", "id3".into());
    assert_eq!(c.dm_messages.get("amy").unwrap().back().unwrap(), "t [me] x");
    match plan.store {
        StoreRequest::Message { is_direct, target_peer, sender_nickname, .. } => {
            assert!(is_direct);
            assert_eq!(target_peer.as_deref(), Some("amy"));
            assert_eq!(sender_nickname, "me");
        }
        other => panic!("unexpected {other:?}"),
    }
}

#[test]
fn group_message_scrolls_group_to_end() {
    let mut c = chat();
    let mut g = groups();
    for i in 0..3 {
        let plan = tui_send_message(&mut c, &mut g, &StrMap::new(), &ConnectedTracker::new(), SendTarget::Group("g1".into()), format!("m{i}"), "t", format!("id{i}"));
        match plan.command {
            SwarmCommand::PublishGroup { group_id, content, .. } => {
                assert_eq!(group_id, "g1");
                assert_eq!(content, format!("m{i}"));
            }
            other => panic!("unexpected {other:?}"),
        }
    }
    assert_eq!(g.group_messages.get("g1").unwrap().len(), 3);
    assert_eq!(g.group_message_peer_ids.get("g1").unwrap().back().unwrap(), &None);
    assert_eq!(g.group_scroll_state.get("g1"), Some(&(3, true)));
    assert!(c.messages.is_empty());
}
