use p2p_app::chat_view::{
    apply_receipt_to_state, is_dm_receipt, process_swarm_event, record_saved_peer, ChatEffect,
    ChatState, EventClock, MAX_DM_HISTORY, MAX_MESSAGE_HISTORY,
};
use p2p_app::map::StrMap;
use p2p_app::chat_view::send_message;
use p2p_app::mobile_node::{MessageEvent, SwarmCommand, SwarmEvent};
use std::collections::VecDeque;

fn state() -> ChatState {
    ChatState {
        messages: VecDeque::new(),
        message_ids: VecDeque::new(),
        broadcast_receipts: StrMap::new(),
        dm_messages: StrMap::new(),
        dm_message_ids: StrMap::new(),
        dm_receipts: StrMap::new(),
        peers: VecDeque::new(),
        concurrent_peers: 0,
        local_nicknames: StrMap::new(),
        received_nicknames: StrMap::new(),
        dm_tabs: Vec::new(),
        own_nickname: "me".into(),
        connected: true,
    }
}

fn clock() -> EventClock {
    EventClock {
        display_time: "12:00:00.000".into(),
        now: 5.0f64.to_bits(),
        peer_time: "2024-01-01 12:00:00".into(),
    }
}

fn msg(content: &str, peer: &str, nick: Option<&str>, id: Option<&str>) -> MessageEvent {
    MessageEvent {
        content: content.into(),
        peer_id: peer.into(),
        latency: Some("3ms".into()),
        nickname: nick.map(|s| s.to_string()),
        msg_id: id.map(|s| s.to_string()),
    }
}

#[test]
fn broadcast_becomes_a_line_with_its_id() {
    let mut s = state();
    let fx = process_swarm_event(
        &mut s,
        SwarmEvent::BroadcastMessage(msg("hello", "12D3KooWABCDEFGH", Some("Bob"), Some("m1"))),
        &clock(),
    );
    assert_eq!(s.messages.len(), 1);
    assert_eq!(s.messages[0].text, "12:00:00.000 3ms [Bob] hello");
    assert_eq!(s.messages[0].sender_peer_id.as_deref(), Some("12D3KooWABCDEFGH"));
    assert_eq!(s.message_ids[0].as_deref(), Some("m1"));
    assert_eq!(s.received_nicknames.get("12D3KooWABCDEFGH"), Some(&"Bob".to_string()));
    assert_eq!(fx.len(), 2);
    assert!(matches!(&fx[0], ChatEffect::SetReceivedNickname { nickname, .. } if nickname == "Bob"));
    assert!(matches!(&fx[1], ChatEffect::SaveMessage { is_direct: false, content, .. } if content == "hello"));
}

#[test]
fn nickname_announcement_is_not_a_line() {
    let mut s = state();
    let fx = process_swarm_event(
        &mut s,
        SwarmEvent::DirectMessage(msg("  ", "p1", Some("Ann"), None)),
        &clock(),
    );
    assert!(s.dm_messages.is_empty());
    assert!(s.dm_tabs.is_empty());
    assert_eq!(fx.len(), 1);
    assert_eq!(s.received_nicknames.get("p1"), Some(&"Ann".to_string()));
}

#[test]
fn direct_message_opens_a_tab_and_is_bounded() {
    let mut s = state();
    for i in 0..(MAX_DM_HISTORY + 2) {
        let id = format!("d{i}");
        process_swarm_event(
            &mut s,
            SwarmEvent::DirectMessage(msg(&format!("n{i}"), "short", None, Some(&id))),
            &clock(),
        );
    }
    let q = s.dm_messages.get("short").unwrap();
    let ids = s.dm_message_ids.get("short").unwrap();
    assert_eq!(q.len(), MAX_DM_HISTORY);
    assert_eq!(ids.len(), MAX_DM_HISTORY);
    assert_eq!(q[0], "12:00:00.000 3ms [short] n2");
    assert_eq!(ids[0].as_deref(), Some("d2"));
    assert_eq!(s.dm_tabs, vec!["short".to_string()]);
}

#[test]
fn broadcast_history_is_bounded() {
    let mut s = state();
    for i in 0..(MAX_MESSAGE_HISTORY + 1) {
        process_swarm_event(
            &mut s,
            SwarmEvent::BroadcastMessage(msg(&format!("b{i}"), "p", None, None)),
            &clock(),
        );
    }
    assert_eq!(s.messages.len(), MAX_MESSAGE_HISTORY);
    assert_eq!(s.message_ids.len(), MAX_MESSAGE_HISTORY);
    assert!(s.messages[0].text.ends_with(" b1"));
}

#[test]
fn receipts_are_recorded() {
    let mut s = state();
    process_swarm_event(
        &mut s,
        SwarmEvent::DirectMessage(msg("hi", "p1", None, Some("dm-1"))),
        &clock(),
    );
    assert!(is_dm_receipt(&s, "dm-1"));
    assert!(!is_dm_receipt(&s, "other"));
    let fx = process_swarm_event(
        &mut s,
        SwarmEvent::Receipt {
            peer_id: "p1".into(),
            ack_for: "dm-1".into(),
            received_at: None,
        },
        &clock(),
    );
    assert_eq!(fx.len(), 2);
    assert!(matches!(&fx[0], ChatEffect::SaveReceipt { kind: 1, .. }));
    assert!(matches!(&fx[1], ChatEffect::SaveReceipt { kind: 0, .. }));
    assert_eq!(s.dm_receipts.get("dm-1").map(|r| r.0.clone()), Some("p1".to_string()));
    assert_eq!(s.broadcast_receipts.get("dm-1").unwrap().get("p1"), Some(&5.0f64.to_bits()));
    let fx = process_swarm_event(
        &mut s,
        SwarmEvent::Receipt {
            peer_id: "p2".into(),
            ack_for: "b-9".into(),
            received_at: None,
        },
        &clock(),
    );
    assert_eq!(fx.len(), 1);
    assert!(s.dm_receipts.get("b-9").is_none());
    apply_receipt_to_state(&mut s, "b-9", "p3", 7, false);
    assert_eq!(s.broadcast_receipts.get("b-9").unwrap().len(), 2);
}

#[test]
fn peers_come_and_go() {
    let mut s = state();
    let fx = process_swarm_event(&mut s, SwarmEvent::PeerConnected("p1".into()), &clock());
    assert_eq!(s.concurrent_peers, 1);
    assert_eq!(fx.len(), 2);
    assert!(matches!(&fx[0], ChatEffect::SavePeer { peer_id } if peer_id == "p1"));
    assert!(matches!(&fx[1], ChatEffect::AnnounceNickname { nickname, .. } if nickname == "me"));
    record_saved_peer(&mut s, "p1".into(), "a".into(), "b".into());
    let fx = process_swarm_event(&mut s, SwarmEvent::PeerConnected("p1".into()), &clock());
    assert_eq!(fx.len(), 1);
    assert_eq!(s.concurrent_peers, 2);
    let fx = process_swarm_event(&mut s, SwarmEvent::PeerDisconnected("p1".into()), &clock());
    assert_eq!(s.concurrent_peers, 1);
    assert!(!s.connected);
    assert!(matches!(&fx[0], ChatEffect::Log(l) if l == "Peer disconnected: p1"));
    process_swarm_event(
        &mut s,
        SwarmEvent::PeerDiscovered {
            peer_id: "p2".into(),
            addresses: vec![],
        },
        &clock(),
    );
    assert_eq!(s.peers.len(), 2);
    assert_eq!(s.peers[1].first_seen, "2024-01-01 12:00:00");
    process_swarm_event(
        &mut s,
        SwarmEvent::PeerDiscovered {
            peer_id: "p2".into(),
            addresses: vec![],
        },
        &clock(),
    );
    assert_eq!(s.peers.len(), 2);
    let fx = process_swarm_event(
        &mut s,
        SwarmEvent::ListenAddrEstablished("/ip4/1.2.3.4/tcp/1".into()),
        &clock(),
    );
    assert!(matches!(&fx[0], ChatEffect::Log(l) if l == "Listening on: /ip4/1.2.3.4/tcp/1"));
    let fx = process_swarm_event(
        &mut s,
        SwarmEvent::PeerExpired { peer_id: "p2".into() },
        &clock(),
    );
    assert!(matches!(&fx[0], ChatEffect::Log(l) if l == "Peer expired: p2"));
}

#[test]
fn sending_records_own_lines() {
    let mut s = state();
    match send_message(&mut s, "hi all".into(), None, "m1".into(), "10:00") {
        SwarmCommand::Publish { content, nickname, msg_id } => {
            assert_eq!(content, "hi all");
            assert_eq!(nickname.as_deref(), Some("me"));
            assert_eq!(msg_id.as_deref(), Some("m1"));
        }
        other => panic!("unexpected {other:?}"),
    }
    assert_eq!(s.messages[0].text, "10:00 [me] hi all");
    assert!(s.messages[0].sender_peer_id.is_none());
    assert_eq!(s.message_ids[0].as_deref(), Some("m1"));
    match send_message(&mut s, "psst".into(), Some("p9"), "m2".into(), "10:01") {
        SwarmCommand::SendDm { peer_id, content, msg_id, ack_for, .. } => {
            assert_eq!(peer_id, "p9");
            assert_eq!(content, "psst");
            assert_eq!(msg_id.as_deref(), Some("m2"));
            assert!(ack_for.is_none());
        }
        other => panic!("unexpected {other:?}"),
    }
    assert_eq!(s.dm_messages.get("p9").unwrap()[0], "10:01 [me] psst");
    assert_eq!(s.dm_message_ids.get("p9").unwrap()[0].as_deref(), Some("m2"));
    // Sending does not open a tab.
    assert!(s.dm_tabs.is_empty());
}
