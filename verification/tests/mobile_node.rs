use p2p_app::mobile_node::{
    default_event, event_to_json, get_node_peer_id, install_node, load_broadcast_messages,
    load_dm_messages, message_to_chat, mobile_event_effect, poll_event, send_broadcast, send_dm,
    stop_node, take_event, ChatRow, MessageEvent, MobileEffect, MobilePeerRecord, NodeState,
    StoredMessage, SwarmCommand, SwarmEvent,
};
use std::collections::VecDeque;

// ── event_to_json ──────────────────────────────────────────────────

#[test]
fn test_event_to_json_broadcast() {
    let ev = SwarmEvent::BroadcastMessage(MessageEvent {
        content: "hello".into(),
        peer_id: "p1".into(),
        latency: Some("5ms".into()),
        nickname: Some("Alice".into()),
        msg_id: Some("m1".into()),
    });
    let j = event_to_json(ev);
    assert_eq!(j.event_type, "broadcast");
    assert_eq!(j.peer_id.as_deref(), Some("p1"));
    assert_eq!(j.content.as_deref(), Some("hello"));
    assert_eq!(j.latency.as_deref(), Some("5ms"));
    assert_eq!(j.nickname.as_deref(), Some("Alice"));
    assert_eq!(j.msg_id.as_deref(), Some("m1"));
    assert!(j.address.is_none());
}

#[test]
fn test_event_to_json_direct_message() {
    let ev = SwarmEvent::DirectMessage(MessageEvent {
        content: "secret".into(),
        peer_id: "p2".into(),
        latency: None,
        nickname: None,
        msg_id: None,
    });
    let j = event_to_json(ev);
    assert_eq!(j.event_type, "dm");
    assert_eq!(j.peer_id.as_deref(), Some("p2"));
    assert_eq!(j.content.as_deref(), Some("secret"));
    assert!(j.latency.is_none());
    assert!(j.nickname.is_none());
}

#[test]
fn test_event_to_json_peer_connected() {
    let j = event_to_json(SwarmEvent::PeerConnected("p1".into()));
    assert_eq!(j.event_type, "peer_connected");
    assert_eq!(j.peer_id.as_deref(), Some("p1"));
    assert!(j.content.is_none());
}

#[test]
fn test_event_to_json_peer_disconnected() {
    let j = event_to_json(SwarmEvent::PeerDisconnected("p3".into()));
    assert_eq!(j.event_type, "peer_disconnected");
    assert_eq!(j.peer_id.as_deref(), Some("p3"));
}

#[test]
fn test_event_to_json_listen_addr() {
    let j = event_to_json(SwarmEvent::ListenAddrEstablished(
        "/ip4/0.0.0.0/tcp/4000".into(),
    ));
    assert_eq!(j.event_type, "listen_addr");
    assert_eq!(j.address.as_deref(), Some("/ip4/0.0.0.0/tcp/4000"));
}

#[test]
fn test_event_to_json_receipt() {
    let j = event_to_json(SwarmEvent::Receipt {
        peer_id: "p1".into(),
        ack_for: "msg-42".into(),
        received_at: Some(1000.0f64.to_bits()),
    });
    assert_eq!(j.event_type, "receipt");
    assert_eq!(j.peer_id.as_deref(), Some("p1"));
    assert_eq!(j.msg_id.as_deref(), Some("msg-42"));
}

#[test]
fn test_event_to_json_peer_discovered() {
    let j = event_to_json(SwarmEvent::PeerDiscovered {
        peer_id: "p5".into(),
        addresses: vec!["/ip4/10.0.0.1/tcp/9000".to_string()],
    });
    assert_eq!(j.event_type, "peer_discovered");
    assert_eq!(j.peer_id.as_deref(), Some("p5"));
    assert!(j.address.is_some());
    assert_eq!(j.address.as_deref(), Some("/ip4/10.0.0.1/tcp/9000"));
}

#[test]
fn test_event_to_json_peer_discovered_without_address() {
    let j = event_to_json(SwarmEvent::PeerDiscovered {
        peer_id: "p5".into(),
        addresses: vec![],
    });
    assert_eq!(j.event_type, "peer_discovered");
    assert!(j.address.is_none());
}

#[test]
fn test_event_to_json_peer_expired() {
    let j = event_to_json(SwarmEvent::PeerExpired {
        peer_id: "p6".into(),
    });
    assert_eq!(j.event_type, "peer_expired");
    assert_eq!(j.peer_id.as_deref(), Some("p6"));
}

// ── default_event ──────────────────────────────────────────────────

#[test]
fn test_default_event_fields() {
    let j = default_event();
    assert!(j.event_type.is_empty());
    assert!(j.peer_id.is_none());
    assert!(j.content.is_none());
    assert!(j.latency.is_none());
    assert!(j.nickname.is_none());
    assert!(j.msg_id.is_none());
    assert!(j.address.is_none());
}

#[test]
fn test_swarm_event_json_clone_debug() {
    let j = default_event();
    let cloned = j.clone();
    assert!(cloned.event_type.is_empty());
    let _ = format!("{:?}", j);
}

// ── message_to_chat ────────────────────────────────────────────────

fn stored(id: i32, peer_id: Option<&str>, sent: i32, is_direct: i32, nick: Option<&str>) -> StoredMessage {
    StoredMessage {
        id,
        content: "hello world".into(),
        peer_id: peer_id.map(|s| s.to_string()),
        sent,
        is_direct,
        target_peer: None,
        msg_id: Some("msg-1".into()),
        sender_nickname: nick.map(|s| s.to_string()),
    }
}

#[test]
fn test_message_to_chat_broadcast() {
    let chat = message_to_chat(
        stored(1, None, 1, 0, Some("Alice")),
        Some("10:30".into()),
        "2024-06-15 10:30:00".into(),
        None,
    );
    assert_eq!(chat.id, 1);
    assert_eq!(chat.content, "hello world");
    assert!(chat.peer_id.is_none());
    assert!(chat.is_broadcast);
    assert!(chat.sent);
    assert_eq!(chat.msg_id.as_deref(), Some("msg-1"));
    assert!(chat.sent_at.is_some());
    assert_eq!(chat.sender_nickname.as_deref(), Some("Alice"));
}

#[test]
fn test_message_to_chat_dm() {
    let mut msg = stored(2, Some("peer-bob"), 0, 1, None);
    msg.content = "secret msg".into();
    msg.msg_id = None;
    msg.target_peer = Some("peer-bob".into());
    let chat = message_to_chat(
        msg,
        None,
        "2024-06-15 11:00:00".into(),
        Some("brave-otter (-bob)".into()),
    );
    assert_eq!(chat.id, 2);
    assert!(!chat.is_broadcast);
    assert!(!chat.sent);
    assert!(chat.sent_at.is_none());
    assert_eq!(chat.sender_nickname.as_deref(), Some("brave-otter (-bob)"));
    assert_eq!(chat.target_peer.as_deref(), Some("peer-bob"));
}

#[test]
fn test_message_to_chat_empty_content() {
    let mut msg = stored(3, None, 0, 0, None);
    msg.content = String::new();
    msg.msg_id = None;
    let chat = message_to_chat(msg, None, "2024-01-01 00:00:00".into(), None);
    assert!(chat.content.is_empty());
}

#[test]
fn test_message_to_chat_none_sent_at() {
    let mut msg = stored(4, Some("p1"), 0, 0, None);
    msg.content = "test".into();
    msg.msg_id = Some("m4".into());
    let chat = message_to_chat(msg, None, "2024-03-01 00:00:00".into(), None);
    assert!(chat.sent_at.is_none());
}

#[test]
fn test_chat_message_clone_debug() {
    let mut msg = stored(1, None, 1, 0, None);
    msg.content = "test".into();
    msg.msg_id = None;
    let chat = message_to_chat(msg, None, "2024-01-01 00:00:00".into(), None);
    let cloned = chat.clone();
    assert_eq!(cloned.id, 1);
    let _ = format!("{:?}", chat);
}

#[test]
fn test_message_to_chat_announced_nickname_gets_suffix() {
    // The short id of "peer-bob" is "peer-bob"; its first three bytes are "pee".
    let chat = message_to_chat(stored(10, Some("peer-bob"), 0, 0, Some("Bob")), None, "t".into(), None);
    assert_eq!(chat.sender_nickname.as_deref(), Some("Bob (pee)"));
    assert!(chat.is_broadcast);
    // A long id is shortened to its last eight characters first.
    let chat = message_to_chat(
        stored(11, Some("12D3KooWABCDEFGH"), 0, 0, Some("Bob")),
        None,
        "t".into(),
        None,
    );
    assert_eq!(chat.sender_nickname.as_deref(), Some("Bob (ABC)"));
    // A two-byte id keeps both bytes.
    let chat = message_to_chat(stored(12, Some("ab"), 0, 0, Some("Bob")), None, "t".into(), None);
    assert_eq!(chat.sender_nickname.as_deref(), Some("Bob (ab)"));
}

#[test]
fn test_message_to_chat_own_message_uses_nickname() {
    let chat = message_to_chat(stored(11, None, 1, 0, Some("Me")), None, "t".into(), None);
    assert_eq!(chat.sender_nickname.as_deref(), Some("Me"));
    assert!(chat.sent);
}

#[test]
fn test_message_to_chat_no_sender() {
    let chat = message_to_chat(stored(3, None, 0, 0, None), None, "t".into(), Some("x".into()));
    assert!(chat.sender_nickname.is_none());
}

fn row(id: i32) -> ChatRow {
    ChatRow {
        msg: stored(id, None, 1, 0, None),
        sent_at: None,
        created_at: format!("c{id}"),
        resolved_name: None,
    }
}

#[test]
fn test_broadcast_history_is_chronological() {
    // The store reads newest first; the host gets oldest first.
    let out = load_broadcast_messages(vec![row(3), row(2), row(1)]);
    let ids: Vec<i32> = out.iter().map(|c| c.id).collect();
    assert_eq!(ids, vec![1, 2, 3]);
}

#[test]
fn test_load_broadcast_messages_empty_db() {
    // A store with no messages reads no rows.
    let msgs = load_broadcast_messages(Vec::new());
    assert!(msgs.is_empty());
}

#[test]
fn test_load_dm_messages_empty_db() {
    let msgs = load_dm_messages(Vec::new());
    assert!(msgs.is_empty());
}

#[test]
fn test_dm_history_keeps_order() {
    let out = load_dm_messages(vec![row(1), row(2), row(3)]);
    let ids: Vec<i32> = out.iter().map(|c| c.id).collect();
    assert_eq!(ids, vec![1, 2, 3]);
    assert_eq!(out[1].created_at, "c2");
}

#[test]
fn test_mobile_peer_record_clone_debug() {
    let r = MobilePeerRecord {
        peer_id: "p1".into(),
        first_seen: "2024-01-01".into(),
        last_seen: "2024-06-01".into(),
        nickname: Some("Alice".into()),
        local_nickname: None,
        display_name: "Alice".into(),
    };
    let cloned = r.clone();
    assert_eq!(cloned.peer_id, "p1");
    let _ = format!("{:?}", r);
}

#[test]
fn test_known_peer_record_falls_back_to_peer_id() {
    let r = p2p_app::mobile_node::known_peer_record(
        "p9".into(),
        "a".into(),
        "b".into(),
        None,
        None,
        None,
    );
    assert_eq!(r.display_name, "p9");
}

// ── effects of events ──────────────────────────────────────────────

#[test]
fn test_process_event_stores_nickname_from_dm() {
    let ev = SwarmEvent::DirectMessage(MessageEvent {
        content: String::new(),
        peer_id: "peer-nick".into(),
        latency: None,
        nickname: Some("Bob".into()),
        msg_id: None,
    });
    match mobile_event_effect(ev) {
        MobileEffect::NicknameHeard { peer_id, nickname } => {
            assert_eq!(peer_id, "peer-nick");
            assert_eq!(nickname, "Bob");
        }
        other => panic!("unexpected effect {other:?}"),
    }
}

#[test]
fn test_process_event_broadcast_with_nickname() {
    let ev = SwarmEvent::BroadcastMessage(MessageEvent {
        content: "hi all".into(),
        peer_id: "peer-broad".into(),
        latency: None,
        nickname: Some("Charlie".into()),
        msg_id: Some("msg-b1".into()),
    });
    match mobile_event_effect(ev) {
        MobileEffect::NicknameHeard { peer_id, nickname } => {
            assert_eq!(peer_id, "peer-broad");
            assert_eq!(nickname, "Charlie");
        }
        other => panic!("unexpected effect {other:?}"),
    }
}

#[test]
fn test_process_event_peer_connected_no_sender() {
    match mobile_event_effect(SwarmEvent::PeerConnected("p1".into())) {
        MobileEffect::PeerOnline(p) => assert_eq!(p, "p1"),
        other => panic!("unexpected effect {other:?}"),
    }
}

#[test]
fn test_process_event_ignored_variants() {
    assert!(matches!(
        mobile_event_effect(SwarmEvent::ListenAddrEstablished("/ip4/0.0.0.0/tcp/0".into())),
        MobileEffect::Nothing
    ));
    assert!(matches!(
        mobile_event_effect(SwarmEvent::Receipt {
            peer_id: "p1".into(),
            ack_for: "m1".into(),
            received_at: None,
        }),
        MobileEffect::Nothing
    ));
    let empty_nick = SwarmEvent::BroadcastMessage(MessageEvent {
        content: "hi".into(),
        peer_id: "p".into(),
        latency: None,
        nickname: Some(String::new()),
        msg_id: None,
    });
    assert!(matches!(mobile_event_effect(empty_nick), MobileEffect::Nothing));
    assert!(matches!(
        mobile_event_effect(SwarmEvent::PeerConnected("p1".into())),
        MobileEffect::PeerOnline(_)
    ));
    assert!(matches!(
        mobile_event_effect(SwarmEvent::PeerDisconnected("p1".into())),
        MobileEffect::PeerOffline(_)
    ));
}

// ── node state ─────────────────────────────────────────────────────

#[test]
fn test_stop_node_without_start_is_noop() {
    let mut node: Option<NodeState> = None;
    let _ = stop_node(&mut node);
    assert!(node.is_none());
}

#[test]
fn test_get_node_peer_id_without_start_fails() {
    let node: Option<NodeState> = None;
    let result = get_node_peer_id(&node);
    assert!(result.is_err());
    assert_eq!(result.unwrap_err(), "Node not started");
}

#[test]
fn test_poll_event_without_start_fails() {
    let mut node: Option<NodeState> = None;
    let result = poll_event(&mut node);
    assert!(result.is_err());
}

#[test]
fn test_send_broadcast_without_start_fails() {
    let node: Option<NodeState> = None;
    let result = send_broadcast(&node, "hello".into(), "id".into(), None);
    assert!(result.is_err());
}

#[test]
fn test_send_dm_without_start_fails() {
    let node: Option<NodeState> = None;
    let result = send_dm(&node, "peer1".into(), "hi".into(), "id".into(), None);
    assert!(result.is_err());
}

#[test]
fn test_node_lifecycle() {
    let mut node: Option<NodeState> = None;
    install_node(&mut node, "me".into());
    assert_eq!(get_node_peer_id(&node).unwrap(), "me");
    assert!(poll_event(&mut node).unwrap().is_none());
    if let Some(n) = node.as_mut() {
        n.inbox.push_back(SwarmEvent::PeerConnected("p1".into()));
        n.inbox.push_back(SwarmEvent::PeerDisconnected("p1".into()));
    }
    let first = poll_event(&mut node).unwrap().unwrap();
    assert_eq!(first.event_type, "peer_connected");
    let second = take_event(&mut node).unwrap().unwrap();
    assert!(matches!(second, SwarmEvent::PeerDisconnected(_)));
    match send_broadcast(&node, "hello".into(), "m1".into(), Some("Me".into())).unwrap() {
        SwarmCommand::Publish { content, nickname, msg_id } => {
            assert_eq!(content, "hello");
            assert_eq!(nickname.as_deref(), Some("Me"));
            assert_eq!(msg_id.as_deref(), Some("m1"));
        }
        other => panic!("unexpected command {other:?}"),
    }
    match send_dm(&node, "p2".into(), "hi".into(), "m2".into(), None).unwrap() {
        SwarmCommand::SendDm { peer_id, content, msg_id, ack_for, .. } => {
            assert_eq!(peer_id, "p2");
            assert_eq!(content, "hi");
            assert_eq!(msg_id.as_deref(), Some("m2"));
            assert!(ack_for.is_none());
        }
        other => panic!("unexpected command {other:?}"),
    }
    if let Some(n) = node.as_mut() {
        n.channel_closed = true;
    }
    assert_eq!(poll_event(&mut node).unwrap_err(), "Swarm task ended");
    stop_node(&mut node).unwrap();
    // A stopped node keeps its id but takes no command.
    assert_eq!(get_node_peer_id(&node).unwrap(), "me");
    assert_eq!(poll_event(&mut node).unwrap_err(), "Node stopped");
    assert_eq!(
        send_broadcast(&node, "x".into(), "m3".into(), None).unwrap_err(),
        "Node stopped"
    );
    assert!(p2p_app::mobile_node::already_running(&node).is_none());
    install_node(&mut node, "me2".into());
    assert_eq!(p2p_app::mobile_node::already_running(&node).as_deref(), Some("me2"));
    let _ = VecDeque::<u8>::new();
}
