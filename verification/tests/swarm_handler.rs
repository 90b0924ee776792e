use p2p_app::mobile_node::SwarmEvent;
use p2p_app::swarm_handler::{
    route_gossip, route_group_message, route_request, route_response, DmRequest, GossipFields,
    GossipRoute, GroupRoute, Routed,
};

fn req(content: &str) -> DmRequest {
    DmRequest {
        content: content.into(),
        nickname: None,
        msg_id: Some("m1".into()),
        ack_for: None,
        received_at: None,
        group_id: None,
    }
}

#[test]
fn blank_request_with_ack_is_receipt() {
    let r = DmRequest {
        ack_for: Some("orig".into()),
        received_at: Some(12.5f64.to_bits()),
        ..req("  ")
    };
    let (routed, ack) = route_request(r, "peer".into(), "3ms".into(), false);
    assert_eq!(ack.as_deref(), Some("m1"));
    match routed {
        Routed::Event(SwarmEvent::Receipt { peer_id, ack_for, received_at }) => {
            assert_eq!(peer_id, "peer");
            assert_eq!(ack_for, "orig");
            assert_eq!(received_at, Some(12.5f64.to_bits()));
        }
        other => panic!("unexpected {other:?}"),
    }
}

#[test]
fn blank_request_with_nickname_is_announcement() {
    let r = DmRequest {
        nickname: Some("Bob".into()),
        ..req("")
    };
    match route_request(r, "peer".into(), "3ms".into(), false).0 {
        Routed::Event(SwarmEvent::DirectMessage(m)) => {
            assert!(m.content.is_empty());
            assert_eq!(m.nickname.as_deref(), Some("Bob"));
            assert_eq!(m.latency.as_deref(), Some("3ms"));
            assert!(m.msg_id.is_none());
        }
        other => panic!("unexpected {other:?}"),
    }
    assert!(matches!(
        route_request(req("\t"), "peer".into(), "1ms".into(), false).0,
        Routed::Dropped
    ));
}

#[test]
fn text_request_is_direct_message_or_group_traffic() {
    match route_request(req("hi"), "peer".into(), "2ms".into(), false).0 {
        Routed::Event(SwarmEvent::DirectMessage(m)) => {
            assert_eq!(m.content, "hi");
            assert_eq!(m.peer_id, "peer");
            assert_eq!(m.msg_id.as_deref(), Some("m1"));
        }
        other => panic!("unexpected {other:?}"),
    }
    let g = DmRequest {
        group_id: Some("grp".into()),
        ..req("hello group")
    };
    match route_request(g.clone(), "peer".into(), "2ms".into(), true).0 {
        Routed::Group { group_id, content, .. } => {
            assert_eq!(group_id, "grp");
            assert_eq!(content, "hello group");
        }
        other => panic!("unexpected {other:?}"),
    }
    match route_request(g, "peer".into(), "2ms".into(), false).0 {
        Routed::Invite { group_id, inviter_peer } => {
            assert_eq!(group_id, "grp");
            assert_eq!(inviter_peer, "peer");
        }
        other => panic!("unexpected {other:?}"),
    }
}

#[test]
fn responses_with_ack_are_receipts() {
    assert!(route_response(None, None, "p".into()).is_none());
    assert!(matches!(
        route_response(Some("m".into()), None, "p".into()),
        Some(SwarmEvent::Receipt { .. })
    ));
}

#[test]
fn gossip_routing() {
    let fields = GossipFields {
        content: "hey".into(),
        nickname: None,
        msg_id: Some("b1".into()),
    };
    assert!(matches!(
        route_gossip("group:abc", Some(fields.clone()), "p".into(), "1ms".into()),
        GossipRoute::Group
    ));
    assert!(matches!(
        route_gossip("chat", None, "p".into(), "1ms".into()),
        GossipRoute::Unreadable
    ));
    match route_gossip("chat", Some(fields.clone()), "p".into(), "1ms".into()) {
        GossipRoute::Broadcast { event: SwarmEvent::BroadcastMessage(m), receipt_for } => {
            assert_eq!(m.content, "hey");
            assert_eq!(receipt_for.as_deref(), Some("b1"));
        }
        other => panic!("unexpected {other:?}"),
    }
    match route_group_message("group:abc", Some(fields.clone()), "p".into()) {
        GroupRoute::Message { group_id, content, .. } => {
            assert_eq!(group_id, "abc");
            assert_eq!(content, "hey");
        }
        other => panic!("unexpected {other:?}"),
    }
    assert!(matches!(
        route_group_message("chat", Some(fields), "p".into()),
        GroupRoute::MalformedTopic
    ));
    assert!(matches!(
        route_group_message("group:x", None, "p".into()),
        GroupRoute::Unreadable
    ));
}
