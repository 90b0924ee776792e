//! How the swarm task routes what arrives: direct-message requests and
//! responses, and gossip messages.

use vstd::prelude::*;
use crate::groups::{group_id_from_topic, is_group_topic, spec_is_group_topic};
use crate::text::owned;
use crate::mobile_node::{MessageEvent, SwarmEvent};
use crate::text::{spec_trim, trim};

verus! {

/// A direct message as it arrives, its times left out but the receive time
/// of an acknowledgement (the IEEE-754 bits of seconds).
#[derive(Debug, Clone)]
pub struct DmRequest {
    /// The text; blank for acknowledgements and nickname announcements.
    pub content: String,
    /// The nickname the sender announced.
    pub nickname: Option<String>,
    /// The sender's message id.
    pub msg_id: Option<String>,
    /// The id of the message this one acknowledges.
    pub ack_for: Option<String>,
    /// When the acknowledged message was received.
    pub received_at: Option<u64>,
    /// The private group the message belongs to.
    pub group_id: Option<String>,
}

/// What a direct-message request becomes.
#[derive(Debug, Clone)]
pub enum Routed {
    /// An event for the application.
    Event(SwarmEvent),
    /// A message for a private group the local node belongs to.
    Group {
        /// The group.
        group_id: String,
        /// The text.
        content: String,
        /// The sender.
        peer_id: String,
        /// The nickname the sender announced.
        nickname: Option<String>,
        /// The sender's message id.
        msg_id: Option<String>,
    },
    /// An invitation into a private group the local node is not in.
    Invite {
        /// The group.
        group_id: String,
        /// The peer that sent the group message.
        inviter_peer: String,
    },
    /// Nothing to report (a blank message with neither acknowledgement nor
    /// nickname).
    Dropped,
}

/// A copy of an optional text.
pub fn copy_text(o: &Option<String>) -> (r: Option<String>)
    ensures
        r == *o,
{
    match o {
        Some(s) => Some(s.clone()),
        None => None,
    }
}

/// A request is blank when its text is empty after trimming whitespace.
pub open spec fn is_blank(req: DmRequest) -> bool {
    spec_trim(req.content@).len() == 0
}

/// How a request from `peer_id` is routed, given the formatted latency and
/// whether the local node belongs to the request's group:
/// - a blank request with an acknowledged id is a receipt;
/// - a blank request with a nickname is an empty direct message that carries
///   the nickname (and the latency);
/// - another blank request is dropped;
/// - a request for a group is a group message when the local node is a
///   member, an invitation otherwise;
/// - anything else is a direct message with its text, nickname, id and the
///   latency.
pub open spec fn routes_to(req: DmRequest, peer_id: String, latency: String, is_member: bool, r: Routed) -> bool {
    if is_blank(req) {
        match req.ack_for {
            Some(ack) => r == Routed::Event(
                SwarmEvent::Receipt { peer_id, ack_for: ack, received_at: req.received_at },
            ),
            None => if req.nickname is Some {
                r matches Routed::Event(SwarmEvent::DirectMessage(m)) && m.content@.len() == 0
                    && m.peer_id == peer_id && m.latency == Some(latency) && m.nickname
                    == req.nickname && m.msg_id is None
            } else {
                r == Routed::Dropped
            },
        }
    } else {
        match req.group_id {
            Some(g) => if is_member {
                r == Routed::Group {
                    group_id: g,
                    content: req.content,
                    peer_id,
                    nickname: req.nickname,
                    msg_id: req.msg_id,
                }
            } else {
                r == Routed::Invite { group_id: g, inviter_peer: peer_id }
            },
            None => r == Routed::Event(
                SwarmEvent::DirectMessage(
                    MessageEvent {
                        content: req.content,
                        peer_id,
                        latency: Some(latency),
                        nickname: req.nickname,
                        msg_id: req.msg_id,
                    },
                ),
            ),
        }
    }
}

/// Route a direct-message request (see [`routes_to`]). The second result is
/// what the response acknowledges: the request's own message id.
pub fn route_request(req: DmRequest, peer_id: String, latency: String, is_member: bool) -> (r: (
    Routed,
    Option<String>,
))
    ensures
        routes_to(req, peer_id, latency, is_member, r.0),
        r.1 == req.msg_id,
{
    let blank = trim(req.content.as_str()).as_str().is_empty();
    let DmRequest { content, nickname, msg_id, ack_for, received_at, group_id } = req;
    if blank {
        match ack_for {
            Some(ack) => (
                Routed::Event(SwarmEvent::Receipt { peer_id, ack_for: ack, received_at }),
                msg_id,
            ),
            None => if nickname.is_some() {
                (
                    Routed::Event(
                        SwarmEvent::DirectMessage(
                            MessageEvent {
                                content: String::new(),
                                peer_id,
                                latency: Some(latency),
                                nickname,
                                msg_id: None,
                            },
                        ),
                    ),
                    msg_id,
                )
            } else {
                (Routed::Dropped, msg_id)
            },
        }
    } else {
        match group_id {
            Some(g) => if is_member {
                let ack = copy_text(&msg_id);
                (Routed::Group { group_id: g, content, peer_id, nickname, msg_id }, ack)
            } else {
                (Routed::Invite { group_id: g, inviter_peer: peer_id }, msg_id)
            },
            None => {
                let ack = copy_text(&msg_id);
                (
                    Routed::Event(
                        SwarmEvent::DirectMessage(
                            MessageEvent { content, peer_id, latency: Some(latency), nickname, msg_id },
                        ),
                    ),
                    ack,
                )
            },
        }
    }
}

/// A response to a direct message is a receipt when it acknowledges an id.
pub fn route_response(ack_for: Option<String>, received_at: Option<u64>, peer_id: String) -> (r: Option<
    SwarmEvent,
>)
    ensures
        r == match ack_for {
            Some(ack) => Some(SwarmEvent::Receipt { peer_id, ack_for: ack, received_at }),
            None => None::<SwarmEvent>,
        },
{
    match ack_for {
        Some(ack) => Some(SwarmEvent::Receipt { peer_id, ack_for: ack, received_at }),
        None => None,
    }
}

/// The fields of a broadcast or group message as read from gossip.
#[derive(Debug, Clone)]
pub struct GossipFields {
    /// The text.
    pub content: String,
    /// The nickname the sender announced.
    pub nickname: Option<String>,
    /// The sender's message id.
    pub msg_id: Option<String>,
}

/// What a gossip message on a topic becomes.
#[derive(Debug, Clone)]
pub enum GossipRoute {
    /// It belongs to a per-group topic: the group path handles it.
    Group,
    /// A broadcast: its event, and the id to acknowledge to the peer that
    /// passed it on, when it has one.
    Broadcast {
        /// The event for the application.
        event: SwarmEvent,
        /// The message id to acknowledge.
        receipt_for: Option<String>,
    },
    /// The payload could not be read as a broadcast.
    Unreadable,
}

/// Route a gossip message from `peer_id` on `topic` whose payload read as
/// `parsed` (when it could be read): group topics go to the group path, a
/// readable broadcast becomes a broadcast event with the latency given and
/// asks for a receipt of its id.
pub fn route_gossip(topic: &str, parsed: Option<GossipFields>, peer_id: String, latency: String) -> (r:
    GossipRoute)
    ensures
        spec_is_group_topic(topic@) ==> r == GossipRoute::Group,
        !spec_is_group_topic(topic@) ==> r == match parsed {
            Some(b) => GossipRoute::Broadcast {
                event: SwarmEvent::BroadcastMessage(
                    MessageEvent {
                        content: b.content,
                        peer_id,
                        latency: Some(latency),
                        nickname: b.nickname,
                        msg_id: b.msg_id,
                    },
                ),
                receipt_for: b.msg_id,
            },
            None => GossipRoute::Unreadable,
        },
{
    if is_group_topic(topic) {
        return GossipRoute::Group;
    }
    match parsed {
        Some(b) => {
            let receipt_for = copy_text(&b.msg_id);
            GossipRoute::Broadcast {
                event: SwarmEvent::BroadcastMessage(
                    MessageEvent {
                        content: b.content,
                        peer_id,
                        latency: Some(latency),
                        nickname: b.nickname,
                        msg_id: b.msg_id,
                    },
                ),
                receipt_for,
            }
        },
        None => GossipRoute::Unreadable,
    }
}

/// What a gossip message on a group topic becomes.
#[derive(Debug, Clone)]
pub enum GroupRoute {
    /// The topic is not a group topic.
    MalformedTopic,
    /// The payload could not be read as a group message.
    Unreadable,
    /// A group message: record the sender as a member, store the message and
    /// report it.
    Message {
        /// The group, from the topic.
        group_id: String,
        /// The text.
        content: String,
        /// The sender.
        peer_id: String,
        /// The nickname the sender announced.
        nickname: Option<String>,
        /// The sender's message id.
        msg_id: Option<String>,
    },
}

/// Route a gossip message on a group topic (see [`GroupRoute`]); the group
/// id is what follows the `group:` prefix.
pub fn route_group_message(topic: &str, parsed: Option<GossipFields>, peer_id: String) -> (r:
    GroupRoute)
    ensures
        !spec_is_group_topic(topic@) ==> r == GroupRoute::MalformedTopic,
        spec_is_group_topic(topic@) ==> match parsed {
            Some(m) => r matches GroupRoute::Message { group_id, content, peer_id: p, nickname, msg_id }
                && group_id@ == topic@.skip(6) && content == m.content && p == peer_id && nickname
                == m.nickname && msg_id == m.msg_id,
            None => r == GroupRoute::Unreadable,
        },
{
    match group_id_from_topic(topic) {
        None => GroupRoute::MalformedTopic,
        Some(g) => match parsed {
            Some(m) => GroupRoute::Message {
                group_id: owned(g),
                content: m.content,
                peer_id,
                nickname: m.nickname,
                msg_id: m.msg_id,
            },
            None => GroupRoute::Unreadable,
        },
    }
}

/// A gossip message as published on the chat topic; the send time is the
/// IEEE-754 bits of epoch seconds.
#[derive(Debug, Clone)]
pub struct BroadcastMessage {
    pub content: String,
    pub sent_at: Option<u64>,
    pub nickname: Option<String>,
    pub msg_id: Option<String>,
}

/// A gossip message as published on a private group's topic.
#[derive(Debug, Clone)]
pub struct GroupMessage {
    pub group_id: String,
    pub content: String,
    pub sent_at: Option<u64>,
    pub nickname: Option<String>,
    pub msg_id: Option<String>,
}

/// Build a broadcast message from its parts, stamped with the send time
/// given (the bits of the current time in epoch seconds).
pub fn build_broadcast_message(
    content: String,
    nickname: Option<String>,
    msg_id: Option<String>,
    now_bits: u64,
) -> (r: BroadcastMessage)
    ensures
        r.content == content,
        r.sent_at == Some(now_bits),
        r.nickname == nickname,
        r.msg_id == msg_id,
{
    BroadcastMessage { content, sent_at: Some(now_bits), nickname, msg_id }
}

/// Build a group message from its parts, stamped with the send time given.
pub fn build_group_message(
    group_id: String,
    content: String,
    nickname: Option<String>,
    msg_id: Option<String>,
    now_bits: u64,
) -> (r: GroupMessage)
    ensures
        r.group_id == group_id,
        r.content == content,
        r.sent_at == Some(now_bits),
        r.nickname == nickname,
        r.msg_id == msg_id,
{
    GroupMessage { group_id, content, sent_at: Some(now_bits), nickname, msg_id }
}

} // verus!
