//! Sending from the terminal front end: the line joins the broadcast chat, a
//! conversation or a group chat, and the command to send, the record to
//! store and the peers to credit with a broadcast are handed back.

use vstd::prelude::*;
use crate::chat_view::{
    broadcast_recorded, dm_lines_changed, ov, own_line, own_line_text, push_to_queue, pushed,
    queue_at, queue_replaced, record_broadcast, record_dm_line, svs, ChatState,
    MAX_MESSAGE_HISTORY,
};
use crate::connected::ConnectedTracker;
use crate::map::StrMap;
use crate::mobile_node::SwarmCommand;
use crate::text::owned;
use std::collections::VecDeque;

verus! {

/// Group chats as the front end keeps them.
#[derive(Debug)]
pub struct GroupHistory {
    /// Lines, by group, oldest first.
    pub group_messages: StrMap<VecDeque<String>>,
    /// The message id of each line, by group and position.
    pub group_message_ids: StrMap<VecDeque<Option<String>>>,
    /// The sender of each line (none for one's own), by group and position.
    pub group_message_peer_ids: StrMap<VecDeque<Option<String>>>,
    /// Scroll position and auto-scroll, by group.
    pub group_scroll_state: StrMap<(usize, bool)>,
}

/// Where a line goes.
#[derive(Debug, Clone)]
pub enum SendTarget {
    Broadcast,
    Direct(String),
    Group(String),
}

/// What the store must keep of a sent line (its send time is added by the
/// caller).
#[derive(Debug, Clone)]
pub enum StoreRequest {
    /// A broadcast or direct message.
    Message {
        content: String,
        is_direct: bool,
        target_peer: Option<String>,
        sender_nickname: String,
        msg_id: String,
    },
    /// A group message.
    GroupMessage { group_id: String, content: String, sender_nickname: String, msg_id: String },
}

/// What is left to do after sending.
#[derive(Debug, Clone)]
pub struct SendPlan {
    /// The command for the swarm task.
    pub command: SwarmCommand,
    /// The record to store.
    pub store: StoreRequest,
    /// For a broadcast, the peers connected when it left, who are credited
    /// with it (none otherwise).
    pub recipients: Vec<String>,
}

/// The nickname shown to `peer`: the one set for it, else one's own.
pub open spec fn nickname_for(names: Map<Seq<char>, String>, own: String, peer: Seq<char>) -> String {
    if names.contains_key(peer) {
        names[peer]
    } else {
        own
    }
}

/// The group maps after a line was added to group `g`: each queue under `g`
/// grows by one item (the oldest dropped beyond the limit), the scroll state
/// of `g` is at the end with auto-scroll on, and other groups are unchanged.
pub open spec fn group_line_added(old: GroupHistory, new: GroupHistory, g: Seq<char>, text: Seq<char>, msg_id: Option<String>) -> bool {
    let q = queue_at(old.group_messages@, g);
    let qi = queue_at(old.group_message_ids@, g);
    let qp = queue_at(old.group_message_peer_ids@, g);
    &&& new.group_messages@.dom() == old.group_messages@.dom().insert(g)
    &&& forall|j: Seq<char>| j != g && #[trigger] old.group_messages@.contains_key(j)
        ==> new.group_messages@[j] == old.group_messages@[j]
    &&& svs(new.group_messages@[g]@) == pushed(svs(q), text, q.len() + 1 > MAX_MESSAGE_HISTORY)
    &&& queue_replaced(new.group_message_ids@, old.group_message_ids@, g, pushed(qi, msg_id, qi.len() + 1 > MAX_MESSAGE_HISTORY))
    &&& queue_replaced(new.group_message_peer_ids@, old.group_message_peer_ids@, g, pushed(qp, None, qp.len() + 1 > MAX_MESSAGE_HISTORY))
    &&& new.group_scroll_state@ == old.group_scroll_state@.insert(g, (new.group_messages@[g]@.len() as usize, true))
}

fn add_group_line(groups: &mut GroupHistory, g: &str, text: String, msg_id: Option<String>)
    ensures
        group_line_added(*old(groups), *final(groups), g@, text@, msg_id),
{
    let n = match groups.group_messages.get(g) {
        Some(q) => q.len(),
        None => 0,
    };
    let ni = match groups.group_message_ids.get(g) {
        Some(q) => q.len(),
        None => 0,
    };
    let np = match groups.group_message_peer_ids.get(g) {
        Some(q) => q.len(),
        None => 0,
    };
    let ghost q0 = queue_at(groups.group_messages@, g@);
    let ghost tv = text@;
    push_to_queue(&mut groups.group_messages, g, text, n >= MAX_MESSAGE_HISTORY);
    push_to_queue(&mut groups.group_message_ids, g, msg_id, ni >= MAX_MESSAGE_HISTORY);
    push_to_queue(&mut groups.group_message_peer_ids, g, None, np >= MAX_MESSAGE_HISTORY);
    assert(svs(groups.group_messages@[g@]@) =~= pushed(svs(q0), tv, n >= MAX_MESSAGE_HISTORY));
    let len = match groups.group_messages.get(g) {
        Some(q) => q.len(),
        None => 0,
    };
    groups.group_scroll_state.insert(owned(g), (len, true));
}

/// Send a line from the terminal front end. A broadcast joins the chat
/// under one's own nickname and goes to every peer, crediting those
/// connected now; a direct message joins the conversation under the
/// nickname set for that peer (else one's own); a group message joins the
/// group chat, which scrolls to its end. The line is `ts [nickname] text`.
pub fn tui_send_message(
    chat: &mut ChatState,
    groups: &mut GroupHistory,
    self_nicknames: &StrMap<String>,
    connected: &ConnectedTracker,
    target: SendTarget,
    text: String,
    ts: &str,
    msg_id: String,
) -> (r: SendPlan)
    ensures
        match target {
            SendTarget::Broadcast => {
                let own = old(chat).own_nickname;
                &&& broadcast_recorded(*old(chat), *final(chat), own_line(ts@, own@, text@), None, Some(msg_id))
                &&& *final(groups) == *old(groups)
                &&& r.command == SwarmCommand::Publish { content: text, nickname: Some(own), msg_id: Some(msg_id) }
                &&& r.store == StoreRequest::Message {
                    content: text,
                    is_direct: false,
                    target_peer: None,
                    sender_nickname: own,
                    msg_id: msg_id,
                }
                &&& r.recipients@.map_values(|s: String| s@).to_set() == connected.peers()
                &&& r.recipients@.map_values(|s: String| s@).no_duplicates()
            },
            SendTarget::Direct(p) => {
                let own = old(chat).own_nickname;
                let nick = nickname_for(self_nicknames@, own, p@);
                &&& dm_lines_changed(*old(chat), *final(chat), p@, own_line(ts@, nick@, text@), Some(msg_id))
                &&& *final(chat) == (ChatState {
                    dm_messages: final(chat).dm_messages,
                    dm_message_ids: final(chat).dm_message_ids,
                    ..*old(chat)
                })
                &&& *final(groups) == *old(groups)
                &&& r.command matches SwarmCommand::SendDm { peer_id, content, nickname, msg_id: id, ack_for }
                    && peer_id@ == p@ && content == text && nickname == Some(nick) && id == Some(msg_id)
                    && ack_for is None
                &&& r.store matches StoreRequest::Message { content, is_direct, target_peer, sender_nickname, msg_id: id }
                    && content == text && is_direct && ov(target_peer) == Some(p@)
                    && sender_nickname == own && id == msg_id
                &&& r.recipients@.len() == 0
            },
            SendTarget::Group(g) => {
                let own = old(chat).own_nickname;
                &&& group_line_added(*old(groups), *final(groups), g@, own_line(ts@, own@, text@), Some(msg_id))
                &&& *final(chat) == *old(chat)
                &&& r.command matches SwarmCommand::PublishGroup { group_id, content, nickname, msg_id: id }
                    && group_id@ == g@ && content == text && nickname == Some(own) && id == Some(msg_id)
                &&& r.store matches StoreRequest::GroupMessage { group_id, content, sender_nickname, msg_id: id }
                    && group_id@ == g@ && content == text && sender_nickname == own && id == msg_id
                &&& r.recipients@.len() == 0
            },
        },
{
    let own = chat.own_nickname.clone();
    match target {
        SendTarget::Broadcast => {
            let line = own_line_text(ts, own.as_str(), text.as_str());
            record_broadcast(chat, line, None, Some(msg_id.clone()));
            let recipients = connected.connected_peer_ids();
            SendPlan {
                command: SwarmCommand::Publish {
                    content: text.clone(),
                    nickname: Some(own.clone()),
                    msg_id: Some(msg_id.clone()),
                },
                store: StoreRequest::Message {
                    content: text,
                    is_direct: false,
                    target_peer: None,
                    sender_nickname: own,
                    msg_id,
                },
                recipients,
            }
        },
        SendTarget::Direct(p) => {
            let nick = match self_nicknames.get(p.as_str()) {
                Some(n) => n.clone(),
                None => own.clone(),
            };
            let line = own_line_text(ts, nick.as_str(), text.as_str());
            record_dm_line(chat, p.as_str(), line, Some(msg_id.clone()));
            SendPlan {
                command: SwarmCommand::SendDm {
                    peer_id: owned(p.as_str()),
                    content: text.clone(),
                    nickname: Some(nick),
                    msg_id: Some(msg_id.clone()),
                    ack_for: None,
                },
                store: StoreRequest::Message {
                    content: text,
                    is_direct: true,
                    target_peer: Some(p),
                    sender_nickname: own,
                    msg_id,
                },
                recipients: Vec::new(),
            }
        },
        SendTarget::Group(g) => {
            let line = own_line_text(ts, own.as_str(), text.as_str());
            add_group_line(groups, g.as_str(), line, Some(msg_id.clone()));
            SendPlan {
                command: SwarmCommand::PublishGroup {
                    group_id: owned(g.as_str()),
                    content: text.clone(),
                    nickname: Some(own.clone()),
                    msg_id: Some(msg_id.clone()),
                },
                store: StoreRequest::GroupMessage {
                    group_id: g,
                    content: text,
                    sender_nickname: own,
                    msg_id,
                },
                recipients: Vec::new(),
            }
        },
    }
}

} // verus!
