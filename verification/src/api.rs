//! The function surface offered to mobile hosts.

use vstd::prelude::*;
use crate::logging::LogBuffer;
use crate::mobile_node::{
    is_chat_of, node_unavailable, row_ok, spec_event_json, ChatMessage, ChatRow, NodeState,
    SwarmCommand, SwarmEvent, SwarmEventJson,
};
use crate::network::{NetworkSize, spec_size_class, spec_size_label};

verus! {

/// Validate a nickname before persisting it (same rules as the desktop).
pub fn validate_nickname(nickname: String) -> (r: bool)
    ensures
        r == crate::nickname::spec_valid_nickname(nickname@),
{
    crate::nickname::validate_nickname(nickname.as_str())
}

/// Human-readable network-size class ("Small" / "Medium" / "Large") for a
/// peer count.
pub fn network_size_label(peer_count: i64) -> (r: String)
    ensures
        r@ == spec_size_label(spec_size_class(peer_count as int)),
{
    // The count is classified as a whole number: counts beyond the range
    // of `i32` are large, like every count outside 0 to 15.
    let whole: i32 = if peer_count < 0 {
        -1
    } else if peer_count > 16 {
        16
    } else {
        peer_count as i32
    };
    NetworkSize::from_whole_peer_count(whole).label()
}

/// Stop the node (see [`crate::mobile_node::stop_node`]).
pub fn stop_node(node: &mut Option<NodeState>) -> (r: Result<(), String>)
    ensures
        r is Ok,
        match *old(node) {
            Some(n) => *final(node) matches Some(m) && m.peer_id == n.peer_id && !m.running
                && m.inbox@.len() == 0 && m.channel_closed == n.channel_closed,
            None => *final(node) is None,
        },
{
    crate::mobile_node::stop_node(node)
}

/// All stored log lines, for the log view.
pub fn get_logs(buffer: &Option<LogBuffer>) -> (r: Vec<String>)
    ensures
        r@.map_values(|s: String| s@) == match *buffer {
            Some(b) => b@,
            None => Seq::<Seq<char>>::empty(),
        },
{
    crate::logging::get_tui_logs(buffer)
}

/// Poll the next swarm event (see [`crate::mobile_node::poll_event`]).
pub fn poll_event(node: &mut Option<NodeState>) -> (r: Result<Option<SwarmEventJson>, String>)
    ensures
        match node_unavailable(*old(node)) {
            Some(msg) => r matches Err(e) && e@ == msg && *final(node) == *old(node),
            None => {
                let n = old(node).unwrap();
                if n.inbox@.len() > 0 {
                    &&& r matches Ok(Some(j)) && j.fields() == spec_event_json(n.inbox@[0])
                    &&& *final(node) matches Some(m) && m.inbox@ == n.inbox@.drop_first()
                        && m.peer_id == n.peer_id && m.running == n.running
                        && m.channel_closed == n.channel_closed
                } else if n.channel_closed {
                    &&& r matches Err(e) && e@ == "Swarm task ended"@
                    &&& *final(node) == *old(node)
                } else {
                    &&& r matches Ok(None)
                    &&& *final(node) == *old(node)
                }
            },
        },
{
    crate::mobile_node::poll_event(node)
}

/// The command that sends a broadcast (see
/// [`crate::mobile_node::send_broadcast`]).
pub fn send_broadcast(
    node: &Option<NodeState>,
    content: String,
    msg_id: String,
    nickname: Option<String>,
) -> (r: Result<SwarmCommand, String>)
    ensures
        match node_unavailable(*node) {
            Some(msg) => r matches Err(e) && e@ == msg,
            None => r == Ok::<SwarmCommand, String>(
                SwarmCommand::Publish { content, nickname, msg_id: Some(msg_id) },
            ),
        },
{
    crate::mobile_node::send_broadcast(node, content, msg_id, nickname)
}

/// The command that sends a direct message (see
/// [`crate::mobile_node::send_dm`]).
pub fn send_dm(
    node: &Option<NodeState>,
    peer_id: String,
    content: String,
    msg_id: String,
    nickname: Option<String>,
) -> (r: Result<SwarmCommand, String>)
    ensures
        match node_unavailable(*node) {
            Some(msg) => r matches Err(e) && e@ == msg,
            None => r == Ok::<SwarmCommand, String>(
                SwarmCommand::SendDm {
                    peer_id,
                    content,
                    nickname,
                    msg_id: Some(msg_id),
                    ack_for: None,
                },
            ),
        },
{
    crate::mobile_node::send_dm(node, peer_id, content, msg_id, nickname)
}

/// Broadcast history, oldest first, from the rows the store read newest
/// first; a failed read passes its error through.
pub fn load_broadcast_messages(rows: Result<Vec<ChatRow>, String>) -> (r: Result<
    Vec<ChatMessage>,
    String,
>)
    requires
        rows matches Ok(v) ==> forall|i: int| 0 <= i < v@.len() ==> row_ok(#[trigger] v@[i]),
    ensures
        match rows {
            Ok(v) => r matches Ok(out) && out@.len() == v@.len() && forall|i: int|
                0 <= i < out@.len() ==> is_chat_of(#[trigger] out@[i], v@[v@.len() - 1 - i]),
            Err(e) => r == Err::<Vec<ChatMessage>, String>(e),
        },
{
    match rows {
        Ok(v) => Ok(crate::mobile_node::load_broadcast_messages(v)),
        Err(e) => Err(e),
    }
}

/// Direct-message history with a peer, oldest first as the store read it;
/// a failed read passes its error through.
pub fn load_dm_messages(rows: Result<Vec<ChatRow>, String>) -> (r: Result<Vec<ChatMessage>, String>)
    requires
        rows matches Ok(v) ==> forall|i: int| 0 <= i < v@.len() ==> row_ok(#[trigger] v@[i]),
    ensures
        match rows {
            Ok(v) => r matches Ok(out) && out@.len() == v@.len() && forall|i: int|
                0 <= i < out@.len() ==> is_chat_of(#[trigger] out@[i], v@[i]),
            Err(e) => r == Err::<Vec<ChatMessage>, String>(e),
        },
{
    match rows {
        Ok(v) => Ok(crate::mobile_node::load_dm_messages(v)),
        Err(e) => Err(e),
    }
}

} // verus!
