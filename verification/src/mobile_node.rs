//! The mobile node: the events a running swarm reports, how they are handed
//! to the mobile host, the commands sent to the swarm, and the node's
//! started/stopped state.

use vstd::prelude::*;
use crate::fmt::{short_peer_id, spec_short_peer_id};
use crate::text::{byte_prefix, is_char_boundary, owned, take_bytes, utf8_len};
use std::collections::VecDeque;
use vstd::string::StringExecFns;

verus! {

/// A chat message received from a peer.
#[derive(Debug, Clone)]
pub struct MessageEvent {
    /// The message text.
    pub content: String,
    /// The sender's peer id.
    pub peer_id: String,
    /// Transit time, formatted.
    pub latency: Option<String>,
    /// The nickname the sender announced.
    pub nickname: Option<String>,
    /// The sender's message id.
    pub msg_id: Option<String>,
}

/// Something that happened in the swarm.
#[derive(Debug, Clone)]
pub enum SwarmEvent {
    /// A broadcast chat message arrived.
    BroadcastMessage(MessageEvent),
    /// A direct message arrived.
    DirectMessage(MessageEvent),
    /// A connection to a peer opened.
    PeerConnected(String),
    /// The last connection to a peer closed.
    PeerDisconnected(String),
    /// The node listens on a new address.
    ListenAddrEstablished(String),
    /// A peer confirmed that it received a message.
    Receipt {
        /// The confirming peer.
        peer_id: String,
        /// The id of the confirmed message.
        ack_for: String,
        /// When the peer received it: the IEEE-754 bits of the time in
        /// seconds.
        received_at: Option<u64>,
    },
    /// Local discovery found a peer at some addresses.
    PeerDiscovered {
        /// The peer found.
        peer_id: String,
        /// Its addresses, as text.
        addresses: Vec<String>,
    },
    /// A discovered peer's record expired.
    PeerExpired {
        /// The peer whose record expired.
        peer_id: String,
    },
}

/// A command for the swarm task.
#[derive(Debug, Clone)]
pub enum SwarmCommand {
    /// Publish a broadcast chat message.
    Publish {
        /// The message text.
        content: String,
        /// The local nickname to announce.
        nickname: Option<String>,
        /// The message id.
        msg_id: Option<String>,
    },
    /// Send a direct message to a peer.
    SendDm {
        /// The recipient.
        peer_id: String,
        /// The message text.
        content: String,
        /// The local nickname to announce.
        nickname: Option<String>,
        /// The message id.
        msg_id: Option<String>,
        /// The id of the message this one acknowledges.
        ack_for: Option<String>,
    },
    /// Publish a message on a private group's topic.
    PublishGroup {
        /// The group.
        group_id: String,
        /// The message text.
        content: String,
        /// The local nickname to announce.
        nickname: Option<String>,
        /// The message id.
        msg_id: Option<String>,
    },
}

/// An event as handed to the mobile host: its kind and the fields that kind
/// carries.
#[derive(Debug, Clone)]
pub struct SwarmEventJson {
    pub event_type: String,
    pub peer_id: Option<String>,
    pub content: Option<String>,
    pub latency: Option<String>,
    pub nickname: Option<String>,
    pub msg_id: Option<String>,
    pub address: Option<String>,
}

/// The text of an optional string.
pub open spec fn sv(o: Option<String>) -> Option<Seq<char>> {
    match o {
        Some(s) => Some(s@),
        None => None,
    }
}

/// The fields of a host event, as text: kind, peer id, content, latency,
/// nickname, message id, address.
pub type EventFields = (
    Seq<char>,
    Option<Seq<char>>,
    Option<Seq<char>>,
    Option<Seq<char>>,
    Option<Seq<char>>,
    Option<Seq<char>>,
    Option<Seq<char>>,
);

impl SwarmEventJson {
    /// The fields of the event, as text.
    pub open spec fn fields(self) -> EventFields {
        (
            self.event_type@,
            sv(self.peer_id),
            sv(self.content),
            sv(self.latency),
            sv(self.nickname),
            sv(self.msg_id),
            sv(self.address),
        )
    }
}

/// The host event that an event becomes: messages keep their sender,
/// content, latency, nickname and id; peer events their peer; a new listen
/// address its address; a receipt its peer and the acknowledged id; a
/// discovery its peer and first address.
pub open spec fn spec_event_json(ev: SwarmEvent) -> EventFields {
    match ev {
        SwarmEvent::BroadcastMessage(m) => (
            "broadcast"@,
            Some(m.peer_id@),
            Some(m.content@),
            sv(m.latency),
            sv(m.nickname),
            sv(m.msg_id),
            None,
        ),
        SwarmEvent::DirectMessage(m) => (
            "dm"@,
            Some(m.peer_id@),
            Some(m.content@),
            sv(m.latency),
            sv(m.nickname),
            sv(m.msg_id),
            None,
        ),
        SwarmEvent::PeerConnected(id) => ("peer_connected"@, Some(id@), None, None, None, None, None),
        SwarmEvent::PeerDisconnected(id) => (
            "peer_disconnected"@,
            Some(id@),
            None,
            None,
            None,
            None,
            None,
        ),
        SwarmEvent::ListenAddrEstablished(addr) => (
            "listen_addr"@,
            None,
            None,
            None,
            None,
            None,
            Some(addr@),
        ),
        SwarmEvent::Receipt { peer_id, ack_for, .. } => (
            "receipt"@,
            Some(peer_id@),
            None,
            None,
            None,
            Some(ack_for@),
            None,
        ),
        SwarmEvent::PeerDiscovered { peer_id, addresses } => (
            "peer_discovered"@,
            Some(peer_id@),
            None,
            None,
            None,
            None,
            if addresses@.len() > 0 {
                Some(addresses@[0]@)
            } else {
                None
            },
        ),
        SwarmEvent::PeerExpired { peer_id } => (
            "peer_expired"@,
            Some(peer_id@),
            None,
            None,
            None,
            None,
            None,
        ),
    }
}

/// A host event with no kind and no field.
pub fn default_event() -> (r: SwarmEventJson)
    ensures
        r.fields() == (Seq::<char>::empty(), None::<Seq<char>>, None::<Seq<char>>, None::<
            Seq<char>,
        >, None::<Seq<char>>, None::<Seq<char>>, None::<Seq<char>>),
{
    SwarmEventJson {
        event_type: String::new(),
        peer_id: None,
        content: None,
        latency: None,
        nickname: None,
        msg_id: None,
        address: None,
    }
}

/// The host event that a swarm event becomes.
pub fn event_to_json(ev: SwarmEvent) -> (r: SwarmEventJson)
    ensures
        r.fields() == spec_event_json(ev),
{
    match ev {
        SwarmEvent::BroadcastMessage(m) => SwarmEventJson {
            event_type: owned("broadcast"),
            peer_id: Some(m.peer_id),
            content: Some(m.content),
            latency: m.latency,
            nickname: m.nickname,
            msg_id: m.msg_id,
            address: None,
        },
        SwarmEvent::DirectMessage(m) => SwarmEventJson {
            event_type: owned("dm"),
            peer_id: Some(m.peer_id),
            content: Some(m.content),
            latency: m.latency,
            nickname: m.nickname,
            msg_id: m.msg_id,
            address: None,
        },
        SwarmEvent::PeerConnected(id) => SwarmEventJson {
            event_type: owned("peer_connected"),
            peer_id: Some(id),
            ..default_event()
        },
        SwarmEvent::PeerDisconnected(id) => SwarmEventJson {
            event_type: owned("peer_disconnected"),
            peer_id: Some(id),
            ..default_event()
        },
        SwarmEvent::ListenAddrEstablished(addr) => SwarmEventJson {
            event_type: owned("listen_addr"),
            address: Some(addr),
            ..default_event()
        },
        SwarmEvent::Receipt { peer_id, ack_for, .. } => SwarmEventJson {
            event_type: owned("receipt"),
            peer_id: Some(peer_id),
            msg_id: Some(ack_for),
            ..default_event()
        },
        SwarmEvent::PeerDiscovered { peer_id, addresses } => {
            let address = if addresses.len() > 0 {
                Some(owned(addresses[0].as_str()))
            } else {
                None
            };
            SwarmEventJson {
                event_type: owned("peer_discovered"),
                peer_id: Some(peer_id),
                address,
                ..default_event()
            }
        },
        SwarmEvent::PeerExpired { peer_id } => SwarmEventJson {
            event_type: owned("peer_expired"),
            peer_id: Some(peer_id),
            ..default_event()
        },
    }
}

/// The running node as the library sees it: its peer id, whether its swarm
/// task is attached, the events that arrived and are not yet handed out, and
/// whether the swarm task has ended.
#[derive(Debug)]
pub struct NodeState {
    /// The local peer id.
    pub peer_id: String,
    /// The swarm task's command and event channels are attached.
    pub running: bool,
    /// Events received and not yet polled, oldest first.
    pub inbox: VecDeque<SwarmEvent>,
    /// The swarm task closed its event channel.
    pub channel_closed: bool,
}

/// The peer id of a node that is still running, if any: starting such a node
/// again returns this id and changes nothing.
pub fn already_running(node: &Option<NodeState>) -> (r: Option<String>)
    ensures
        match node {
            Some(n) => if n.running {
                r matches Some(id) && id@ == n.peer_id@
            } else {
                r is None
            },
            None => r is None,
        },
{
    match node {
        Some(n) => if n.running {
            Some(owned(n.peer_id.as_str()))
        } else {
            None
        },
        None => None,
    }
}

/// Install a freshly started node with its peer id, replacing a stopped one.
pub fn install_node(node: &mut Option<NodeState>, peer_id: String)
    ensures
        *final(node) matches Some(n) && n.peer_id == peer_id && n.running && n.inbox@.len() == 0
            && !n.channel_closed,
{
    *node = Some(NodeState { peer_id, running: true, inbox: VecDeque::new(), channel_closed: false });
}

/// Stop the node: its channels are detached and events not yet polled are
/// dropped. Stopping a node that never started does nothing.
pub fn stop_node(node: &mut Option<NodeState>) -> (r: Result<(), String>)
    ensures
        r is Ok,
        match *old(node) {
            Some(n) => *final(node) matches Some(m) && m.peer_id == n.peer_id && !m.running
                && m.inbox@.len() == 0 && m.channel_closed == n.channel_closed,
            None => *final(node) is None,
        },
{
    match node {
        Some(n) => {
            n.running = false;
            n.inbox = VecDeque::new();
        },
        None => {},
    }
    Ok(())
}

/// The local peer id; an error when the node never started.
pub fn get_node_peer_id(node: &Option<NodeState>) -> (r: Result<String, String>)
    ensures
        match node {
            Some(n) => r matches Ok(id) && id@ == n.peer_id@,
            None => r matches Err(e) && e@ == "Node not started"@,
        },
{
    match node {
        Some(n) => Ok(owned(n.peer_id.as_str())),
        None => Err(owned("Node not started")),
    }
}

/// The error of a node that cannot take commands or hand out events: it
/// never started, or it was stopped.
pub open spec fn node_unavailable(node: Option<NodeState>) -> Option<Seq<char>> {
    match node {
        None => Some("Node not started"@),
        Some(n) => if !n.running {
            Some("Node stopped"@)
        } else {
            None
        },
    }
}

fn check_available(node: &Option<NodeState>) -> (r: Result<(), String>)
    ensures
        match node_unavailable(*node) {
            Some(msg) => r matches Err(e) && e@ == msg,
            None => r is Ok,
        },
{
    match node {
        None => Err(owned("Node not started")),
        Some(n) => if !n.running {
            Err(owned("Node stopped"))
        } else {
            Ok(())
        },
    }
}

/// Take the oldest event not yet handed out. Without events, a node whose
/// swarm task ended reports that; otherwise there is nothing yet.
pub fn take_event(node: &mut Option<NodeState>) -> (r: Result<Option<SwarmEvent>, String>)
    ensures
        match node_unavailable(*old(node)) {
            Some(msg) => r matches Err(e) && e@ == msg && *final(node) == *old(node),
            None => {
                let n = old(node).unwrap();
                if n.inbox@.len() > 0 {
                    &&& r == Ok::<Option<SwarmEvent>, String>(Some(n.inbox@[0]))
                    &&& *final(node) matches Some(m) && m.inbox@ == n.inbox@.drop_first()
                        && m.peer_id == n.peer_id && m.running == n.running
                        && m.channel_closed == n.channel_closed
                } else if n.channel_closed {
                    &&& r matches Err(e) && e@ == "Swarm task ended"@
                    &&& *final(node) == *old(node)
                } else {
                    &&& r == Ok::<Option<SwarmEvent>, String>(None)
                    &&& *final(node) == *old(node)
                }
            },
        },
{
    match check_available(node) {
        Err(e) => return Err(e),
        Ok(()) => {},
    }
    match node {
        Some(n) => if n.inbox.len() == 0 {
            if n.channel_closed {
                Err(owned("Swarm task ended"))
            } else {
                Ok(None)
            }
        } else {
            match n.inbox.pop_front() {
                Some(ev) => Ok(Some(ev)),
                None => Ok(None),
            }
        },
        None => Ok(None),
    }
}

/// Poll the next event as a host event (see [`take_event`]).
pub fn poll_event(node: &mut Option<NodeState>) -> (r: Result<Option<SwarmEventJson>, String>)
    ensures
        match node_unavailable(*old(node)) {
            Some(msg) => r matches Err(e) && e@ == msg && *final(node) == *old(node),
            None => {
                let n = old(node).unwrap();
                if n.inbox@.len() > 0 {
                    &&& r matches Ok(Some(j)) && j.fields() == spec_event_json(n.inbox@[0])
                    &&& *final(node) matches Some(m) && m.inbox@ == n.inbox@.drop_first()
                        && m.peer_id == n.peer_id && m.running == n.running
                        && m.channel_closed == n.channel_closed
                } else if n.channel_closed {
                    &&& r matches Err(e) && e@ == "Swarm task ended"@
                    &&& *final(node) == *old(node)
                } else {
                    &&& r matches Ok(None)
                    &&& *final(node) == *old(node)
                }
            },
        },
{
    match take_event(node) {
        Ok(Some(ev)) => Ok(Some(event_to_json(ev))),
        Ok(None) => Ok(None),
        Err(e) => Err(e),
    }
}

/// The command that sends a broadcast with the given id and nickname, when
/// the node can take commands.
pub fn send_broadcast(
    node: &Option<NodeState>,
    content: String,
    msg_id: String,
    nickname: Option<String>,
) -> (r: Result<SwarmCommand, String>)
    ensures
        match node_unavailable(*node) {
            Some(msg) => r matches Err(e) && e@ == msg,
            None => r == Ok::<SwarmCommand, String>(
                SwarmCommand::Publish { content, nickname, msg_id: Some(msg_id) },
            ),
        },
{
    match check_available(node) {
        Err(e) => Err(e),
        Ok(()) => Ok(SwarmCommand::Publish { content, nickname, msg_id: Some(msg_id) }),
    }
}

/// The command that sends a direct message with the given id and nickname,
/// when the node can take commands.
pub fn send_dm(
    node: &Option<NodeState>,
    peer_id: String,
    content: String,
    msg_id: String,
    nickname: Option<String>,
) -> (r: Result<SwarmCommand, String>)
    ensures
        match node_unavailable(*node) {
            Some(msg) => r matches Err(e) && e@ == msg,
            None => r == Ok::<SwarmCommand, String>(
                SwarmCommand::SendDm {
                    peer_id,
                    content,
                    nickname,
                    msg_id: Some(msg_id),
                    ack_for: None,
                },
            ),
        },
{
    match check_available(node) {
        Err(e) => Err(e),
        Ok(()) => Ok(
            SwarmCommand::SendDm { peer_id, content, nickname, msg_id: Some(msg_id), ack_for: None },
        ),
    }
}

/// What the node does about an event besides handing it to the host.
#[derive(Debug, Clone)]
pub enum MobileEffect {
    /// A peer connected: track it as online, store it, and send it the local
    /// nickname when the node can send.
    PeerOnline(String),
    /// A peer disconnected: stop tracking it as online.
    PeerOffline(String),
    /// A message carried a non-empty nickname: record it for the sender.
    NicknameHeard {
        /// The sender.
        peer_id: String,
        /// The nickname it announced.
        nickname: String,
    },
    /// Discovery found a peer: store it with its addresses.
    PeerFound {
        /// The peer found.
        peer_id: String,
        /// Its addresses, as text.
        addresses: Vec<String>,
    },
    /// Nothing to do.
    Nothing,
}

/// The effect of an event (see [`MobileEffect`]).
pub open spec fn spec_mobile_effect(ev: SwarmEvent) -> MobileEffect {
    match ev {
        SwarmEvent::PeerConnected(p) => MobileEffect::PeerOnline(p),
        SwarmEvent::PeerDisconnected(p) => MobileEffect::PeerOffline(p),
        SwarmEvent::BroadcastMessage(m) | SwarmEvent::DirectMessage(m) => match m.nickname {
            Some(n) => if n@.len() > 0 {
                MobileEffect::NicknameHeard { peer_id: m.peer_id, nickname: n }
            } else {
                MobileEffect::Nothing
            },
            None => MobileEffect::Nothing,
        },
        SwarmEvent::PeerDiscovered { peer_id, addresses } => MobileEffect::PeerFound {
            peer_id,
            addresses,
        },
        _ => MobileEffect::Nothing,
    }
}

/// The effect of an event (see [`MobileEffect`]).
pub fn mobile_event_effect(ev: SwarmEvent) -> (r: MobileEffect)
    ensures
        r == spec_mobile_effect(ev),
{
    match ev {
        SwarmEvent::PeerConnected(p) => MobileEffect::PeerOnline(p),
        SwarmEvent::PeerDisconnected(p) => MobileEffect::PeerOffline(p),
        SwarmEvent::BroadcastMessage(m) => match m.nickname {
            Some(n) => if !n.as_str().is_empty() {
                MobileEffect::NicknameHeard { peer_id: m.peer_id, nickname: n }
            } else {
                MobileEffect::Nothing
            },
            None => MobileEffect::Nothing,
        },
        SwarmEvent::DirectMessage(m) => match m.nickname {
            Some(n) => if !n.as_str().is_empty() {
                MobileEffect::NicknameHeard { peer_id: m.peer_id, nickname: n }
            } else {
                MobileEffect::Nothing
            },
            None => MobileEffect::Nothing,
        },
        SwarmEvent::PeerDiscovered { peer_id, addresses } => MobileEffect::PeerFound {
            peer_id,
            addresses,
        },
        _ => MobileEffect::Nothing,
    }
}

/// A known peer with its nicknames, as shown by the mobile host.
#[derive(Debug, Clone)]
pub struct MobilePeerRecord {
    pub peer_id: String,
    pub first_seen: String,
    pub last_seen: String,
    pub nickname: Option<String>,
    pub local_nickname: Option<String>,
    pub display_name: String,
}

/// The record of a known peer; when its display name could not be resolved,
/// the peer id stands in for it.
pub fn known_peer_record(
    peer_id: String,
    first_seen: String,
    last_seen: String,
    nickname: Option<String>,
    local_nickname: Option<String>,
    display_name: Option<String>,
) -> (r: MobilePeerRecord)
    ensures
        r.peer_id == peer_id,
        r.first_seen == first_seen,
        r.last_seen == last_seen,
        r.nickname == nickname,
        r.local_nickname == local_nickname,
        r.display_name@ == (match display_name {
            Some(d) => d@,
            None => peer_id@,
        }),
{
    let display_name = match display_name {
        Some(d) => d,
        None => owned(peer_id.as_str()),
    };
    MobilePeerRecord { peer_id, first_seen, last_seen, nickname, local_nickname, display_name }
}

/// A stored chat message as shown by the mobile host.
#[derive(Debug, Clone)]
pub struct ChatMessage {
    pub id: i32,
    pub content: String,
    pub peer_id: Option<String>,
    pub is_broadcast: bool,
    pub target_peer: Option<String>,
    pub sent: bool,
    pub msg_id: Option<String>,
    pub sent_at: Option<String>,
    pub created_at: String,
    pub sender_nickname: Option<String>,
}

/// A stored message row: flags as stored (`0` or `1`), times left out.
#[derive(Debug, Clone)]
pub struct StoredMessage {
    pub id: i32,
    pub content: String,
    pub peer_id: Option<String>,
    pub sent: i32,
    pub is_direct: i32,
    pub target_peer: Option<String>,
    pub msg_id: Option<String>,
    pub sender_nickname: Option<String>,
}

/// The smaller of two numbers.
pub open spec fn min_nat(a: nat, b: nat) -> nat {
    if a < b {
        a
    } else {
        b
    }
}

/// The first three bytes of the short form of a peer id (all of it when
/// shorter).
pub open spec fn peer_suffix(pid: Seq<char>) -> Seq<char> {
    byte_prefix(spec_short_peer_id(pid), min_nat(3, utf8_len(spec_short_peer_id(pid))))
}

/// The short form of the peer id can be cut after its first three bytes (or
/// it is shorter).
pub open spec fn peer_suffix_ok(pid: Seq<char>) -> bool {
    is_char_boundary(spec_short_peer_id(pid), min_nat(3, utf8_len(spec_short_peer_id(pid))))
}

/// The sender shown for a stored message: an announced nickname with a
/// short peer-id suffix, the nickname alone for the local user's own
/// messages, the resolved display name of a peer without a nickname.
pub open spec fn spec_sender_name(
    nickname: Option<Seq<char>>,
    peer_id: Option<Seq<char>>,
    resolved: Option<Seq<char>>,
) -> Option<Seq<char>> {
    match (nickname, peer_id) {
        (Some(n), Some(p)) => Some(n + " ("@ + peer_suffix(p) + ")"@),
        (Some(n), None) => Some(n),
        (None, Some(_)) => resolved,
        (None, None) => None,
    }
}

/// The sender shown for a stored message (see [`spec_sender_name`]).
pub fn sender_name(nickname: Option<String>, peer_id: Option<String>, resolved: Option<String>) -> (r:
    Option<String>)
    requires
        peer_id matches Some(p) ==> peer_suffix_ok(p@),
    ensures
        sv(r) == spec_sender_name(sv(nickname), sv(peer_id), sv(resolved)),
{
    match (nickname, peer_id) {
        (Some(nick), Some(pid)) => {
            let short = short_peer_id(pid.as_str());
            let blen = short.as_str().as_bytes().len();
            assert(blen == utf8_len(short@));
            let n = if blen < 3 {
                blen
            } else {
                3
            };
            assert(n == min_nat(3, utf8_len(short@)));
            match take_bytes(short.as_str(), n) {
                Some(suffix) => {
                    let ghost n0 = nick@;
                    let mut s = nick;
                    s.append(" (");
                    s.append(suffix.as_str());
                    s.append(")");
                    assert(s@ =~= n0 + " ("@ + peer_suffix(pid@) + ")"@);
                    Some(s)
                },
                None => None,
            }
        },
        (Some(nick), None) => Some(nick),
        (None, Some(_)) => resolved,
        (None, None) => None,
    }
}

/// A stored message as shown by the mobile host: broadcast when not direct,
/// sent when its flag is `1`, with the sender name of [`sender_name`] and the
/// times as formatted by the host.
pub fn message_to_chat(
    msg: StoredMessage,
    sent_at: Option<String>,
    created_at: String,
    resolved_name: Option<String>,
) -> (r: ChatMessage)
    requires
        msg.peer_id matches Some(p) ==> peer_suffix_ok(p@),
    ensures
        r.id == msg.id,
        r.content == msg.content,
        r.peer_id == msg.peer_id,
        r.is_broadcast == (msg.is_direct == 0),
        r.target_peer == msg.target_peer,
        r.sent == (msg.sent == 1),
        r.msg_id == msg.msg_id,
        r.sent_at == sent_at,
        r.created_at == created_at,
        sv(r.sender_nickname) == spec_sender_name(
            sv(msg.sender_nickname),
            sv(msg.peer_id),
            sv(resolved_name),
        ),
{
    let peer_copy = match &msg.peer_id {
        Some(p) => Some(owned(p.as_str())),
        None => None,
    };
    let sender_nickname = sender_name(msg.sender_nickname, peer_copy, resolved_name);
    ChatMessage {
        id: msg.id,
        content: msg.content,
        peer_id: msg.peer_id,
        is_broadcast: msg.is_direct == 0,
        target_peer: msg.target_peer,
        sent: msg.sent == 1,
        msg_id: msg.msg_id,
        sent_at,
        created_at,
        sender_nickname,
    }
}

/// A stored message as read, with the times and the sender's display name
/// that the host resolved for it.
#[derive(Debug, Clone)]
pub struct ChatRow {
    /// The stored message.
    pub msg: StoredMessage,
    /// When it was sent, formatted.
    pub sent_at: Option<String>,
    /// When it was stored, formatted.
    pub created_at: String,
    /// The sender's display name, when resolved.
    pub resolved_name: Option<String>,
}

/// The row's peer id, if any, can be shortened for a sender label.
pub open spec fn row_ok(row: ChatRow) -> bool {
    row.msg.peer_id matches Some(p) ==> peer_suffix_ok(p@)
}

/// `c` is the host message of the row (see [`message_to_chat`]).
pub open spec fn is_chat_of(c: ChatMessage, row: ChatRow) -> bool {
    &&& c.id == row.msg.id
    &&& c.content == row.msg.content
    &&& c.peer_id == row.msg.peer_id
    &&& c.is_broadcast == (row.msg.is_direct == 0)
    &&& c.target_peer == row.msg.target_peer
    &&& c.sent == (row.msg.sent == 1)
    &&& c.msg_id == row.msg.msg_id
    &&& c.sent_at == row.sent_at
    &&& c.created_at == row.created_at
    &&& sv(c.sender_nickname) == spec_sender_name(
        sv(row.msg.sender_nickname),
        sv(row.msg.peer_id),
        sv(row.resolved_name),
    )
}

fn row_to_chat(row: ChatRow) -> (r: ChatMessage)
    requires
        row_ok(row),
    ensures
        is_chat_of(r, row),
{
    let ChatRow { msg, sent_at, created_at, resolved_name } = row;
    message_to_chat(msg, sent_at, created_at, resolved_name)
}

/// Broadcast history for the host, oldest first, from rows read newest
/// first.
pub fn load_broadcast_messages(rows: Vec<ChatRow>) -> (r: Vec<ChatMessage>)
    requires
        forall|i: int| 0 <= i < rows@.len() ==> row_ok(#[trigger] rows@[i]),
    ensures
        r@.len() == rows@.len(),
        forall|i: int|
            0 <= i < r@.len() ==> is_chat_of(#[trigger] r@[i], rows@[rows@.len() - 1 - i]),
{
    let ghost all = rows@;
    let mut rows = rows;
    let mut out: Vec<ChatMessage> = Vec::new();
    while rows.len() > 0
        invariant
            rows@ == all.take(rows@.len() as int),
            rows@.len() <= all.len(),
            out@.len() + rows@.len() == all.len(),
            forall|i: int| 0 <= i < all.len() ==> row_ok(#[trigger] all[i]),
            forall|i: int|
                0 <= i < out@.len() ==> is_chat_of(#[trigger] out@[i], all[all.len() - 1 - i]),
        decreases rows.len(),
    {
        let ghost k: int = rows@.len() - 1;
        match rows.pop() {
            Some(row) => {
                assert(row == all[k]);
                out.push(row_to_chat(row));
                assert(rows@ =~= all.take(rows@.len() as int));
            },
            None => {},
        }
    }
    out
}

/// Direct-message history for the host, in the order the rows were read
/// (oldest first).
pub fn load_dm_messages(rows: Vec<ChatRow>) -> (r: Vec<ChatMessage>)
    requires
        forall|i: int| 0 <= i < rows@.len() ==> row_ok(#[trigger] rows@[i]),
    ensures
        r@.len() == rows@.len(),
        forall|i: int| 0 <= i < r@.len() ==> is_chat_of(#[trigger] r@[i], rows@[i]),
{
    let ghost all = rows@;
    let mut rows = rows;
    let mut reversed: Vec<ChatRow> = Vec::new();
    while rows.len() > 0
        invariant
            rows@ == all.take(rows@.len() as int),
            rows@.len() <= all.len(),
            reversed@.len() + rows@.len() == all.len(),
            forall|i: int| 0 <= i < reversed@.len() ==> #[trigger] reversed@[i] == all[all.len() - 1 - i],
        decreases rows.len(),
    {
        let ghost k: int = rows@.len() - 1;
        match rows.pop() {
            Some(row) => {
                reversed.push(row);
                assert(rows@ =~= all.take(rows@.len() as int));
            },
            None => {},
        }
    }
    let r = load_broadcast_messages(reversed);
    assert forall|i: int| 0 <= i < r@.len() implies is_chat_of(#[trigger] r@[i], all[i]) by {
        assert(reversed@[reversed@.len() - 1 - i] == all[i]);
    }
    r
}

} // verus!
