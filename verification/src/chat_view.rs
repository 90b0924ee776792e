//! The chat state of the desktop front end and how swarm events change it:
//! the broadcast history with message ids, the direct-message conversations,
//! delivery receipts, known peers and nicknames.

use vstd::prelude::*;
use crate::fmt::{peer_display_name, spec_display_name};
use crate::map::StrMap;
use crate::mobile_node::{MessageEvent, SwarmEvent};
use crate::text::{owned, spec_trim, trim};
use std::collections::VecDeque;
use vstd::string::StringExecFns;

verus! {

/// Most broadcast messages kept.
pub const MAX_MESSAGE_HISTORY: usize = 1000;

/// Most messages kept per direct-message conversation.
pub const MAX_DM_HISTORY: usize = 1000;

/// A chat line as shown, with the peer that sent it.
#[derive(Debug, Clone)]
pub struct DisplayMessage {
    /// The shown text.
    pub text: String,
    /// The sender, for messages from other peers.
    pub sender_peer_id: Option<String>,
}

/// A known peer with its first and last sighting, formatted.
#[derive(Debug, Clone)]
pub struct PeerRecord {
    pub peer_id: String,
    pub first_seen: String,
    pub last_seen: String,
}

/// The chat state of the desktop front end.
#[derive(Debug)]
pub struct ChatState {
    /// Broadcast lines, oldest first.
    pub messages: VecDeque<DisplayMessage>,
    /// The message id of each broadcast line, by position.
    pub message_ids: VecDeque<Option<String>>,
    /// Receipts of broadcasts: by message id, the time each peer confirmed
    /// (IEEE-754 bits of epoch seconds).
    pub broadcast_receipts: StrMap<StrMap<u64>>,
    /// Direct-message lines, by peer, oldest first.
    pub dm_messages: StrMap<VecDeque<String>>,
    /// The message id of each direct-message line, by peer and position.
    pub dm_message_ids: StrMap<VecDeque<Option<String>>>,
    /// Receipts of direct messages: by message id, the peer and time.
    pub dm_receipts: StrMap<(String, u64)>,
    /// Known peers.
    pub peers: VecDeque<PeerRecord>,
    /// Peers connected now.
    pub concurrent_peers: usize,
    /// Local nicknames given to peers.
    pub local_nicknames: StrMap<String>,
    /// Nicknames the peers announced.
    pub received_nicknames: StrMap<String>,
    /// Peers with an open direct-message tab, in opening order.
    pub dm_tabs: Vec<String>,
    /// The local nickname.
    pub own_nickname: String,
    /// Whether the node is connected.
    pub connected: bool,
}

/// What the front end must do besides changing its state.
#[derive(Debug, Clone)]
pub enum ChatEffect {
    /// Store the nickname a peer announced.
    SetReceivedNickname { peer_id: String, nickname: String },
    /// Store a received message; a direct one is addressed to its sender's
    /// conversation.
    SaveMessage { content: String, peer_id: String, is_direct: bool },
    /// Store a receipt (`kind` 1 for a direct message, 0 for a broadcast).
    SaveReceipt { ack_for: String, peer_id: String, kind: i32, at: u64 },
    /// Store a newly connected peer, then report it with
    /// [`record_saved_peer`].
    SavePeer { peer_id: String },
    /// Send the local nickname to a peer (an empty direct message).
    AnnounceNickname { peer_id: String, nickname: String },
    /// Add a line to the log.
    Log(String),
}

/// The times an event is handled at: the clock as shown on chat lines, the
/// epoch time of receipts (IEEE-754 bits of seconds), and the time shown for
/// newly discovered peers.
#[derive(Debug, Clone)]
pub struct EventClock {
    pub display_time: String,
    pub now: u64,
    pub peer_time: String,
}

/// The text of an optional string.
pub open spec fn ov(o: Option<String>) -> Option<Seq<char>> {
    match o {
        Some(s) => Some(s@),
        None => None,
    }
}

/// The shown text and sender of each broadcast line.
pub open spec fn line_views(q: Seq<DisplayMessage>) -> Seq<(Seq<char>, Option<Seq<char>>)> {
    q.map_values(|m: DisplayMessage| (m.text@, ov(m.sender_peer_id)))
}

/// A sequence with one more item at the end, its first item dropped when
/// that makes it longer than `max` (`drop` says whether it is dropped).
pub open spec fn pushed<T>(s: Seq<T>, x: T, drop: bool) -> Seq<T> {
    if drop {
        s.push(x).drop_first()
    } else {
        s.push(x)
    }
}

/// A chat line: the time, the latency (empty when unknown), the sender in
/// brackets and the text, separated by single spaces.
pub open spec fn chat_line(time: Seq<char>, latency: Option<Seq<char>>, sender: Seq<char>, content: Seq<char>) -> Seq<char> {
    time + seq![' '] + (match latency {
        Some(l) => l,
        None => Seq::empty(),
    }) + seq![' ', '['] + sender + seq![']', ' '] + content
}

/// Build a chat line (see [`chat_line`]).
pub fn format_chat_line(time: &str, latency: &Option<String>, sender: &str, content: &str) -> (r: String)
    ensures
        r@ == chat_line(time@, ov(*latency), sender@, content@),
{
    let mut s = owned(time);
    crate::text::push_char(&mut s, ' ');
    match latency {
        Some(l) => s.append(l.as_str()),
        None => {},
    }
    crate::text::push_char(&mut s, ' ');
    crate::text::push_char(&mut s, '[');
    s.append(sender);
    crate::text::push_char(&mut s, ']');
    crate::text::push_char(&mut s, ' ');
    s.append(content);
    assert(s@ =~= chat_line(time@, ov(*latency), sender@, content@));
    s
}

/// The state is the old one but for the broadcast history, which gained a
/// line (text and sender given) and its id, the oldest of each dropped beyond
/// `MAX_MESSAGE_HISTORY` lines.
pub open spec fn broadcast_recorded(
    old: ChatState,
    new: ChatState,
    text: Seq<char>,
    sender: Option<Seq<char>>,
    msg_id: Option<String>,
) -> bool {
    let drop = old.messages@.len() + 1 > MAX_MESSAGE_HISTORY;
    &&& line_views(new.messages@) == pushed(line_views(old.messages@), (text, sender), drop)
    &&& new.message_ids@ == pushed(old.message_ids@, msg_id, drop)
    &&& new == ChatState { messages: new.messages, message_ids: new.message_ids, ..old }
}

pub(crate) fn record_broadcast(state: &mut ChatState, text: String, sender: Option<String>, msg_id: Option<String>)
    ensures
        broadcast_recorded(*old(state), *final(state), text@, ov(sender), msg_id),
{
    let ghost t = text@;
    let ghost p = ov(sender);
    state.messages.push_back(DisplayMessage { text, sender_peer_id: sender });
    state.message_ids.push_back(msg_id);
    assert(line_views(state.messages@) =~= line_views(old(state).messages@).push((t, p)));
    if state.messages.len() > MAX_MESSAGE_HISTORY {
        state.messages.pop_front();
        state.message_ids.pop_front();
        assert(line_views(state.messages@) =~= line_views(old(state).messages@).push((t, p)).drop_first());
    }
}

/// The messages stored under a key, none when the key is absent.
pub open spec fn queue_at<T>(m: Map<Seq<char>, VecDeque<T>>, k: Seq<char>) -> Seq<T> {
    if m.contains_key(k) {
        m[k]@
    } else {
        Seq::empty()
    }
}

/// `new` is `old` with the queue under `k` replaced by one holding
/// `items`.
pub open spec fn queue_replaced<T>(
    new: Map<Seq<char>, VecDeque<T>>,
    old: Map<Seq<char>, VecDeque<T>>,
    k: Seq<char>,
    items: Seq<T>,
) -> bool {
    &&& new.dom() == old.dom().insert(k)
    &&& forall|j: Seq<char>| j != k && #[trigger] old.contains_key(j) ==> new[j] == old[j]
    &&& new[k]@ == items
}

pub(crate) fn push_to_queue<T>(m: &mut StrMap<VecDeque<T>>, key: &str, item: T, drop: bool)
    ensures
        queue_replaced(final(m)@, old(m)@, key@, pushed(queue_at(old(m)@, key@), item, drop)),
{
    let mut q = match m.remove(key) {
        Some(q) => q,
        None => VecDeque::new(),
    };
    let ghost q0 = q@;
    q.push_back(item);
    if drop {
        q.pop_front();
    }
    assert(q@ =~= pushed(q0, item, drop));
    m.insert(owned(key), q);
    assert(m@.dom() =~= old(m)@.dom().insert(key@));
}

/// The text of each string.
pub open spec fn svs(q: Seq<String>) -> Seq<Seq<char>> {
    q.map_values(|s: String| s@)
}

/// The state is the old one but for the conversation with `peer`, which
/// gained a line and its id (the oldest of each dropped beyond
/// `MAX_DM_HISTORY` lines), and the tab of that conversation, opened if it
/// was not.
pub open spec fn dm_recorded(
    old: ChatState,
    new: ChatState,
    peer: Seq<char>,
    text: Seq<char>,
    msg_id: Option<String>,
) -> bool {
    &&& dm_lines_changed(old, new, peer, text, msg_id)
    &&& svs(new.dm_tabs@) == (if svs(old.dm_tabs@).contains(peer) {
        svs(old.dm_tabs@)
    } else {
        svs(old.dm_tabs@).push(peer)
    })
    &&& new == ChatState { dm_messages: new.dm_messages, dm_message_ids: new.dm_message_ids, dm_tabs: new.dm_tabs, ..old }
}

/// The conversation with `peer` gained a line and its id, the oldest of each
/// dropped beyond `MAX_DM_HISTORY` lines; the other conversations are as
/// they were.
pub open spec fn dm_lines_changed(
    old: ChatState,
    new: ChatState,
    peer: Seq<char>,
    text: Seq<char>,
    msg_id: Option<String>,
) -> bool {
    let drop = queue_at(old.dm_messages@, peer).len() + 1 > MAX_DM_HISTORY;
    &&& new.dm_messages@.dom() == old.dm_messages@.dom().insert(peer)
    &&& forall|j: Seq<char>| j != peer && #[trigger] old.dm_messages@.contains_key(j)
        ==> new.dm_messages@[j] == old.dm_messages@[j]
    &&& svs(new.dm_messages@[peer]@) == pushed(svs(queue_at(old.dm_messages@, peer)), text, drop)
    &&& queue_replaced(new.dm_message_ids@, old.dm_message_ids@, peer, pushed(queue_at(old.dm_message_ids@, peer), msg_id, drop))
}

pub(crate) fn record_dm_line(state: &mut ChatState, peer: &str, text: String, msg_id: Option<String>)
    ensures
        dm_lines_changed(*old(state), *final(state), peer@, text@, msg_id),
        *final(state) == (ChatState {
            dm_messages: final(state).dm_messages,
            dm_message_ids: final(state).dm_message_ids,
            ..*old(state)
        }),
{
    let ghost q0 = queue_at(state.dm_messages@, peer@);
    let len = match state.dm_messages.get(peer) {
        Some(q) => q.len(),
        None => 0,
    };
    let drop = len >= MAX_DM_HISTORY;
    push_to_queue(&mut state.dm_message_ids, peer, msg_id, drop);
    let ghost tv = text@;
    push_to_queue(&mut state.dm_messages, peer, text, drop);
    assert(svs(state.dm_messages@[peer@]@) =~= pushed(svs(q0), tv, drop));
}

fn has_tab(tabs: &Vec<String>, peer: &str) -> (r: bool)
    ensures
        r == svs(tabs@).contains(peer@),
{
    let mut i: usize = 0;
    while i < tabs.len()
        invariant
            i <= tabs@.len(),
            forall|j: int| 0 <= j < i ==> tabs@[j]@ != peer@,
        decreases tabs.len() - i,
    {
        if crate::text::str_eq(tabs[i].as_str(), peer) {
            assert(svs(tabs@)[i as int] == peer@);
            return true;
        }
        i += 1;
    }
    assert(!svs(tabs@).contains(peer@)) by {
        if svs(tabs@).contains(peer@) {
            let j = choose|j: int| 0 <= j < svs(tabs@).len() && svs(tabs@)[j] == peer@;
            assert(tabs@[j]@ == peer@);
        }
    }
    false
}

fn record_dm(state: &mut ChatState, peer: &str, text: String, msg_id: Option<String>)
    ensures
        dm_recorded(*old(state), *final(state), peer@, text@, msg_id),
{
    record_dm_line(state, peer, text, msg_id);
    if !has_tab(&state.dm_tabs, peer) {
        state.dm_tabs.push(owned(peer));
        assert(svs(state.dm_tabs@) =~= svs(old(state).dm_tabs@).push(peer@));
    }
}

/// The optional id is this id.
pub open spec fn is_id(o: Option<String>, ack: Seq<char>) -> bool {
    match o {
        Some(s) => s@ == ack,
        None => false,
    }
}

/// Some direct-message conversation holds a line with this message id.
pub open spec fn dm_holds_id(ids: Map<Seq<char>, VecDeque<Option<String>>>, ack: Seq<char>) -> bool {
    exists|k: Seq<char>, i: int|
        #![trigger ids[k]@[i]]
        ids.contains_key(k) && 0 <= i < ids[k]@.len() && is_id(ids[k]@[i], ack)
}

/// Whether a receipt is for a direct message: some conversation holds a line
/// with the acknowledged id.
pub fn is_dm_receipt(state: &ChatState, ack_for: &str) -> (r: bool)
    ensures
        r == dm_holds_id(state.dm_message_ids@, ack_for@),
{
    let keys = state.dm_message_ids.keys();
    let ghost ks = keys@.map_values(|s: String| s@);
    let mut k: usize = 0;
    while k < keys.len()
        invariant
            ks == keys@.map_values(|s: String| s@),
            ks.to_set() == state.dm_message_ids@.dom(),
            k <= keys@.len(),
            forall|a: int, i: int|
                #![trigger state.dm_message_ids@[ks[a]]@[i]]
                0 <= a < k && 0 <= i < state.dm_message_ids@[ks[a]]@.len()
                    ==> !is_id(state.dm_message_ids@[ks[a]]@[i], ack_for@),
        decreases keys.len() - k,
    {
        assert(ks[k as int] == keys@[k as int]@);
        assert(ks.to_set().contains(ks[k as int]));
        match state.dm_message_ids.get(keys[k].as_str()) {
            Some(q) => {
                let ghost key = ks[k as int];
                assert(key == keys@[k as int]@);
                let mut i: usize = 0;
                while i < q.len()
                    invariant
                        k < ks.len(),
                        key == ks[k as int],
                        state.dm_message_ids@.contains_key(key),
                        *q == state.dm_message_ids@[key],
                        i <= q@.len(),
                        forall|j: int| 0 <= j < i ==> !is_id(q@[j], ack_for@),
                    decreases q.len() - i,
                {
                    match &q[i] {
                        Some(s) => if crate::text::str_eq(s.as_str(), ack_for) {
                            assert(is_id(state.dm_message_ids@[ks[k as int]]@[i as int], ack_for@));
                            return true;
                        },
                        None => {},
                    }
                    i += 1;
                }
            },
            None => {},
        }
        k += 1;
    }
    assert(!dm_holds_id(state.dm_message_ids@, ack_for@)) by {
        if dm_holds_id(state.dm_message_ids@, ack_for@) {
            let (key, i) = choose|key: Seq<char>, i: int|
                #![trigger state.dm_message_ids@[key]@[i]]
                state.dm_message_ids@.contains_key(key) && 0 <= i
                    < state.dm_message_ids@[key]@.len() && is_id(state.dm_message_ids@[key]@[i], ack_for@);
            assert(ks.to_set().contains(key));
            let a = choose|a: int| 0 <= a < ks.len() && ks[a] == key;
            assert(state.dm_message_ids@[ks[a]]@[i] == state.dm_message_ids@[key]@[i]);
        }
    }
    false
}

/// The state is the old one but for the receipts: a direct-message receipt
/// records the peer and time under the id, and every receipt records the
/// peer's time among the broadcast receipts of the id.
pub open spec fn receipt_recorded(
    old: ChatState,
    new: ChatState,
    ack: Seq<char>,
    peer: Seq<char>,
    at: u64,
    is_dm: bool,
) -> bool {
    &&& if is_dm {
        new.dm_receipts@.dom() == old.dm_receipts@.dom().insert(ack)
            && (forall|j: Seq<char>| j != ack && #[trigger] old.dm_receipts@.contains_key(j)
                ==> new.dm_receipts@[j] == old.dm_receipts@[j])
            && new.dm_receipts@[ack].0@ == peer && new.dm_receipts@[ack].1 == at
    } else {
        new.dm_receipts == old.dm_receipts
    }
    &&& new.broadcast_receipts@.dom() == old.broadcast_receipts@.dom().insert(ack)
    &&& forall|j: Seq<char>| j != ack && #[trigger] old.broadcast_receipts@.contains_key(j)
        ==> new.broadcast_receipts@[j] == old.broadcast_receipts@[j]
    &&& new.broadcast_receipts@[ack]@ == (if old.broadcast_receipts@.contains_key(ack) {
        old.broadcast_receipts@[ack]@
    } else {
        Map::empty()
    }).insert(peer, at)
    &&& new == ChatState { dm_receipts: new.dm_receipts, broadcast_receipts: new.broadcast_receipts, ..old }
}

/// Record a receipt (see [`receipt_recorded`]).
pub fn apply_receipt_to_state(state: &mut ChatState, ack_for: &str, peer_id: &str, at: u64, is_dm: bool)
    ensures
        receipt_recorded(*old(state), *final(state), ack_for@, peer_id@, at, is_dm),
{
    if is_dm {
        state.dm_receipts.insert(owned(ack_for), (owned(peer_id), at));
        assert(state.dm_receipts@.dom() =~= old(state).dm_receipts@.dom().insert(ack_for@));
    }
    let mut inner = match state.broadcast_receipts.remove(ack_for) {
        Some(m) => m,
        None => StrMap::new(),
    };
    inner.insert(owned(peer_id), at);
    state.broadcast_receipts.insert(owned(ack_for), inner);
    assert(state.broadcast_receipts@.dom() =~= old(state).broadcast_receipts@.dom().insert(ack_for@));
}

/// Peer id, first and last sighting of each known peer.
pub open spec fn peer_views(q: Seq<PeerRecord>) -> Seq<(Seq<char>, Seq<char>, Seq<char>)> {
    q.map_values(|p: PeerRecord| (p.peer_id@, p.first_seen@, p.last_seen@))
}

/// The peer is among the known peers.
pub open spec fn knows_peer(q: Seq<PeerRecord>, id: Seq<char>) -> bool {
    exists|i: int| 0 <= i < q.len() && #[trigger] q[i].peer_id@ == id
}

fn find_peer(peers: &VecDeque<PeerRecord>, id: &str) -> (r: bool)
    ensures
        r == knows_peer(peers@, id@),
{
    let mut i: usize = 0;
    while i < peers.len()
        invariant
            i <= peers@.len(),
            forall|j: int| 0 <= j < i ==> peers@[j].peer_id@ != id@,
        decreases peers.len() - i,
    {
        if crate::text::str_eq(peers[i].peer_id.as_str(), id) {
            return true;
        }
        i += 1;
    }
    false
}

/// The effect is a log line with this text.
pub open spec fn is_log(e: ChatEffect, text: Seq<char>) -> bool {
    match e {
        ChatEffect::Log(l) => l@ == text,
        _ => false,
    }
}

/// Handling a received message: an announced nickname is recorded (and
/// stored); a blank message that carries a nickname is nothing more; any
/// other message becomes a line (time, latency, sender's display name, text)
/// in the broadcast history or in the sender's conversation, and is stored.
pub open spec fn message_step(
    old: ChatState,
    new: ChatState,
    e: MessageEvent,
    is_direct: bool,
    clock: EventClock,
    effects: Seq<ChatEffect>,
) -> bool {
    let named = match e.nickname {
        Some(n) => old.received_nicknames@.insert(e.peer_id@, n),
        None => old.received_nicknames@,
    };
    let nick_effects = match e.nickname {
        Some(n) => seq![ChatEffect::SetReceivedNickname { peer_id: e.peer_id, nickname: n }],
        None => Seq::<ChatEffect>::empty(),
    };
    let mid = ChatState { received_nicknames: new.received_nicknames, ..old };
    let line = chat_line(
        clock.display_time@,
        ov(e.latency),
        spec_display_name(e.peer_id@, old.local_nicknames@, named),
        e.content@,
    );
    &&& new.received_nicknames@ == named
    &&& if spec_trim(e.content@).len() == 0 && e.nickname is Some {
        new == mid && effects == nick_effects
    } else {
        &&& if is_direct {
            dm_recorded(mid, new, e.peer_id@, line, e.msg_id)
        } else {
            broadcast_recorded(mid, new, line, Some(e.peer_id@), e.msg_id)
        }
        &&& effects == nick_effects.push(
            ChatEffect::SaveMessage { content: e.content, peer_id: e.peer_id, is_direct },
        )
    }
}

fn handle_message(state: &mut ChatState, e: MessageEvent, is_direct: bool, clock: &EventClock) -> (r:
    Vec<ChatEffect>)
    ensures
        message_step(*old(state), *final(state), e, is_direct, *clock, r@),
{
    let mut effects: Vec<ChatEffect> = Vec::new();
    match &e.nickname {
        Some(n) => {
            state.received_nicknames.insert(e.peer_id.clone(), n.clone());
            effects.push(
                ChatEffect::SetReceivedNickname { peer_id: e.peer_id.clone(), nickname: n.clone() },
            );
        },
        None => {},
    }
    let ghost mid = *state;
    let ghost nick_effects = effects@;
    if trim(e.content.as_str()).as_str().is_empty() && e.nickname.is_some() {
        return effects;
    }
    let sender = peer_display_name(
        e.peer_id.as_str(),
        &state.local_nicknames,
        &state.received_nicknames,
    );
    let line = format_chat_line(clock.display_time.as_str(), &e.latency, sender.as_str(), e.content.as_str());
    let MessageEvent { content, peer_id, latency, nickname, msg_id } = e;
    if is_direct {
        record_dm(state, peer_id.as_str(), line, msg_id);
    } else {
        record_broadcast(state, line, Some(peer_id.clone()), msg_id);
    }
    effects.push(ChatEffect::SaveMessage { content, peer_id, is_direct });
    effects
}

/// The line a received message shows: the time, a space, the latency (empty
/// when unknown), a space, the sender's name in brackets, a space, the text.
pub open spec fn received_text(time: Seq<char>, latency: Option<String>, sender: Seq<char>, content: Seq<char>) -> Seq<char> {
    let lat = match latency {
        Some(l) => l@,
        None => Seq::<char>::empty(),
    };
    time + " "@ + lat + " ["@ + sender + "] "@ + content
}

/// The name a received message is shown under: the local nickname set for
/// the sender wins; without one, the nickname the message announces.
pub open spec fn shown_sender(old: ChatState, m: MessageEvent, sender: Seq<char>) -> bool {
    &&& old.local_nicknames@.contains_key(m.peer_id@) ==> sender == old.local_nicknames@[m.peer_id@]@
    &&& (!old.local_nicknames@.contains_key(m.peer_id@) && m.nickname is Some) ==> sender == m.nickname->0@
}

/// A received broadcast or direct message with text adds, at the end of the
/// broadcast history or of the sender's conversation, the line of its time,
/// latency, sender and text, the sender being shown under the local nickname
/// when one is set for it, else under the nickname it announces.
pub proof fn lemma_received_line(
    old: ChatState,
    new: ChatState,
    m: MessageEvent,
    is_direct: bool,
    clock: EventClock,
    effects: Seq<ChatEffect>,
)
    requires
        swarm_step(
            old,
            new,
            if is_direct {
                SwarmEvent::DirectMessage(m)
            } else {
                SwarmEvent::BroadcastMessage(m)
            },
            clock,
            effects,
        ),
        spec_trim(m.content@).len() > 0,
    ensures
        !is_direct ==> {
            &&& new.messages@.len() > 0
            &&& new.messages@.last().sender_peer_id matches Some(p) && p@ == m.peer_id@
            &&& exists|sender: Seq<char>| #[trigger] shown_sender(old, m, sender)
                && new.messages@.last().text@ == received_text(clock.display_time@, m.latency, sender, m.content@)
        },
        is_direct ==> {
            &&& new.dm_messages@.contains_key(m.peer_id@)
            &&& new.dm_messages@[m.peer_id@]@.len() > 0
            &&& exists|sender: Seq<char>| #[trigger] shown_sender(old, m, sender)
                && new.dm_messages@[m.peer_id@]@.last()@ == received_text(clock.display_time@, m.latency, sender, m.content@)
        },
{
    reveal_strlit(" ");
    reveal_strlit(" [");
    reveal_strlit("] ");
    let named = match m.nickname {
        Some(n) => old.received_nicknames@.insert(m.peer_id@, n),
        None => old.received_nicknames@,
    };
    let sender = spec_display_name(m.peer_id@, old.local_nicknames@, named);
    let line = chat_line(clock.display_time@, ov(m.latency), sender, m.content@);
    assert(line =~= received_text(clock.display_time@, m.latency, sender, m.content@));
    assert(shown_sender(old, m, sender));
    let mid = ChatState { received_nicknames: new.received_nicknames, ..old };
    if !is_direct {
        let drop = mid.messages@.len() + 1 > MAX_MESSAGE_HISTORY;
        let lv = line_views(new.messages@);
        assert(lv == pushed(line_views(mid.messages@), (line, Some(m.peer_id@)), drop));
        assert(lv.last() == (line, Some(m.peer_id@)));
        assert(lv.len() == new.messages@.len());
        assert(lv[lv.len() - 1] == (new.messages@.last().text@, ov(new.messages@.last().sender_peer_id)));
    } else {
        let q = queue_at(mid.dm_messages@, m.peer_id@);
        let drop = q.len() + 1 > MAX_DM_HISTORY;
        let v = svs(new.dm_messages@[m.peer_id@]@);
        assert(v == pushed(svs(q), line, drop));
        assert(v.last() == line);
        assert(v[v.len() - 1] == new.dm_messages@[m.peer_id@]@.last()@);
    }
}

/// How a swarm event changes the chat state and what it asks the front end
/// to do:
/// - messages: see [`message_step`];
/// - a receipt is recorded (see [`receipt_recorded`]) and stored, as a
///   direct-message receipt too when a conversation holds its id;
/// - a connection counts one more peer, stores the peer when it is new (its
///   record follows with [`record_saved_peer`]) and sends it the local
///   nickname;
/// - a disconnection marks the node disconnected, counts one peer less and
///   logs it;
/// - a new listen address and an expired discovery are logged;
/// - a discovered peer that is not known yet is added, first and last seen
///   now.
pub open spec fn swarm_step(
    old: ChatState,
    new: ChatState,
    event: SwarmEvent,
    clock: EventClock,
    effects: Seq<ChatEffect>,
) -> bool {
    match event {
        SwarmEvent::BroadcastMessage(m) => message_step(old, new, m, false, clock, effects),
        SwarmEvent::DirectMessage(m) => message_step(old, new, m, true, clock, effects),
        SwarmEvent::Receipt { peer_id, ack_for, .. } => {
            let is_dm = dm_holds_id(old.dm_message_ids@, ack_for@);
            &&& receipt_recorded(old, new, ack_for@, peer_id@, clock.now, is_dm)
            &&& effects == if is_dm {
                seq![
                    ChatEffect::SaveReceipt { ack_for, peer_id, kind: 1, at: clock.now },
                    ChatEffect::SaveReceipt { ack_for, peer_id, kind: 0, at: clock.now },
                ]
            } else {
                seq![ChatEffect::SaveReceipt { ack_for, peer_id, kind: 0, at: clock.now }]
            }
        },
        SwarmEvent::PeerConnected(p) => {
            &&& new == ChatState { concurrent_peers: (old.concurrent_peers + 1) as usize, ..old }
            &&& effects == if knows_peer(old.peers@, p@) {
                seq![ChatEffect::AnnounceNickname { peer_id: p, nickname: old.own_nickname }]
            } else {
                seq![
                    ChatEffect::SavePeer { peer_id: p },
                    ChatEffect::AnnounceNickname { peer_id: p, nickname: old.own_nickname },
                ]
            }
        },
        SwarmEvent::PeerDisconnected(p) => {
            &&& new == ChatState {
                connected: false,
                concurrent_peers: if old.concurrent_peers > 0 {
                    (old.concurrent_peers - 1) as usize
                } else {
                    0
                },
                ..old
            }
            &&& effects.len() == 1 && is_log(effects[0], "Peer disconnected: "@ + p@)
        },
        SwarmEvent::ListenAddrEstablished(a) => {
            &&& new == old
            &&& effects.len() == 1 && is_log(effects[0], "Listening on: "@ + a@)
        },
        SwarmEvent::PeerDiscovered { peer_id, .. } => {
            &&& peer_views(new.peers@) == if knows_peer(old.peers@, peer_id@) {
                peer_views(old.peers@)
            } else {
                peer_views(old.peers@).push((peer_id@, clock.peer_time@, clock.peer_time@))
            }
            &&& new == ChatState { peers: new.peers, ..old }
            &&& effects.len() == 0
        },
        SwarmEvent::PeerExpired { peer_id } => {
            &&& new == old
            &&& effects.len() == 1 && is_log(effects[0], "Peer expired: "@ + peer_id@)
        },
    }
}

fn log_effect(prefix: &str, subject: &str) -> (r: ChatEffect)
    ensures
        is_log(r, prefix@ + subject@),
{
    let mut s = owned(prefix);
    s.append(subject);
    ChatEffect::Log(s)
}

/// Apply a swarm event to the chat state (see [`swarm_step`]); the effects
/// are returned in the order they are to be carried out.
pub fn process_swarm_event(state: &mut ChatState, event: SwarmEvent, clock: &EventClock) -> (r: Vec<
    ChatEffect,
>)
    requires
        event is PeerConnected ==> old(state).concurrent_peers < usize::MAX,
    ensures
        swarm_step(*old(state), *final(state), event, *clock, r@),
{
    match event {
        SwarmEvent::BroadcastMessage(m) => handle_message(state, m, false, clock),
        SwarmEvent::DirectMessage(m) => handle_message(state, m, true, clock),
        SwarmEvent::Receipt { peer_id, ack_for, .. } => {
            let is_dm = is_dm_receipt(state, ack_for.as_str());
            apply_receipt_to_state(state, ack_for.as_str(), peer_id.as_str(), clock.now, is_dm);
            let ghost a = ack_for;
            let ghost p = peer_id;
            let mut effects: Vec<ChatEffect> = Vec::new();
            if is_dm {
                effects.push(
                    ChatEffect::SaveReceipt {
                        ack_for: ack_for.clone(),
                        peer_id: peer_id.clone(),
                        kind: 1,
                        at: clock.now,
                    },
                );
            }
            effects.push(ChatEffect::SaveReceipt { ack_for, peer_id, kind: 0, at: clock.now });
            assert(effects@ =~= if is_dm {
                seq![
                    ChatEffect::SaveReceipt { ack_for: a, peer_id: p, kind: 1, at: clock.now },
                    ChatEffect::SaveReceipt { ack_for: a, peer_id: p, kind: 0, at: clock.now },
                ]
            } else {
                seq![ChatEffect::SaveReceipt { ack_for: a, peer_id: p, kind: 0, at: clock.now }]
            });
            effects
        },
        SwarmEvent::PeerConnected(p) => {
            state.concurrent_peers = state.concurrent_peers + 1;
            let ghost pv = p;
            let mut effects: Vec<ChatEffect> = Vec::new();
            let known = find_peer(&state.peers, p.as_str());
            if !known {
                effects.push(ChatEffect::SavePeer { peer_id: p.clone() });
            }
            effects.push(
                ChatEffect::AnnounceNickname { peer_id: p, nickname: state.own_nickname.clone() },
            );
            assert(effects@ =~= if known {
                seq![ChatEffect::AnnounceNickname { peer_id: pv, nickname: old(state).own_nickname }]
            } else {
                seq![
                    ChatEffect::SavePeer { peer_id: pv },
                    ChatEffect::AnnounceNickname { peer_id: pv, nickname: old(state).own_nickname },
                ]
            });
            effects
        },
        SwarmEvent::PeerDisconnected(p) => {
            state.connected = false;
            state.concurrent_peers = state.concurrent_peers.saturating_sub(1);
            let mut effects: Vec<ChatEffect> = Vec::new();
            effects.push(log_effect("Peer disconnected: ", p.as_str()));
            effects
        },
        SwarmEvent::ListenAddrEstablished(a) => {
            let mut effects: Vec<ChatEffect> = Vec::new();
            effects.push(log_effect("Listening on: ", a.as_str()));
            effects
        },
        SwarmEvent::PeerDiscovered { peer_id, .. } => {
            if !find_peer(&state.peers, peer_id.as_str()) {
                let ghost before = peer_views(state.peers@);
                state.peers.push_back(
                    PeerRecord {
                        peer_id,
                        first_seen: clock.peer_time.clone(),
                        last_seen: clock.peer_time.clone(),
                    },
                );
                assert(peer_views(state.peers@) =~= before.push(
                    (state.peers@.last().peer_id@, clock.peer_time@, clock.peer_time@),
                ));
            }
            Vec::new()
        },
        SwarmEvent::PeerExpired { peer_id } => {
            let mut effects: Vec<ChatEffect> = Vec::new();
            effects.push(log_effect("Peer expired: ", peer_id.as_str()));
            effects
        },
    }
}

/// Add a peer that was just stored, with its first and last sighting as the
/// store gave them.
pub fn record_saved_peer(state: &mut ChatState, peer_id: String, first_seen: String, last_seen: String)
    ensures
        peer_views(final(state).peers@) == peer_views(old(state).peers@).push(
            (peer_id@, first_seen@, last_seen@),
        ),
        *final(state) == (ChatState { peers: final(state).peers, ..*old(state) }),
{
    let ghost v = (peer_id@, first_seen@, last_seen@);
    state.peers.push_back(PeerRecord { peer_id, first_seen, last_seen });
    assert(peer_views(state.peers@) =~= peer_views(old(state).peers@).push(v));
}

/// Every history line has its message id, and no history is longer than
/// its limit.
pub open spec fn histories_aligned(s: ChatState) -> bool {
    &&& s.messages@.len() == s.message_ids@.len()
    &&& s.messages@.len() <= MAX_MESSAGE_HISTORY
    &&& s.dm_messages@.dom() == s.dm_message_ids@.dom()
    &&& forall|k: Seq<char>|
        #[trigger] s.dm_messages@.contains_key(k) ==> s.dm_messages@[k]@.len()
            == s.dm_message_ids@[k]@.len() && s.dm_messages@[k]@.len() <= MAX_DM_HISTORY
}

proof fn lemma_dm_lines_aligned(old: ChatState, new: ChatState, peer: Seq<char>, text: Seq<char>, msg_id: Option<String>)
    requires
        histories_aligned(old),
        dm_lines_changed(old, new, peer, text, msg_id),
        new.messages == old.messages,
        new.message_ids == old.message_ids,
    ensures
        histories_aligned(new),
{
    assert(new.dm_messages@.dom() =~= new.dm_message_ids@.dom());
    assert forall|k: Seq<char>| #[trigger] new.dm_messages@.contains_key(k) implies new.dm_messages@[k]@.len()
        == new.dm_message_ids@[k]@.len() && new.dm_messages@[k]@.len() <= MAX_DM_HISTORY by {
        if k == peer {
            assert(svs(new.dm_messages@[k]@).len() == new.dm_messages@[k]@.len());
            assert(svs(queue_at(old.dm_messages@, peer)).len() == queue_at(old.dm_messages@, peer).len());
            if old.dm_messages@.contains_key(peer) {
                assert(old.dm_messages@[peer]@.len() == old.dm_message_ids@[peer]@.len());
            }
        } else {
            assert(old.dm_messages@.contains_key(k));
        }
    }
}

proof fn lemma_broadcast_aligned(old: ChatState, new: ChatState, text: Seq<char>, sender: Option<Seq<char>>, msg_id: Option<String>)
    requires
        histories_aligned(old),
        broadcast_recorded(old, new, text, sender, msg_id),
    ensures
        histories_aligned(new),
{
    assert(line_views(new.messages@).len() == new.messages@.len());
    assert(line_views(old.messages@).len() == old.messages@.len());
}

/// Handling any swarm event keeps every history line paired with its
/// message id and every history within its limit.
pub proof fn lemma_step_keeps_histories_aligned(
    old: ChatState,
    new: ChatState,
    event: SwarmEvent,
    clock: EventClock,
    effects: Seq<ChatEffect>,
)
    requires
        histories_aligned(old),
        swarm_step(old, new, event, clock, effects),
    ensures
        histories_aligned(new),
{
    match event {
        SwarmEvent::BroadcastMessage(m) | SwarmEvent::DirectMessage(m) => {
            let is_direct = event is DirectMessage;
            let named = match m.nickname {
                Some(n) => old.received_nicknames@.insert(m.peer_id@, n),
                None => old.received_nicknames@,
            };
            let mid = ChatState { received_nicknames: new.received_nicknames, ..old };
            let line = chat_line(
                clock.display_time@,
                ov(m.latency),
                spec_display_name(m.peer_id@, old.local_nicknames@, named),
                m.content@,
            );
            if !(spec_trim(m.content@).len() == 0 && m.nickname is Some) {
                if is_direct {
                    lemma_dm_lines_aligned(mid, new, m.peer_id@, line, m.msg_id);
                } else {
                    lemma_broadcast_aligned(mid, new, line, Some(m.peer_id@), m.msg_id);
                }
            }
        },
        _ => {},
    }
}

/// Sending a line to everyone or to one peer keeps every history line
/// paired with its message id and every history within its limit.
pub proof fn lemma_send_keeps_histories_aligned(
    old: ChatState,
    new: ChatState,
    dm_peer: Option<Seq<char>>,
    text: Seq<char>,
    msg_id: String,
)
    requires
        histories_aligned(old),
        match dm_peer {
            Some(p) => dm_lines_changed(old, new, p, text, Some(msg_id)) && new == (ChatState {
                dm_messages: new.dm_messages,
                dm_message_ids: new.dm_message_ids,
                ..old
            }),
            None => broadcast_recorded(old, new, text, None, Some(msg_id)),
        },
    ensures
        histories_aligned(new),
{
    match dm_peer {
        Some(p) => lemma_dm_lines_aligned(old, new, p, text, Some(msg_id)),
        None => lemma_broadcast_aligned(old, new, text, None, Some(msg_id)),
    }
}

/// A line the local user wrote: the time, the nickname in brackets and the
/// text.
pub open spec fn own_line(time: Seq<char>, nickname: Seq<char>, content: Seq<char>) -> Seq<char> {
    time + seq![' ', '['] + nickname + seq![']', ' '] + content
}

/// The line shown for one's own message (see [`own_line`]).
pub(crate) fn own_line_text(time: &str, nickname: &str, content: &str) -> (r: String)
    ensures
        r@ == own_line(time@, nickname@, content@),
{
    let mut display = owned(time);
    crate::text::push_char(&mut display, ' ');
    crate::text::push_char(&mut display, '[');
    display.append(nickname);
    crate::text::push_char(&mut display, ']');
    crate::text::push_char(&mut display, ' ');
    display.append(content);
    assert(display@ =~= own_line(time@, nickname@, content@));
    display
}

/// Send a line the local user wrote, to everyone or to one peer: it joins
/// the broadcast history (with no sender) or that conversation with its id
/// (the oldest dropped beyond the limit), and the command that sends it is
/// returned, carrying the local nickname.
pub fn send_message(state: &mut ChatState, input: String, dm_peer: Option<&str>, msg_id: String, time: &str) -> (r:
    crate::mobile_node::SwarmCommand)
    ensures
        match dm_peer {
            Some(p) => {
                &&& dm_lines_changed(*old(state), *final(state), p@, own_line(time@, old(state).own_nickname@, input@), Some(msg_id))
                &&& *final(state) == (ChatState {
                    dm_messages: final(state).dm_messages,
                    dm_message_ids: final(state).dm_message_ids,
                    ..*old(state)
                })
                &&& r matches crate::mobile_node::SwarmCommand::SendDm { peer_id, content, nickname, msg_id: id, ack_for }
                    && peer_id@ == p@ && content == input && nickname == Some(old(state).own_nickname)
                    && id == Some(msg_id) && ack_for is None
            },
            None => {
                &&& broadcast_recorded(*old(state), *final(state), own_line(time@, old(state).own_nickname@, input@), None, Some(msg_id))
                &&& r == crate::mobile_node::SwarmCommand::Publish {
                    content: input,
                    nickname: Some(old(state).own_nickname),
                    msg_id: Some(msg_id),
                }
            },
        },
{
    let nickname = state.own_nickname.clone();
    let display = own_line_text(time, nickname.as_str(), input.as_str());
    match dm_peer {
        Some(p) => {
            record_dm_line(state, p, display, Some(msg_id.clone()));
            crate::mobile_node::SwarmCommand::SendDm {
                peer_id: owned(p),
                content: input,
                nickname: Some(nickname),
                msg_id: Some(msg_id),
                ack_for: None,
            }
        },
        None => {
            record_broadcast(state, display, None, Some(msg_id.clone()));
            crate::mobile_node::SwarmCommand::Publish {
                content: input,
                nickname: Some(nickname),
                msg_id: Some(msg_id),
            }
        },
    }
}

} // verus!
