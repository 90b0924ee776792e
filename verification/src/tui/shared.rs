//! Shared types of the terminal chat front end.

use vstd::prelude::*;
use crate::map::StrMap;
use std::collections::VecDeque;

verus! {

/// Maximum number of messages to keep in memory.
pub const MAX_MESSAGES: usize = 1000;

/// Maximum number of log messages to keep in memory.
pub const MAX_LOGS: usize = 1000;

/// A chat message with optional sender information.
#[derive(Clone, Debug)]
pub struct ChatMessage {
    /// The message content.
    pub content: String,
    /// Peer id of the sender, for messages from other users.
    pub peer_id: Option<String>,
    /// Sender nickname.
    pub nickname: Option<String>,
    /// When the message was sent.
    pub timestamp: String,
}

/// Unread-message counters.
#[derive(Clone, Debug)]
pub struct NotificationState {
    /// Count of unread broadcast messages.
    pub unread_broadcasts: u32,
    /// Count of unread direct messages, by peer id.
    pub unread_dms: StrMap<u32>,
}

impl Default for NotificationState {
    /// No unread message.
    fn default() -> (r: Self)
        ensures
            r.unread_broadcasts == 0,
            r.unread_dms@ == Map::<Seq<char>, u32>::empty(),
    {
        NotificationState { unread_broadcasts: 0, unread_dms: StrMap::new() }
    }
}

/// The state of the terminal chat front end.
#[derive(Clone, Debug)]
pub struct TuiState {
    /// The chat messages of the chat view.
    pub messages: VecDeque<ChatMessage>,
    /// The sender label of each chat message, by index.
    pub chat_message_peers: Vec<String>,
    /// Index of the active tab.
    pub active_tab: usize,
    /// Scroll offset of the chat message list.
    pub chat_scroll_offset: usize,
    /// Whether the chat view follows new messages.
    pub chat_auto_scroll: bool,
    /// Selected row of the peer list.
    pub peer_selection: usize,
    /// Scroll offset of the debug log.
    pub debug_scroll_offset: usize,
    /// Whether the debug log follows new lines.
    pub debug_auto_scroll: bool,
    /// Terminal width in characters.
    pub terminal_width: usize,
    /// Nickname of the local user.
    pub own_nickname: String,
    /// Local nicknames given to peers, by peer id.
    pub local_nicknames: StrMap<String>,
    /// Nicknames that peers announced, by peer id.
    pub received_nicknames: StrMap<String>,
    /// Direct-message conversations, by peer id.
    pub dm_messages: StrMap<VecDeque<ChatMessage>>,
}

/// The state that a new front end starts from.
pub open spec fn is_initial_state(s: TuiState) -> bool {
    &&& s.messages@ == Seq::<ChatMessage>::empty()
    &&& s.chat_message_peers@ == Seq::<String>::empty()
    &&& has_initial_settings(s)
}

/// Everything but the chat messages is as a new front end has it: the chat
/// tab active, both views following new lines, an 80-column terminal, no
/// nickname, no known peer and no conversation.
pub open spec fn has_initial_settings(s: TuiState) -> bool {
    &&& s.active_tab == 0
    &&& s.chat_scroll_offset == 0
    &&& s.chat_auto_scroll
    &&& s.peer_selection == 0
    &&& s.debug_scroll_offset == 0
    &&& s.debug_auto_scroll
    &&& s.terminal_width == 80
    &&& s.own_nickname@ == Seq::<char>::empty()
    &&& s.local_nicknames@ == Map::<Seq<char>, String>::empty()
    &&& s.received_nicknames@ == Map::<Seq<char>, String>::empty()
    &&& s.dm_messages@ == Map::<Seq<char>, VecDeque<ChatMessage>>::empty()
}

impl Default for TuiState {
    /// No message, the chat tab active, both views following new lines, an
    /// 80-column terminal, no nickname.
    fn default() -> (r: Self)
        ensures
            is_initial_state(r),
    {
        TuiState {
            messages: VecDeque::new(),
            chat_message_peers: Vec::new(),
            active_tab: 0,
            chat_scroll_offset: 0,
            chat_auto_scroll: true,
            peer_selection: 0,
            debug_scroll_offset: 0,
            debug_auto_scroll: true,
            terminal_width: 80,
            own_nickname: String::new(),
            local_nicknames: StrMap::new(),
            received_nicknames: StrMap::new(),
            dm_messages: StrMap::new(),
        }
    }
}

} // verus!
