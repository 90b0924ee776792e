//! A lightweight front-end state built from chat lines, for exercising the
//! views with fixed content.

use vstd::prelude::*;
use crate::map::StrMap;
use crate::text::owned;
use crate::tui::logic::{sender_labels, spec_sender_label, texts};
use std::collections::VecDeque;

verus! {

/// Chat lines, sender labels and view settings.
#[derive(Clone, Debug)]
pub struct TuiTestState {
    /// The chat lines.
    pub messages: VecDeque<String>,
    /// The sender label of each chat line, by index.
    pub chat_message_peers: Vec<String>,
    /// Index of the active tab.
    pub active_tab: usize,
    /// Scroll offset of the chat list.
    pub chat_list_state_offset: usize,
    /// Count of unread broadcast messages.
    pub unread_broadcasts: u32,
    /// Count of unread direct messages, by peer id.
    pub unread_dms: StrMap<u32>,
    /// Terminal width in characters.
    pub terminal_width: usize,
}

/// The sample chat lines of a fresh test state.
pub open spec fn sample_lines() -> Seq<Seq<char>> {
    seq![
        "[You] Hello world"@,
        "[Peer1] How are you?"@,
        "[You] I'm good, thanks!"@,
        "[Peer2] Welcome to the chat"@,
        "[You] Thanks!"@,
    ]
}

/// The sample chat lines of a fresh test state.
pub fn test_messages() -> (r: VecDeque<String>)
    ensures
        texts(r@) == sample_lines(),
{
    let mut q: VecDeque<String> = VecDeque::new();
    q.push_back(owned("[You] Hello world"));
    q.push_back(owned("[Peer1] How are you?"));
    q.push_back(owned("[You] I'm good, thanks!"));
    q.push_back(owned("[Peer2] Welcome to the chat"));
    q.push_back(owned("[You] Thanks!"));
    assert(texts(q@) =~= sample_lines());
    q
}

impl TuiTestState {
    /// A state over the chat lines `lines` with the terminal width given,
    /// the first tab active, nothing scrolled and nothing unread.
    pub open spec fn holds(self, lines: Seq<Seq<char>>, width: usize) -> bool {
        &&& texts(self.messages@) == lines
        &&& texts(self.chat_message_peers@) == lines.map_values(
            |m: Seq<char>| spec_sender_label(m),
        )
        &&& self.active_tab == 0
        &&& self.chat_list_state_offset == 0
        &&& self.unread_broadcasts == 0
        &&& self.unread_dms@ == Map::<Seq<char>, u32>::empty()
        &&& self.terminal_width == width
    }

    /// A state over the sample chat lines, 80 columns wide.
    pub fn new() -> (r: Self)
        ensures
            r.holds(sample_lines(), 80),
    {
        Self::with_messages(test_messages())
    }

    /// A state over the given chat lines, 80 columns wide.
    pub fn with_messages(messages: VecDeque<String>) -> (r: Self)
        ensures
            r.holds(texts(messages@), 80),
    {
        Self::with_messages_and_width(messages, 80)
    }

    /// A state over the given chat lines and terminal width.
    pub fn with_messages_and_width(messages: VecDeque<String>, width: usize) -> (r: Self)
        ensures
            r.holds(texts(messages@), width),
    {
        let chat_message_peers = sender_labels(&messages);
        TuiTestState {
            messages,
            chat_message_peers,
            active_tab: 0,
            chat_list_state_offset: 0,
            unread_broadcasts: 0,
            unread_dms: StrMap::new(),
            terminal_width: width,
        }
    }
}

} // verus!
