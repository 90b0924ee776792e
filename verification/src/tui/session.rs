//! The decisions of the single-screen terminal chat loop: what a key press
//! or an arriving message does to the view state, and what is left for the
//! loop to do (send, open or close a tab, switch mouse capture, leave).

use vstd::prelude::*;
use crate::map::StrMap;
use crate::tab::TabContent;
use crate::text::{decimal, utf8_len};
use std::collections::VecDeque;

verus! {

/// Most messages kept in the chat and in each conversation.
pub const SESSION_MAX_MESSAGES: usize = 1000;

/// Lines that page up and page down move.
pub const PAGE_LINES: usize = 20;

/// A key as the loop tells them apart.
#[derive(Debug, Clone, Copy, PartialEq, Eq, Structural)]
pub enum SessionKey {
    F12,
    Esc,
    /// Ctrl-Q.
    Quit,
    /// Alt-Enter.
    AltEnter,
    Enter,
    /// Ctrl-W.
    CloseTab,
    /// Ctrl-N or Ctrl-G.
    JumpUnread,
    Tab,
    BackTab,
    Up,
    Down,
    PageUp,
    PageDown,
    Home,
    End,
    /// A character, backspace, delete, left or right.
    Edit,
    /// Any other key.
    Other,
}

/// The loop's view state.
#[derive(Debug)]
pub struct SessionState {
    pub active_tab: usize,
    pub mouse_capture: bool,
    pub peer_selection: usize,
    pub chat_scroll_offset: usize,
    pub chat_auto_scroll: bool,
    pub log_scroll_offset: usize,
    pub log_auto_scroll: bool,
    pub unread_broadcasts: u32,
    /// Unread direct messages, by peer.
    pub unread_dms: StrMap<u32>,
}

/// What the loop knows when a key comes: the active tab's content, the
/// number of tabs and the lengths of the chat, the log and the peer list.
#[derive(Debug, Clone)]
pub struct SessionContext {
    pub tab: TabContent,
    pub tab_count: usize,
    pub message_count: usize,
    pub log_count: usize,
    pub peer_count: usize,
}

/// What is left for the loop after a key.
#[derive(Debug, Clone, PartialEq, Eq)]
pub enum SessionAction {
    /// Nothing but a redraw.
    Redraw,
    /// Restore the terminal and leave.
    Exit,
    /// Turn mouse capture on or off.
    SetMouseCapture(bool),
    /// Put a line break into the active tab's input.
    NewLine,
    /// Give the key to the active tab's input.
    TypeKey,
    /// Publish the chat input (when it holds text) and empty it.
    SendChat,
    /// Open a direct-message tab for the peer at this row of the list.
    OpenPeerAt(usize),
    /// Send the input of this peer's conversation (when it holds text).
    SendDm(String),
    /// Close this peer's conversation tab, its messages and its input.
    CloseDm(String),
    /// Open (or show) this peer's conversation tab.
    OpenDm(String),
    /// The active tab changed; call [`on_tab_shown`] with its content.
    TabSwitched,
}

/// The view state as plain values.
pub struct SessionModel {
    pub active_tab: int,
    pub mouse_capture: bool,
    pub peer_selection: int,
    pub chat_scroll_offset: int,
    pub chat_auto_scroll: bool,
    pub log_scroll_offset: int,
    pub log_auto_scroll: bool,
    pub unread_broadcasts: int,
    pub unread_dms: Map<Seq<char>, u32>,
}

impl SessionState {
    /// The state as plain values.
    pub closed spec fn model(&self) -> SessionModel {
        SessionModel {
            active_tab: self.active_tab as int,
            mouse_capture: self.mouse_capture,
            peer_selection: self.peer_selection as int,
            chat_scroll_offset: self.chat_scroll_offset as int,
            chat_auto_scroll: self.chat_auto_scroll,
            log_scroll_offset: self.log_scroll_offset as int,
            log_auto_scroll: self.log_auto_scroll,
            unread_broadcasts: self.unread_broadcasts as int,
            unread_dms: self.unread_dms@,
        }
    }

    /// A fresh view: the chat tab, everything scrolled to the newest, mouse
    /// capture on, nothing unread.
    pub fn new() -> (r: Self)
        ensures
            r.model() == (SessionModel {
                active_tab: 0,
                mouse_capture: true,
                peer_selection: 0,
                chat_scroll_offset: 0,
                chat_auto_scroll: true,
                log_scroll_offset: 0,
                log_auto_scroll: true,
                unread_broadcasts: 0,
                unread_dms: Map::empty(),
            }),
    {
        SessionState {
            active_tab: 0,
            mouse_capture: true,
            peer_selection: 0,
            chat_scroll_offset: 0,
            chat_auto_scroll: true,
            log_scroll_offset: 0,
            log_auto_scroll: true,
            unread_broadcasts: 0,
            unread_dms: StrMap::new(),
        }
    }
}

/// An offset one step or a page further down, kept within the list.
pub open spec fn scrolled_down(offset: int, by: int, count: int) -> int {
    let last = if count >= 1 {
        count - 1
    } else {
        0
    };
    if offset + by < last {
        offset + by
    } else {
        last
    }
}

/// An offset one step or a page further up, stopping at the top.
pub open spec fn scrolled_up(offset: int, by: int) -> int {
    if offset >= by {
        offset - by
    } else {
        0
    }
}

/// Whether a key can be handled without overflow: stepping down from an
/// offset (or selection) at the largest value overflows in the loop.
pub open spec fn key_in_range(s: SessionModel, ctx: SessionContext, key: SessionKey) -> bool {
    match ctx.tab {
        TabContent::Chat => (key == SessionKey::Down ==> s.chat_scroll_offset + 1 <= usize::MAX)
            && (key == SessionKey::PageDown ==> s.chat_scroll_offset + PAGE_LINES <= usize::MAX),
        TabContent::Log => (key == SessionKey::Down ==> s.log_scroll_offset + 1 <= usize::MAX)
            && (key == SessionKey::PageDown ==> s.log_scroll_offset + PAGE_LINES <= usize::MAX),
        TabContent::Peers => key == SessionKey::Down && ctx.peer_count > 0 ==> s.peer_selection + 1
            <= usize::MAX,
        _ => true,
    }
}

/// What a key does: `t` is the state after it and `a` what is left to do.
/// F12 switches mouse capture; Esc and ctrl-Q leave; alt-Enter breaks the
/// line; Enter sends (or opens the selected peer); ctrl-W closes a
/// conversation; ctrl-N/G goes to unread broadcasts, or else to some peer
/// with unread direct messages; Tab cycles; the rest scroll the chat, the
/// log or the peer list, or go to the input.
pub open spec fn key_transition(
    s: SessionModel,
    ctx: SessionContext,
    key: SessionKey,
    t: SessionModel,
    a: SessionAction,
) -> bool {
    let input_enabled = ctx.tab is Chat || ctx.tab is Direct;
    if key == SessionKey::F12 {
        t == SessionModel { mouse_capture: !s.mouse_capture, ..s } && a
            == SessionAction::SetMouseCapture(!s.mouse_capture)
    } else if key == SessionKey::Esc || key == SessionKey::Quit {
        t == s && a == SessionAction::Exit
    } else if key == SessionKey::AltEnter {
        t == s && a == (if input_enabled {
            SessionAction::NewLine
        } else {
            SessionAction::Redraw
        })
    } else if key == SessionKey::Enter {
        &&& t == s
        &&& match ctx.tab {
            TabContent::Chat => a == SessionAction::SendChat,
            TabContent::Peers => if ctx.peer_count > 0 {
                a == SessionAction::OpenPeerAt(
                    (if s.peer_selection < ctx.peer_count - 1 {
                        s.peer_selection
                    } else {
                        ctx.peer_count - 1
                    }) as usize,
                )
            } else {
                a == SessionAction::Redraw
            },
            TabContent::Direct(p) => a matches SessionAction::SendDm(q) && q@ == p@,
            TabContent::Log => a == SessionAction::Redraw,
        }
    } else if key == SessionKey::CloseTab {
        match ctx.tab {
            TabContent::Direct(p) => {
                &&& t == SessionModel { active_tab: 0, unread_dms: s.unread_dms.remove(p@), ..s }
                &&& a matches SessionAction::CloseDm(q) && q@ == p@
            },
            _ => t == s && a == SessionAction::Redraw,
        }
    } else if key == SessionKey::JumpUnread {
        if s.unread_broadcasts > 0 {
            t == SessionModel { active_tab: 0, unread_broadcasts: 0, ..s } && a
                == SessionAction::Redraw
        } else if s.unread_dms.dom().len() > 0 {
            &&& a matches SessionAction::OpenDm(p)
            &&& s.unread_dms.contains_key(a->OpenDm_0@)
            &&& t == SessionModel { unread_dms: s.unread_dms.remove(a->OpenDm_0@), ..s }
        } else {
            t == s && a == SessionAction::Redraw
        }
    } else if key == SessionKey::Tab {
        t == SessionModel { active_tab: (s.active_tab + 1) % (ctx.tab_count as int), ..s } && a
            == SessionAction::TabSwitched
    } else if key == SessionKey::BackTab {
        t == SessionModel {
            active_tab: if s.active_tab == 0 {
                ctx.tab_count - 1
            } else {
                s.active_tab - 1
            },
            ..s
        } && a == SessionAction::TabSwitched
    } else {
        match ctx.tab {
            TabContent::Chat => if key == SessionKey::Up {
                t == SessionModel {
                    chat_auto_scroll: false,
                    chat_scroll_offset: scrolled_up(s.chat_scroll_offset, 1),
                    ..s
                } && a == SessionAction::Redraw
            } else if key == SessionKey::Down {
                t == SessionModel {
                    chat_scroll_offset: scrolled_down(s.chat_scroll_offset, 1, ctx.message_count as int),
                    ..s
                } && a == SessionAction::Redraw
            } else if key == SessionKey::PageUp {
                t == SessionModel {
                    chat_auto_scroll: false,
                    chat_scroll_offset: scrolled_up(s.chat_scroll_offset, PAGE_LINES as int),
                    ..s
                } && a == SessionAction::Redraw
            } else if key == SessionKey::PageDown {
                t == SessionModel {
                    chat_scroll_offset: scrolled_down(
                        s.chat_scroll_offset,
                        PAGE_LINES as int,
                        ctx.message_count as int,
                    ),
                    ..s
                } && a == SessionAction::Redraw
            } else if key == SessionKey::End {
                t == SessionModel {
                    chat_scroll_offset: usize::MAX as int,
                    chat_auto_scroll: true,
                    ..s
                } && a == SessionAction::Redraw
            } else if key == SessionKey::Edit || key == SessionKey::Home {
                t == s && a == SessionAction::TypeKey
            } else {
                t == s && a == SessionAction::Redraw
            },
            TabContent::Log => if key == SessionKey::Up {
                t == SessionModel {
                    log_auto_scroll: false,
                    log_scroll_offset: scrolled_up(s.log_scroll_offset, 1),
                    ..s
                } && a == SessionAction::Redraw
            } else if key == SessionKey::Down {
                t == SessionModel {
                    log_scroll_offset: scrolled_down(s.log_scroll_offset, 1, ctx.log_count as int),
                    ..s
                } && a == SessionAction::Redraw
            } else if key == SessionKey::PageUp {
                t == SessionModel {
                    log_auto_scroll: false,
                    log_scroll_offset: scrolled_up(s.log_scroll_offset, PAGE_LINES as int),
                    ..s
                } && a == SessionAction::Redraw
            } else if key == SessionKey::PageDown {
                t == SessionModel {
                    log_scroll_offset: scrolled_down(
                        s.log_scroll_offset,
                        PAGE_LINES as int,
                        ctx.log_count as int,
                    ),
                    ..s
                } && a == SessionAction::Redraw
            } else if key == SessionKey::End {
                t == SessionModel {
                    log_scroll_offset: usize::MAX as int,
                    log_auto_scroll: true,
                    ..s
                } && a == SessionAction::Redraw
            } else {
                t == s && a == SessionAction::Redraw
            },
            TabContent::Peers => if key == SessionKey::Up && ctx.peer_count > 0 {
                t == SessionModel { peer_selection: scrolled_up(s.peer_selection, 1), ..s } && a
                    == SessionAction::Redraw
            } else if key == SessionKey::Down && ctx.peer_count > 0 {
                t == SessionModel {
                    peer_selection: scrolled_down(s.peer_selection, 1, ctx.peer_count as int),
                    ..s
                } && a == SessionAction::Redraw
            } else {
                t == s && a == SessionAction::Redraw
            },
            TabContent::Direct(_) => t == s && a == (if key == SessionKey::Edit || key
                == SessionKey::Home || key == SessionKey::End {
                SessionAction::TypeKey
            } else {
                SessionAction::Redraw
            }),
        }
    }
}

/// Arrow keys move the chat and the log by one line and page keys by twenty,
/// up to the top and down to the last line; moving up leaves auto-scroll,
/// End goes to the newest line and turns it back on.
pub proof fn lemma_scroll_key_distances(
    s: SessionModel,
    ctx: SessionContext,
    key: SessionKey,
    t: SessionModel,
    a: SessionAction,
)
    requires
        key_transition(s, ctx, key, t, a),
    ensures
        ctx.tab is Log && key == SessionKey::Up ==> t.log_scroll_offset == (if s.log_scroll_offset >= 1 {
            s.log_scroll_offset - 1
        } else {
            0
        }) && !t.log_auto_scroll && t.chat_scroll_offset == s.chat_scroll_offset,
        ctx.tab is Log && key == SessionKey::PageUp ==> t.log_scroll_offset == (if s.log_scroll_offset >= 20 {
            s.log_scroll_offset - 20
        } else {
            0
        }) && !t.log_auto_scroll,
        ctx.tab is Log && key == SessionKey::Down ==> {
            let last: int = if ctx.log_count >= 1 { ctx.log_count - 1 } else { 0 };
            &&& t.log_scroll_offset == (if s.log_scroll_offset + 1 < last { s.log_scroll_offset + 1 } else { last })
            &&& t.log_auto_scroll == s.log_auto_scroll
        },
        ctx.tab is Log && key == SessionKey::End ==> t.log_scroll_offset == usize::MAX && t.log_auto_scroll,
        ctx.tab is Chat && key == SessionKey::Up ==> t.chat_scroll_offset == (if s.chat_scroll_offset >= 1 {
            s.chat_scroll_offset - 1
        } else {
            0
        }) && !t.chat_auto_scroll && t.log_scroll_offset == s.log_scroll_offset,
        ctx.tab is Chat && key == SessionKey::PageUp ==> t.chat_scroll_offset == (if s.chat_scroll_offset
            >= 20 {
            s.chat_scroll_offset - 20
        } else {
            0
        }) && !t.chat_auto_scroll,
        ctx.tab is Chat && key == SessionKey::Down ==> {
            let last: int = if ctx.message_count >= 1 { ctx.message_count - 1 } else { 0 };
            t.chat_scroll_offset == (if s.chat_scroll_offset + 1 < last { s.chat_scroll_offset + 1 } else { last })
        },
        ctx.tab is Peers && key == SessionKey::Up && ctx.peer_count > 0 ==> t.peer_selection == (if s.peer_selection
            >= 1 {
            s.peer_selection - 1
        } else {
            0
        }),
{
}

fn step_down(offset: usize, by: usize, count: usize) -> (r: usize)
    requires
        offset + by <= usize::MAX,
    ensures
        r == scrolled_down(offset as int, by as int, count as int),
{
    let last = count.saturating_sub(1);
    let next = offset + by;
    if next < last {
        next
    } else {
        last
    }
}

/// One key press (see [`key_transition`]).
pub fn session_key_step(state: &mut SessionState, ctx: &SessionContext, key: SessionKey) -> (r:
    SessionAction)
    requires
        old(state).model().active_tab < usize::MAX,
        ctx.tab_count > 0,
        key_in_range(old(state).model(), *ctx, key),
    ensures
        key_transition(old(state).model(), *ctx, key, final(state).model(), r),
{
    if key == SessionKey::F12 {
        state.mouse_capture = !state.mouse_capture;
        return SessionAction::SetMouseCapture(state.mouse_capture);
    }
    if key == SessionKey::Esc || key == SessionKey::Quit {
        return SessionAction::Exit;
    }
    let input_enabled = match &ctx.tab {
        TabContent::Chat => true,
        TabContent::Direct(_) => true,
        _ => false,
    };
    if key == SessionKey::AltEnter {
        return if input_enabled {
            SessionAction::NewLine
        } else {
            SessionAction::Redraw
        };
    }
    if key == SessionKey::Enter {
        return match &ctx.tab {
            TabContent::Chat => SessionAction::SendChat,
            TabContent::Peers => {
                if ctx.peer_count > 0 {
                    let last = ctx.peer_count - 1;
                    SessionAction::OpenPeerAt(
                        if state.peer_selection < last {
                            state.peer_selection
                        } else {
                            last
                        },
                    )
                } else {
                    SessionAction::Redraw
                }
            },
            TabContent::Direct(p) => SessionAction::SendDm(crate::text::owned(p.as_str())),
            TabContent::Log => SessionAction::Redraw,
        };
    }
    if key == SessionKey::CloseTab {
        return match &ctx.tab {
            TabContent::Direct(p) => {
                let _ = state.unread_dms.remove(p.as_str());
                state.active_tab = 0;
                SessionAction::CloseDm(crate::text::owned(p.as_str()))
            },
            _ => SessionAction::Redraw,
        };
    }
    if key == SessionKey::JumpUnread {
        if state.unread_broadcasts > 0 {
            state.active_tab = 0;
            state.unread_broadcasts = 0;
            return SessionAction::Redraw;
        }
        let peers = state.unread_dms.keys();
        if peers.len() > 0 {
            let p = crate::text::owned(peers[0].as_str());
            proof {
                assert(peers@.map_values(|s: String| s@)[0] == p@);
                assert(peers@.map_values(|s: String| s@).to_set().contains(p@));
            }
            let _ = state.unread_dms.remove(p.as_str());
            return SessionAction::OpenDm(p);
        } else {
            proof {
                let ks = peers@.map_values(|s: String| s@);
                assert(ks.len() == 0);
                assert(ks.to_set() =~= Set::<Seq<char>>::empty());
            }
            return SessionAction::Redraw;
        }
    }
    if key == SessionKey::Tab {
        state.active_tab = (state.active_tab + 1) % ctx.tab_count;
        return SessionAction::TabSwitched;
    }
    if key == SessionKey::BackTab {
        state.active_tab = if state.active_tab == 0 {
            ctx.tab_count - 1
        } else {
            state.active_tab - 1
        };
        return SessionAction::TabSwitched;
    }
    match &ctx.tab {
        TabContent::Chat => {
            if key == SessionKey::Up {
                state.chat_auto_scroll = false;
                state.chat_scroll_offset = state.chat_scroll_offset.saturating_sub(1);
                SessionAction::Redraw
            } else if key == SessionKey::Down {
                state.chat_scroll_offset = step_down(state.chat_scroll_offset, 1, ctx.message_count);
                SessionAction::Redraw
            } else if key == SessionKey::PageUp {
                state.chat_auto_scroll = false;
                state.chat_scroll_offset = state.chat_scroll_offset.saturating_sub(PAGE_LINES);
                SessionAction::Redraw
            } else if key == SessionKey::PageDown {
                state.chat_scroll_offset = step_down(
                    state.chat_scroll_offset,
                    PAGE_LINES,
                    ctx.message_count,
                );
                SessionAction::Redraw
            } else if key == SessionKey::End {
                state.chat_scroll_offset = usize::MAX;
                state.chat_auto_scroll = true;
                SessionAction::Redraw
            } else if key == SessionKey::Edit || key == SessionKey::Home {
                SessionAction::TypeKey
            } else {
                SessionAction::Redraw
            }
        },
        TabContent::Log => {
            if key == SessionKey::Up {
                state.log_auto_scroll = false;
                state.log_scroll_offset = state.log_scroll_offset.saturating_sub(1);
            } else if key == SessionKey::Down {
                state.log_scroll_offset = step_down(state.log_scroll_offset, 1, ctx.log_count);
            } else if key == SessionKey::PageUp {
                state.log_auto_scroll = false;
                state.log_scroll_offset = state.log_scroll_offset.saturating_sub(PAGE_LINES);
            } else if key == SessionKey::PageDown {
                state.log_scroll_offset = step_down(state.log_scroll_offset, PAGE_LINES, ctx.log_count);
            } else if key == SessionKey::End {
                state.log_scroll_offset = usize::MAX;
                state.log_auto_scroll = true;
            }
            SessionAction::Redraw
        },
        TabContent::Peers => {
            if key == SessionKey::Up && ctx.peer_count > 0 {
                state.peer_selection = state.peer_selection.saturating_sub(1);
            } else if key == SessionKey::Down && ctx.peer_count > 0 {
                state.peer_selection = step_down(state.peer_selection, 1, ctx.peer_count);
            }
            SessionAction::Redraw
        },
        TabContent::Direct(_) => {
            if key == SessionKey::Edit || key == SessionKey::Home || key == SessionKey::End {
                SessionAction::TypeKey
            } else {
                SessionAction::Redraw
            }
        },
    }
}

/// After a tab switch: showing the chat clears the unread broadcasts,
/// showing a conversation clears that peer's unread messages.
pub fn on_tab_shown(state: &mut SessionState, shown: &TabContent)
    ensures
        final(state).model() == (match *shown {
            TabContent::Chat => SessionModel { unread_broadcasts: 0, ..old(state).model() },
            TabContent::Direct(p) => SessionModel {
                unread_dms: old(state).model().unread_dms.remove(p@),
                ..old(state).model()
            },
            _ => old(state).model(),
        }),
{
    match shown {
        TabContent::Chat => {
            state.unread_broadcasts = 0;
        },
        TabContent::Direct(p) => {
            let _ = state.unread_dms.remove(p.as_str());
        },
        _ => {},
    }
}

/// A broadcast arrived: its line joins the chat (the oldest leaves beyond
/// [`SESSION_MAX_MESSAGES`]) and counts as unread unless the chat tab is
/// shown.
pub fn on_broadcast(
    state: &mut SessionState,
    messages: &mut VecDeque<(String, Option<String>)>,
    line: String,
    from: String,
)
    requires
        old(state).model().unread_broadcasts < u32::MAX,
    ensures
        final(messages)@ == (if old(messages)@.len() + 1 > SESSION_MAX_MESSAGES {
            old(messages)@.push((line, Some(from))).drop_first()
        } else {
            old(messages)@.push((line, Some(from)))
        }),
        final(state).model() == (if old(state).model().active_tab != 0 {
            SessionModel {
                unread_broadcasts: old(state).model().unread_broadcasts + 1,
                ..old(state).model()
            }
        } else {
            old(state).model()
        }),
{
    messages.push_back((line, Some(from)));
    if messages.len() > SESSION_MAX_MESSAGES {
        let _ = messages.pop_front();
    }
    if state.active_tab != 0 {
        state.unread_broadcasts = state.unread_broadcasts + 1;
    }
}

/// A direct message arrived from `peer` while `current_dm` is the shown
/// conversation (if any): unless it is that one, the peer's unread count
/// grows by one.
pub fn on_direct_message(state: &mut SessionState, peer: &str, current_dm: Option<&str>)
    requires
        old(state).model().unread_dms.contains_key(peer@) ==> old(state).model().unread_dms[peer@]
            < u32::MAX,
    ensures
        final(state).model() == (if current_dm matches Some(c) && c@ == peer@ {
            old(state).model()
        } else {
            SessionModel {
                unread_dms: old(state).model().unread_dms.insert(
                    peer@,
                    (if old(state).model().unread_dms.contains_key(peer@) {
                        old(state).model().unread_dms[peer@] + 1
                    } else {
                        1
                    }) as u32,
                ),
                ..old(state).model()
            }
        }),
{
    let is_current = match current_dm {
        Some(c) => crate::text::str_eq(c, peer),
        None => false,
    };
    if !is_current {
        let n: u32 = match state.unread_dms.get(peer) {
            Some(k) => *k + 1,
            None => 1,
        };
        state.unread_dms.insert(crate::text::owned(peer), n);
    }
}

/// What a click leaves for the loop.
#[derive(Debug, Clone, PartialEq, Eq)]
pub enum SessionClick {
    /// Nothing but a redraw.
    Redraw,
    /// The close mark of the tab at this index was clicked: when it is a
    /// conversation, close it and call [`on_dm_tab_closed`].
    CloseTabAt(usize),
    /// Open (or show) this peer's conversation tab and make it active.
    OpenDmTab(String),
    /// Open the conversation of the peer at this row of the list and make
    /// it active.
    OpenPeerAt(usize),
}

/// Where tab `i` of the tab bar starts: each title takes its length and
/// three columns of spacing. `titles[i]` is the length of tab `i`'s title
/// and whether it ends with the close mark ` (X)`.
pub open spec fn bar_pos(titles: Seq<(usize, bool)>, i: int) -> int
    decreases i,
{
    if i <= 0 {
        0
    } else {
        bar_pos(titles, i - 1) + titles[i - 1].0 + 3
    }
}

/// The first tab whose span (start to start plus length, both included)
/// holds column `col`, looking from tab `i` on.
pub open spec fn bar_hit(titles: Seq<(usize, bool)>, col: int, i: int) -> Option<int>
    decreases titles.len() - i,
{
    if i < 0 || i >= titles.len() {
        None
    } else if bar_pos(titles, i) <= col <= bar_pos(titles, i) + titles[i].0 {
        Some(i)
    } else {
        bar_hit(titles, col, i + 1)
    }
}

/// Screen rows a chat line takes at a width: one per line break plus the
/// bytes wrapped at the width, plus one.
pub open spec fn line_rows(text: Seq<char>, width: nat) -> int {
    (text.filter(|c: char| c == '\n').len() + utf8_len(text) / width + 1) as int
}

/// The chat line at or after index `i` whose rows (counted from row `cur`)
/// hold row `clicked`.
pub open spec fn chat_hit(rows: Seq<int>, i: int, clicked: int, cur: int) -> Option<int>
    decreases rows.len() - i,
{
    if i < 0 || i >= rows.len() {
        None
    } else if cur <= clicked < cur + rows[i] {
        Some(i)
    } else {
        chat_hit(rows, i + 1, clicked, cur + rows[i])
    }
}

/// The rows of each chat line at a width.
pub open spec fn chat_rows(messages: Seq<(String, Option<String>)>, width: nat) -> Seq<int> {
    messages.map_values(|m: (String, Option<String>)| line_rows(m.0@, width))
}

/// Sum of `rows[i..]`.
pub open spec fn rows_from(rows: Seq<int>, i: int) -> int
    decreases rows.len() - i,
{
    if i < 0 || i >= rows.len() {
        0
    } else {
        rows[i] + rows_from(rows, i + 1)
    }
}

/// The notice row of unread messages is shown.
pub open spec fn notice_shown(s: SessionModel) -> bool {
    s.unread_broadcasts > 0 || s.unread_dms.dom().len() > 0
}

/// What a mouse press at `(row, col)` does: on the tab bar it picks a tab
/// or its close mark; on the notice of unread messages (row three) it goes
/// to the broadcasts (left of ` | ` when both kinds are unread) or to some
/// peer with unread messages; on the peers tab it opens the clicked peer;
/// on the chat it opens the conversation of the clicked line's sender.
pub open spec fn click_transition(
    s: SessionModel,
    ctx: SessionContext,
    titles: Seq<(usize, bool)>,
    messages: Seq<(String, Option<String>)>,
    row: int,
    col: int,
    width: nat,
    t: SessionModel,
    a: SessionClick,
) -> bool {
    let notice: int = if notice_shown(s) {
        1
    } else {
        0
    };
    if row == 0 {
        match bar_hit(titles, col, 0) {
            Some(i) => if titles[i].1 && col > bar_pos(titles, i) + titles[i].0 - 4 {
                t == s && a == SessionClick::CloseTabAt(i as usize)
            } else {
                t == SessionModel { active_tab: i, ..s } && a == SessionClick::Redraw
            },
            None => t == s && a == SessionClick::Redraw,
        }
    } else if row == 3 && notice_shown(s) {
        let to_dm = {
            &&& a matches SessionClick::OpenDmTab(p)
            &&& s.unread_dms.contains_key(a->OpenDmTab_0@)
            &&& t == SessionModel { unread_dms: s.unread_dms.remove(a->OpenDmTab_0@), ..s }
        };
        let to_chat = t == SessionModel { active_tab: 0, unread_broadcasts: 0, ..s } && a
            == SessionClick::Redraw;
        if s.unread_broadcasts > 0 && s.unread_dms.dom().len() > 0 {
            if col < decimal(s.unread_broadcasts as nat).len() + 16 {
                to_chat
            } else {
                to_dm
            }
        } else if s.unread_broadcasts > 0 {
            to_chat
        } else {
            to_dm
        }
    } else {
        match ctx.tab {
            TabContent::Peers => {
                let start = 4 + notice;
                if row >= start && row - start < ctx.peer_count {
                    t == SessionModel { peer_selection: row - start, ..s } && a
                        == SessionClick::OpenPeerAt((row - start) as usize)
                } else {
                    t == s && a == SessionClick::Redraw
                }
            },
            TabContent::Chat => {
                let start = 5 + notice;
                &&& t == s
                &&& if row >= start {
                    match chat_hit(chat_rows(messages, width), s.chat_scroll_offset, row - start, 0) {
                        Some(k) => match messages[k].1 {
                            Some(p) => a matches SessionClick::OpenDmTab(q) && q@ == p@,
                            None => a == SessionClick::Redraw,
                        },
                        None => a == SessionClick::Redraw,
                    }
                } else {
                    a == SessionClick::Redraw
                }
            },
            _ => t == s && a == SessionClick::Redraw,
        }
    }
}

proof fn lemma_bar_pos_grows(titles: Seq<(usize, bool)>, i: int, j: int)
    requires
        0 <= i <= j <= titles.len(),
    ensures
        bar_pos(titles, i) <= bar_pos(titles, j),
    decreases j - i,
{
    if i < j {
        lemma_bar_pos_grows(titles, i, j - 1);
    }
}

proof fn lemma_rows_from_nonneg(rows: Seq<int>, i: int)
    requires
        forall|k: int| 0 <= k < rows.len() ==> rows[k] >= 0,
    ensures
        rows_from(rows, i) >= 0,
    decreases rows.len() - i,
{
    if 0 <= i < rows.len() {
        lemma_rows_from_nonneg(rows, i + 1);
    }
}

fn rows_of_line(text: &str, width: usize) -> (r: usize)
    requires
        width > 0,
        line_rows(text@, width as nat) <= u16::MAX,
    ensures
        r == line_rows(text@, width as nat),
{
    let cs = crate::text::chars_of(text);
    let mut breaks: usize = 0;
    let mut i: usize = 0;
    while i < cs.len()
        invariant
            cs@ == text@,
            i <= cs@.len(),
            breaks == text@.take(i as int).filter(|c: char| c == '\n').len(),
            breaks <= i,
        decreases cs.len() - i,
    {
        proof {
            let p = text@.take(i + 1);
            assert(p.drop_last() =~= text@.take(i as int));
            assert(p.last() == cs@[i as int]);
            reveal(Seq::filter);
        }
        if cs[i] == '\n' {
            breaks += 1;
        }
        i += 1;
    }
    assert(text@.take(cs@.len() as int) =~= text@);
    let bytes = text.as_bytes().len();
    breaks + bytes / width + 1
}

/// A mouse press at `(row, col)` (see [`click_transition`]): `titles` are
/// the tab titles' lengths and close marks, `messages` the chat lines with
/// their senders, and `width` the text width of the chat.
#[verifier::loop_isolation(false)]
pub fn session_click(
    state: &mut SessionState,
    ctx: &SessionContext,
    titles: &Vec<(usize, bool)>,
    messages: &VecDeque<(String, Option<String>)>,
    row: usize,
    col: usize,
    width: usize,
) -> (r: SessionClick)
    requires
        width > 0,
        bar_pos(titles@, titles@.len() as int) <= usize::MAX,
        forall|i: int| 0 <= i < titles@.len() && #[trigger] titles@[i].1 ==> titles@[i].0 >= 4,
        ctx.tab is Chat ==> rows_from(chat_rows(messages@, width as nat), old(state).model().chat_scroll_offset) <= u16::MAX,
    ensures
        click_transition(old(state).model(), *ctx, titles@, messages@, row as int, col as int, width as nat, final(state).model(), r),
{
    let notice = state.unread_broadcasts > 0 || !state.unread_dms.is_empty();
    if row == 0 {
        let mut pos: usize = 0;
        let mut i: usize = 0;
        while i < titles.len()
            invariant
                state.model() == old(state).model(),
                forall|j: int| 0 <= j < titles@.len() && #[trigger] titles@[j].1 ==> titles@[j].0 >= 4,
                i <= titles@.len(),
                pos == bar_pos(titles@, i as int),
                bar_pos(titles@, titles@.len() as int) <= usize::MAX,
                bar_hit(titles@, col as int, 0) == bar_hit(titles@, col as int, i as int),
            decreases titles.len() - i,
        {
            proof {
                lemma_bar_pos_grows(titles@, i + 1, titles@.len() as int);
            }
            let (len, closable) = titles[i];
            if col >= pos && col - pos <= len {
                assert(bar_hit(titles@, col as int, i as int) == Some(i as int));
                assert(titles@[i as int].1 ==> titles@[i as int].0 >= 4);
                if closable && col - pos > len - 4 {
                    return SessionClick::CloseTabAt(i);
                }
                state.active_tab = i;
                return SessionClick::Redraw;
            }
            pos = pos + len + 3;
            i += 1;
        }
        return SessionClick::Redraw;
    }
    if row == 3 && notice {
        let both = state.unread_broadcasts > 0 && !state.unread_dms.is_empty();
        let to_chat = if both {
            let n = crate::text::decimal_string(state.unread_broadcasts as u64);
            let digits = n.unicode_len();
            col < digits || col - digits < 16
        } else {
            state.unread_broadcasts > 0
        };
        if to_chat {
            state.active_tab = 0;
            state.unread_broadcasts = 0;
            return SessionClick::Redraw;
        }
        let peers = state.unread_dms.keys();
        proof {
            let ks = peers@.map_values(|s: String| s@);
            if ks.len() == 0 {
                assert(ks.to_set() =~= Set::<Seq<char>>::empty());
            }
        }
        let p = crate::text::owned(peers[0].as_str());
        proof {
            assert(peers@.map_values(|s: String| s@)[0] == p@);
            assert(peers@.map_values(|s: String| s@).to_set().contains(p@));
        }
        let _ = state.unread_dms.remove(p.as_str());
        return SessionClick::OpenDmTab(p);
    }
    let extra: usize = if notice {
        1
    } else {
        0
    };
    match &ctx.tab {
        TabContent::Peers => {
            let start = 4 + extra;
            if row >= start && row - start < ctx.peer_count {
                state.peer_selection = row - start;
                SessionClick::OpenPeerAt(row - start)
            } else {
                SessionClick::Redraw
            }
        },
        TabContent::Chat => {
            let start = 5 + extra;
            if row < start {
                return SessionClick::Redraw;
            }
            let clicked = row - start;
            let ghost rows = chat_rows(messages@, width as nat);
            assert(forall|j: int| 0 <= j < rows.len() ==> rows[j] >= 0);
            let mut k: usize = state.chat_scroll_offset;
            let mut cur: usize = 0;
            while k < messages.len()
                invariant
                    rows == chat_rows(messages@, width as nat),
                    width > 0,
                    chat_hit(rows, state.model().chat_scroll_offset, clicked as int, 0) == chat_hit(
                        rows,
                        k as int,
                        clicked as int,
                        cur as int,
                    ),
                    cur <= clicked,
                    cur + rows_from(rows, k as int) <= u16::MAX,
                    k >= state.model().chat_scroll_offset,
                    state.model() == old(state).model(),
                    forall|j: int| 0 <= j < rows.len() ==> rows[j] >= 0,
                decreases messages.len() - k,
            {
                proof {
                    lemma_rows_from_nonneg(rows, k + 1);
                }
                assert(rows_from(rows, k as int) == rows[k as int] + rows_from(rows, k + 1));
                assert(rows[k as int] == line_rows(messages@[k as int].0@, width as nat));
                let lines = rows_of_line(messages[k].0.as_str(), width);
                assert(rows[k as int] == lines as int);
                if clicked < cur + lines {
                    assert(chat_hit(rows, k as int, clicked as int, cur as int) == Some(k as int));
                    return match &messages[k].1 {
                        Some(p) => SessionClick::OpenDmTab(crate::text::owned(p.as_str())),
                        None => SessionClick::Redraw,
                    };
                }
                cur = cur + lines;
                k += 1;
            }
            SessionClick::Redraw
        },
        _ => SessionClick::Redraw,
    }
}

/// A conversation tab was closed from the tab bar: the chat is shown again
/// and the peer's unread count is dropped.
pub fn on_dm_tab_closed(state: &mut SessionState, peer: &str)
    ensures
        final(state).model() == (SessionModel {
            active_tab: 0,
            unread_dms: old(state).model().unread_dms.remove(peer@),
            ..old(state).model()
        }),
{
    let _ = state.unread_dms.remove(peer);
    state.active_tab = 0;
}

} // verus!
