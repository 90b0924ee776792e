//! Key handling of the terminal chat front end: which state a key press
//! leaves (selections, tabs, and the scroll of every message pane) and what
//! the host still has to do (send, redraw, switch mouse capture).

use vstd::prelude::*;
use crate::map::StrMap;
use crate::text::owned;
use crate::tui::keys::{
    NavKey, compute_new_peer_selection, dm_pane_first_row, expected_group_page_size,
    expected_peer_page_size, next_tab, previous_tab, spec_new_selection, spec_next_tab,
};

verus! {

/// What the active tab shows.
#[derive(Debug, Clone, Copy, PartialEq, Eq, Structural)]
pub enum TabKind {
    Chat,
    Peers,
    Groups,
    GroupChat,
    Direct,
    Log,
    PeerInfo,
    Settings,
}

/// A key as the terminal reports it.
#[derive(Debug, Clone, Copy, PartialEq, Eq, Structural)]
pub enum KeyCode {
    Esc,
    Tab,
    BackTab,
    /// An arrow, page or home/end key.
    Nav(NavKey),
    F12,
    Enter,
    Char(char),
    /// Any other key (backspace, delete, left, right, ...).
    Other,
}

/// A key press with its modifiers.
#[derive(Debug, Clone, Copy, PartialEq, Eq, Structural)]
pub struct KeyInput {
    pub code: KeyCode,
    pub ctrl: bool,
    pub shift: bool,
}

/// What the host knows of the screen when the key comes: the active tab's
/// kind, how many tabs there are, whether the tab takes typed input, the
/// last mouse row, the message-area height, the list lengths, how far each
/// message pane of the active tab can scroll (`None` for a pane with no
/// message, which does not scroll) and the lines a page key moves.
#[derive(Debug, Clone, Copy, PartialEq, Eq, Structural)]
pub struct KeyContext {
    pub tab: TabKind,
    pub total_tabs: usize,
    pub input_enabled: bool,
    pub mouse_row: usize,
    pub chat_area_height: usize,
    pub peer_count: usize,
    pub group_count: usize,
    pub chat_max_offset: usize,
    pub log_max_offset: usize,
    pub dm_broadcast_max_offset: Option<usize>,
    pub dm_max_offset: Option<usize>,
    pub group_max_offset: Option<usize>,
    pub page_size: usize,
    /// Lines one wheel notch scrolls.
    pub wheel_lines: usize,
}

/// The part of the front end's state that keys change.
#[derive(Debug, Clone)]
pub struct KeyState {
    pub active_tab: usize,
    pub chat_scroll_offset: usize,
    pub chat_auto_scroll: bool,
    pub chat_unread_count: usize,
    pub log_scroll_offset: usize,
    pub log_auto_scroll: bool,
    pub broadcast_selection: Option<usize>,
    pub editing_nickname: bool,
    pub editing_nickname_peer: Option<String>,
    pub popup: Option<String>,
    pub mouse_capture: bool,
    pub peer_sort_column: usize,
    pub peer_sort_ascending: bool,
    pub peer_selection: usize,
    pub group_selection: usize,
}

/// Scroll position and auto-scroll of the panes kept per conversation or
/// group: the broadcast (upper) and direct-message (lower) panes of each
/// direct-message tab, by peer, and each group chat, by group.
#[derive(Debug)]
pub struct PaneScroll {
    pub dm_broadcast: StrMap<(usize, bool)>,
    pub dm: StrMap<(usize, bool)>,
    pub groups: StrMap<(usize, bool)>,
}

/// What is left for the host after a key; every outcome but `Exit` ends
/// with a redraw.
#[derive(Debug, Clone, Copy, PartialEq, Eq, Structural)]
pub enum KeyAction {
    /// Leave the program.
    Exit,
    /// Only redraw.
    Redraw,
    /// Empty the text input, then redraw.
    ClearInput,
    /// Turn terminal mouse capture on or off, then redraw.
    SetMouseCapture(bool),
    /// Submit the nickname being edited.
    SubmitNickname,
    /// Enter on the active tab (send, or a new line with shift).
    Enter(bool),
    /// Close the active direct-message or group tab.
    CloseTab,
    /// Open the peer-information tab for what is selected.
    OpenPeerInfo,
    /// Sort the peer list again by the current column and direction.
    Resort,
    /// Give the key to the text input.
    TypeKey,
}

/// Leave nickname editing (if editing).
pub open spec fn cancel_edit(s: KeyState) -> KeyState {
    if s.editing_nickname {
        KeyState { editing_nickname: false, editing_nickname_peer: None, ..s }
    } else {
        s
    }
}

/// Tab or shift-Tab: the next or previous tab, back to the top of the chat,
/// nickname editing left, and the unread count cleared on the chat tab.
pub open spec fn navigate(s: KeyState, total: usize, forward: bool) -> KeyState {
    let tab: int = if forward {
        spec_next_tab(s.active_tab as int, total as int)
    } else if s.active_tab == 0 {
        if total == 0 {
            0
        } else {
            total - 1
        }
    } else {
        s.active_tab - 1
    };
    let moved = cancel_edit(KeyState { active_tab: tab as usize, chat_scroll_offset: 0, ..s });
    if tab == 0 {
        KeyState { chat_unread_count: 0, ..moved }
    } else {
        moved
    }
}

/// Esc: nickname editing is cancelled, or else the view returns to the top
/// of the broadcast chat with nothing selected and auto-scroll on.
pub open spec fn escape(s: KeyState) -> KeyState {
    let s1 = KeyState { popup: None, ..s };
    if s1.editing_nickname {
        cancel_edit(s1)
    } else {
        KeyState {
            active_tab: 0,
            broadcast_selection: None,
            chat_scroll_offset: 0,
            chat_auto_scroll: true,
            ..s1
        }
    }
}

/// The sort column a key picks on the peer list, if any.
pub open spec fn sort_column_of(c: char) -> Option<usize> {
    if c == '1' || c == 'n' || c == 'N' {
        Some(0usize)
    } else if c == '2' || c == 'm' || c == 'M' {
        Some(1usize)
    } else if c == '3' || c == 'b' || c == 'B' {
        Some(2usize)
    } else if c == '4' || c == 'l' || c == 'L' {
        Some(3usize)
    } else {
        None
    }
}

/// A sort key on the peer list: picking the current column flips the
/// direction, another column starts descending; `o` flips the direction.
/// `None` for a key that is not a sort key.
pub open spec fn sort_step(s: KeyState, c: char) -> Option<KeyState> {
    match sort_column_of(c) {
        Some(col) => if s.peer_sort_column == col {
            Some(KeyState { peer_sort_ascending: !s.peer_sort_ascending, ..s })
        } else {
            Some(KeyState { peer_sort_column: col, peer_sort_ascending: false, ..s })
        },
        None => if c == 'o' || c == 'O' {
            Some(KeyState { peer_sort_ascending: !s.peer_sort_ascending, ..s })
        } else {
            None
        },
    }
}

/// How a navigation key scrolls a message pane whose offset can go up to
/// `max`: a move while auto-scrolling first pins the view at the bottom
/// (`max`) and stops auto-scrolling; up and page up step back, stopping at
/// the top; down and page down step forward, stopping at `max`, and reaching
/// it turns auto-scrolling back on; Home goes to the top and stops
/// auto-scrolling; End turns auto-scrolling on.
pub open spec fn section_step(offset: int, auto: bool, key: NavKey, max: int, page: int) -> (int, bool) {
    let moves = key == NavKey::Up || key == NavKey::Down || key == NavKey::PageUp || key
        == NavKey::PageDown;
    let o0 = if auto && moves {
        max
    } else {
        offset
    };
    let a0 = if auto && moves {
        false
    } else {
        auto
    };
    match key {
        NavKey::Up => (if o0 > 0 {
            o0 - 1
        } else {
            o0
        }, a0),
        NavKey::Down => if o0 < max {
            (o0 + 1, if o0 + 1 >= max {
                true
            } else {
                a0
            })
        } else {
            (o0, a0)
        },
        NavKey::PageUp => (if o0 >= page {
            o0 - page
        } else {
            0
        }, a0),
        NavKey::PageDown => {
            let o1 = if o0 + page < max {
                o0 + page
            } else {
                max
            };
            (o1, if o1 >= max {
                true
            } else {
                a0
            })
        },
        NavKey::Home => (0, false),
        NavKey::End => (offset, true),
        NavKey::Other => (offset, auto),
    }
}

/// Page down from the pane's offset does not overflow.
pub open spec fn section_in_range(offset: int, auto: bool, key: NavKey, max: int, page: int) -> bool {
    key == NavKey::PageDown ==> (if auto {
        max
    } else {
        offset
    }) + page <= usize::MAX
}

/// A pane's `(offset, auto-scroll)` pair after a key (see [`section_step`]).
pub open spec fn pair_step(pair: (usize, bool), key: NavKey, max: usize, page: usize) -> (usize, bool) {
    let r = section_step(pair.0 as int, pair.1, key, max as int, page as int);
    (r.0 as usize, r.1)
}

/// A navigation key on the key state: the peer or group selection moves; on
/// the chat and the log the pane scrolls (see [`section_step`]), and
/// scrolling the chat back to auto-scroll clears its unread count; other
/// tabs keep this state (their panes move in [`panes_step`]).
pub open spec fn scroll_step(s: KeyState, ctx: KeyContext, k: NavKey) -> (KeyState, KeyAction) {
    match ctx.tab {
        TabKind::Peers => (
            KeyState {
                peer_selection: spec_new_selection(
                    k,
                    s.peer_selection as int,
                    ctx.peer_count as int,
                    spec_peer_page(ctx.chat_area_height),
                ) as usize,
                ..s
            },
            KeyAction::Redraw,
        ),
        TabKind::Groups => (
            KeyState {
                group_selection: spec_new_selection(
                    k,
                    s.group_selection as int,
                    ctx.group_count as int,
                    spec_group_page(ctx.chat_area_height),
                ) as usize,
                ..s
            },
            KeyAction::Redraw,
        ),
        TabKind::Chat => {
            let r = pair_step((s.chat_scroll_offset, s.chat_auto_scroll), k, ctx.chat_max_offset, ctx.page_size);
            (
                KeyState {
                    chat_scroll_offset: r.0,
                    chat_auto_scroll: r.1,
                    chat_unread_count: if r.1 && !s.chat_auto_scroll {
                        0
                    } else {
                        s.chat_unread_count
                    },
                    ..s
                },
                KeyAction::Redraw,
            )
        },
        TabKind::Log => {
            let r = pair_step((s.log_scroll_offset, s.log_auto_scroll), k, ctx.log_max_offset, ctx.page_size);
            (KeyState { log_scroll_offset: r.0, log_auto_scroll: r.1, ..s }, KeyAction::Redraw)
        },
        _ => (s, KeyAction::Redraw),
    }
}

/// The per-conversation panes after a navigation key, `id` naming the
/// active tab's peer or group: on a group chat its pane scrolls; on a
/// direct-message tab the pane under the mouse scrolls (the upper one when
/// the mouse is above the lower pane's first row). A pane with no messages,
/// or with no scroll state yet, stays as it is; so does everything on other
/// tabs.
pub open spec fn panes_step(p: PaneScroll, ctx: KeyContext, id: Seq<char>, k: NavKey, q: PaneScroll) -> bool {
    match ctx.tab {
        TabKind::GroupChat => match ctx.group_max_offset {
            Some(m) => if p.groups@.contains_key(id) {
                &&& q.groups@ == p.groups@.insert(id, pair_step(p.groups@[id], k, m, ctx.page_size))
                &&& q.dm == p.dm
                &&& q.dm_broadcast == p.dm_broadcast
            } else {
                q == p
            },
            None => q == p,
        },
        TabKind::Direct => if ctx.mouse_row < spec_dm_first_row(ctx.chat_area_height) {
            match ctx.dm_broadcast_max_offset {
                Some(m) => if p.dm_broadcast@.contains_key(id) {
                    &&& q.dm_broadcast@ == p.dm_broadcast@.insert(
                        id,
                        pair_step(p.dm_broadcast@[id], k, m, ctx.page_size),
                    )
                    &&& q.dm == p.dm
                    &&& q.groups == p.groups
                } else {
                    q == p
                },
                None => q == p,
            }
        } else {
            match ctx.dm_max_offset {
                Some(m) => if p.dm@.contains_key(id) {
                    &&& q.dm@ == p.dm@.insert(id, pair_step(p.dm@[id], k, m, ctx.page_size))
                    &&& q.dm_broadcast == p.dm_broadcast
                    &&& q.groups == p.groups
                } else {
                    q == p
                },
                None => q == p,
            }
        },
        _ => q == p,
    }
}

/// Page down cannot overflow on whichever pane the key scrolls.
pub open spec fn scroll_in_range(s: KeyState, p: PaneScroll, ctx: KeyContext, id: Seq<char>, k: NavKey) -> bool {
    let pg = ctx.page_size as int;
    match ctx.tab {
        TabKind::Chat => section_in_range(s.chat_scroll_offset as int, s.chat_auto_scroll, k, ctx.chat_max_offset as int, pg),
        TabKind::Log => section_in_range(s.log_scroll_offset as int, s.log_auto_scroll, k, ctx.log_max_offset as int, pg),
        TabKind::GroupChat => (ctx.group_max_offset matches Some(m) && p.groups@.contains_key(id)) ==> section_in_range(
            p.groups@[id].0 as int, p.groups@[id].1, k, ctx.group_max_offset->0 as int, pg),
        TabKind::Direct => if ctx.mouse_row < spec_dm_first_row(ctx.chat_area_height) {
            (ctx.dm_broadcast_max_offset is Some && p.dm_broadcast@.contains_key(id)) ==> section_in_range(
                p.dm_broadcast@[id].0 as int, p.dm_broadcast@[id].1, k, ctx.dm_broadcast_max_offset->0 as int, pg)
        } else {
            (ctx.dm_max_offset is Some && p.dm@.contains_key(id)) ==> section_in_range(
                p.dm@[id].0 as int, p.dm@[id].1, k, ctx.dm_max_offset->0 as int, pg)
        },
        _ => true,
    }
}

/// The navigation key a key press scrolls with, if it reaches the scroll
/// handling (no popup open).
pub open spec fn scroll_key_of(s: KeyState, key: KeyInput) -> Option<NavKey> {
    match key.code {
        KeyCode::Nav(k) => if k != NavKey::Other && s.popup is None {
            Some(k)
        } else {
            None
        },
        _ => None,
    }
}

/// Rows per page of the peer table.
pub open spec fn spec_peer_page(h: usize) -> int {
    if h >= 3 {
        h - 2
    } else {
        1
    }
}

/// Rows per page of the group list.
pub open spec fn spec_group_page(h: usize) -> int {
    if h >= 2 {
        h - 1
    } else {
        1
    }
}

/// First screen row of the lower pane of a direct-message tab.
pub open spec fn spec_dm_first_row(h: usize) -> int {
    crate::tui::keys::sat_add(crate::tui::keys::sat_add(h as int, 3) / 2, 1)
}

/// The whole effect of one key press: Esc and ctrl-Q first, then an open
/// popup swallows the key, then the key by its code and the active tab.
pub open spec fn key_step(s: KeyState, ctx: KeyContext, key: KeyInput) -> (KeyState, KeyAction) {
    if key.code == KeyCode::Esc {
        (escape(s), if s.editing_nickname { KeyAction::ClearInput } else { KeyAction::Redraw })
    } else if key.ctrl && key.code == KeyCode::Char('q') {
        (s, KeyAction::Exit)
    } else if s.popup is Some {
        (KeyState { popup: None, ..s }, KeyAction::Redraw)
    } else {
        match key.code {
            KeyCode::Tab => (
                navigate(s, ctx.total_tabs, true),
                if s.editing_nickname { KeyAction::ClearInput } else { KeyAction::Redraw },
            ),
            KeyCode::BackTab => (
                navigate(s, ctx.total_tabs, false),
                if s.editing_nickname { KeyAction::ClearInput } else { KeyAction::Redraw },
            ),
            KeyCode::Nav(k) => if k == NavKey::Other {
                (s, KeyAction::Redraw)
            } else {
                scroll_step(s, ctx, k)
            },
            KeyCode::F12 => (
                KeyState { mouse_capture: !s.mouse_capture, ..s },
                KeyAction::SetMouseCapture(!s.mouse_capture),
            ),
            KeyCode::Enter => if s.editing_nickname {
                (s, KeyAction::SubmitNickname)
            } else {
                (s, KeyAction::Enter(key.shift))
            },
            KeyCode::Char(c) => if key.ctrl && c == 'w' {
                (s, KeyAction::CloseTab)
            } else if !key.ctrl && c == 'n' && ctx.tab == TabKind::Settings && !s.editing_nickname {
                (
                    KeyState { editing_nickname: true, editing_nickname_peer: None, ..s },
                    KeyAction::ClearInput,
                )
            } else if !key.ctrl && c == 'i' && !s.editing_nickname {
                (s, KeyAction::OpenPeerInfo)
            } else if !key.ctrl && !s.editing_nickname && ctx.tab == TabKind::Peers {
                match sort_step(s, c) {
                    Some(t) => (t, KeyAction::Resort),
                    None => (s, KeyAction::Redraw),
                }
            } else {
                default_key(s, ctx)
            },
            _ => default_key(s, ctx),
        }
    }
}

/// A key that nothing else takes goes to the text input when the tab takes
/// input or a nickname is being edited.
pub open spec fn default_key(s: KeyState, ctx: KeyContext) -> (KeyState, KeyAction) {
    if ctx.input_enabled || s.editing_nickname {
        (s, KeyAction::TypeKey)
    } else {
        (s, KeyAction::Redraw)
    }
}

impl KeyState {
    /// Leave nickname editing; the caller empties the text input.
    pub fn cancel_nickname_edit(&mut self)
        ensures
            *final(self) == cancel_edit(*old(self)),
    {
        if !self.editing_nickname {
            return;
        }
        self.editing_nickname = false;
        self.editing_nickname_peer = None;
    }
}

/// Tab / shift-Tab (see [`navigate`]).
pub fn handle_navigation_key(state: &mut KeyState, total_tabs: usize, forward: bool)
    ensures
        *final(state) == navigate(*old(state), total_tabs, forward),
{
    let tab = if forward {
        next_tab(state.active_tab, total_tabs)
    } else {
        previous_tab(state.active_tab, total_tabs)
    };
    state.active_tab = tab;
    state.chat_scroll_offset = 0;
    state.cancel_nickname_edit();
    if tab == 0 {
        state.chat_unread_count = 0;
    }
}

/// Esc (see [`escape`]).
pub fn handle_esc_key(state: &mut KeyState)
    ensures
        *final(state) == escape(*old(state)),
{
    state.popup = None;
    if state.editing_nickname {
        state.cancel_nickname_edit();
    } else {
        state.active_tab = 0;
        state.broadcast_selection = None;
        state.chat_scroll_offset = 0;
        state.chat_auto_scroll = true;
    }
}

/// A peer-list sort key (see [`sort_step`]); whether the list must be sorted
/// again.
pub fn handle_peer_sort_key(state: &mut KeyState, c: char) -> (r: bool)
    ensures
        match sort_step(*old(state), c) {
            Some(t) => r && *final(state) == t,
            None => !r && *final(state) == *old(state),
        },
{
    let col: Option<usize> = if c == '1' || c == 'n' || c == 'N' {
        Some(0)
    } else if c == '2' || c == 'm' || c == 'M' {
        Some(1)
    } else if c == '3' || c == 'b' || c == 'B' {
        Some(2)
    } else if c == '4' || c == 'l' || c == 'L' {
        Some(3)
    } else {
        None
    };
    match col {
        Some(column) => {
            if state.peer_sort_column == column {
                state.peer_sort_ascending = !state.peer_sort_ascending;
            } else {
                state.peer_sort_column = column;
                state.peer_sort_ascending = false;
            }
            true
        },
        None => if c == 'o' || c == 'O' {
            state.peer_sort_ascending = !state.peer_sort_ascending;
            true
        } else {
            false
        },
    }
}

/// Scroll one message pane (see [`section_step`]).
pub fn scroll_section(offset: &mut usize, auto: &mut bool, key: NavKey, max_offset: usize, page: usize)
    requires
        section_in_range(*old(offset) as int, *old(auto), key, max_offset as int, page as int),
    ensures
        (*final(offset) as int, *final(auto)) == section_step(
            *old(offset) as int,
            *old(auto),
            key,
            max_offset as int,
            page as int,
        ),
{
    let moves = key == NavKey::Up || key == NavKey::Down || key == NavKey::PageUp || key
        == NavKey::PageDown;
    if moves && *auto {
        *auto = false;
        *offset = max_offset;
    }
    match key {
        NavKey::Up => {
            if *offset > 0 {
                *offset = *offset - 1;
            }
        },
        NavKey::Down => {
            if *offset < max_offset {
                *offset = *offset + 1;
                if *offset >= max_offset {
                    *auto = true;
                }
            }
        },
        NavKey::PageUp => {
            *offset = offset.saturating_sub(page);
        },
        NavKey::PageDown => {
            let next = *offset + page;
            *offset = if next < max_offset {
                next
            } else {
                max_offset
            };
            if *offset >= max_offset {
                *auto = true;
            }
        },
        NavKey::Home => {
            *auto = false;
            *offset = 0;
        },
        NavKey::End => {
            *auto = true;
        },
        NavKey::Other => {},
    }
}

fn scroll_pane_entry(m: &mut StrMap<(usize, bool)>, id: &str, key: NavKey, max_offset: usize, page: usize)
    requires
        old(m)@.contains_key(id@) ==> section_in_range(
            old(m)@[id@].0 as int,
            old(m)@[id@].1,
            key,
            max_offset as int,
            page as int,
        ),
    ensures
        if old(m)@.contains_key(id@) {
            final(m)@ == old(m)@.insert(id@, pair_step(old(m)@[id@], key, max_offset, page))
        } else {
            *final(m) == *old(m)
        },
{
    let cur = match m.get(id) {
        Some(pair) => Some(*pair),
        None => None,
    };
    match cur {
        Some((o, a)) => {
            let mut o = o;
            let mut a = a;
            scroll_section(&mut o, &mut a, key, max_offset, page);
            m.insert(owned(id), (o, a));
        },
        None => {},
    }
}

/// A navigation key (see [`scroll_step`] and [`panes_step`]); `id` is the
/// active tab's peer or group.
pub fn handle_scroll_key(
    state: &mut KeyState,
    panes: &mut PaneScroll,
    ctx: &KeyContext,
    id: &str,
    key: NavKey,
) -> (r: KeyAction)
    requires
        scroll_in_range(*old(state), *old(panes), *ctx, id@, key),
    ensures
        (*final(state), r) == scroll_step(*old(state), *ctx, key),
        panes_step(*old(panes), *ctx, id@, key, *final(panes)),
{
    match ctx.tab {
        TabKind::Peers => {
            let page = expected_peer_page_size(ctx.chat_area_height);
            state.peer_selection = compute_new_peer_selection(
                key,
                state.peer_selection,
                ctx.peer_count,
                page,
            );
        },
        TabKind::Groups => {
            let page = expected_group_page_size(ctx.chat_area_height);
            state.group_selection = compute_new_peer_selection(
                key,
                state.group_selection,
                ctx.group_count,
                page,
            );
        },
        TabKind::Chat => {
            let was_auto = state.chat_auto_scroll;
            let mut o = state.chat_scroll_offset;
            let mut a = state.chat_auto_scroll;
            scroll_section(&mut o, &mut a, key, ctx.chat_max_offset, ctx.page_size);
            state.chat_scroll_offset = o;
            state.chat_auto_scroll = a;
            if a && !was_auto {
                state.chat_unread_count = 0;
            }
        },
        TabKind::Log => {
            let mut o = state.log_scroll_offset;
            let mut a = state.log_auto_scroll;
            scroll_section(&mut o, &mut a, key, ctx.log_max_offset, ctx.page_size);
            state.log_scroll_offset = o;
            state.log_auto_scroll = a;
        },
        TabKind::GroupChat => {
            match ctx.group_max_offset {
                Some(m) => scroll_pane_entry(&mut panes.groups, id, key, m, ctx.page_size),
                None => {},
            }
        },
        TabKind::Direct => {
            if ctx.mouse_row < dm_pane_first_row(ctx.chat_area_height) {
                match ctx.dm_broadcast_max_offset {
                    Some(m) => scroll_pane_entry(&mut panes.dm_broadcast, id, key, m, ctx.page_size),
                    None => {},
                }
            } else {
                match ctx.dm_max_offset {
                    Some(m) => scroll_pane_entry(&mut panes.dm, id, key, m, ctx.page_size),
                    None => {},
                }
            }
        },
        TabKind::PeerInfo | TabKind::Settings => {},
    }
    KeyAction::Redraw
}

/// One key press (see [`key_step`]): the state it leaves and what the host
/// still has to do.
pub fn process_key_event(
    state: &mut KeyState,
    panes: &mut PaneScroll,
    ctx: &KeyContext,
    id: &str,
    key: KeyInput,
) -> (r: KeyAction)
    requires
        scroll_key_of(*old(state), key) matches Some(k) ==> scroll_in_range(
            *old(state),
            *old(panes),
            *ctx,
            id@,
            k,
        ),
    ensures
        (*final(state), r) == key_step(*old(state), *ctx, key),
        match scroll_key_of(*old(state), key) {
            Some(k) => panes_step(*old(panes), *ctx, id@, k, *final(panes)),
            None => *final(panes) == *old(panes),
        },
{
    if key.code == KeyCode::Esc {
        let was_editing = state.editing_nickname;
        handle_esc_key(state);
        return if was_editing {
            KeyAction::ClearInput
        } else {
            KeyAction::Redraw
        };
    }
    if key.ctrl && key.code == KeyCode::Char('q') {
        return KeyAction::Exit;
    }
    if state.popup.is_some() {
        state.popup = None;
        return KeyAction::Redraw;
    }
    match key.code {
        KeyCode::Tab | KeyCode::BackTab => {
            let was_editing = state.editing_nickname;
            let forward = key.code == KeyCode::Tab;
            handle_navigation_key(state, ctx.total_tabs, forward);
            if was_editing {
                KeyAction::ClearInput
            } else {
                KeyAction::Redraw
            }
        },
        KeyCode::Nav(k) => {
            if k == NavKey::Other {
                KeyAction::Redraw
            } else {
                handle_scroll_key(state, panes, ctx, id, k)
            }
        },
        KeyCode::F12 => {
            state.mouse_capture = !state.mouse_capture;
            KeyAction::SetMouseCapture(state.mouse_capture)
        },
        KeyCode::Enter => {
            if state.editing_nickname {
                KeyAction::SubmitNickname
            } else {
                KeyAction::Enter(key.shift)
            }
        },
        KeyCode::Char(c) => {
            if key.ctrl && c == 'w' {
                KeyAction::CloseTab
            } else if !key.ctrl && c == 'n' && ctx.tab == TabKind::Settings
                && !state.editing_nickname {
                state.editing_nickname = true;
                state.editing_nickname_peer = None;
                KeyAction::ClearInput
            } else if !key.ctrl && c == 'i' && !state.editing_nickname {
                KeyAction::OpenPeerInfo
            } else if !key.ctrl && !state.editing_nickname && ctx.tab == TabKind::Peers {
                if handle_peer_sort_key(state, c) {
                    KeyAction::Resort
                } else {
                    KeyAction::Redraw
                }
            } else if ctx.input_enabled || state.editing_nickname {
                KeyAction::TypeKey
            } else {
                KeyAction::Redraw
            }
        },
        _ => {
            if ctx.input_enabled || state.editing_nickname {
                KeyAction::TypeKey
            } else {
                KeyAction::Redraw
            }
        },
    }
}

/// How one wheel notch scrolls a pane whose offset can go up to `max`:
/// nothing moves when nothing can scroll; up leaves auto-scroll pinned at
/// the bottom and then steps back `lines`, stopping at the top; down steps
/// forward `lines`, stopping at `max`, and reaching it turns auto-scrolling
/// back on.
pub open spec fn wheel_step(offset: int, auto: bool, up: bool, max: int, lines: int) -> (int, bool) {
    if max == 0 {
        (offset, auto)
    } else if up {
        let o0 = if auto {
            max
        } else {
            offset
        };
        (if o0 >= lines {
            o0 - lines
        } else {
            0
        }, false)
    } else {
        let o1 = if offset + lines < max {
            offset + lines
        } else {
            max
        };
        (o1, if o1 >= max {
            true
        } else {
            auto
        })
    }
}

/// A pane's pair after a wheel notch (see [`wheel_step`]).
pub open spec fn pair_wheel(pair: (usize, bool), up: bool, max: usize, lines: usize) -> (usize, bool) {
    let r = wheel_step(pair.0 as int, pair.1, up, max as int, lines as int);
    (r.0 as usize, r.1)
}

/// A wheel notch down cannot overflow.
pub open spec fn wheel_in_range(offset: int, up: bool, max: int, lines: int) -> bool {
    !up && max != 0 ==> offset + lines <= usize::MAX
}

/// Scroll one pane by a wheel notch (see [`wheel_step`]); whether anything
/// changed.
pub fn wheel_section(offset: &mut usize, auto: &mut bool, up: bool, max_offset: usize, lines: usize) -> (r: bool)
    requires
        wheel_in_range(*old(offset) as int, up, max_offset as int, lines as int),
    ensures
        (*final(offset) as int, *final(auto)) == wheel_step(
            *old(offset) as int,
            *old(auto),
            up,
            max_offset as int,
            lines as int,
        ),
        r == (*final(offset) != *old(offset) || *final(auto) != *old(auto)),
{
    if max_offset == 0 {
        return false;
    }
    let before_offset = *offset;
    let before_auto = *auto;
    if up {
        if *auto {
            *auto = false;
            *offset = max_offset;
        }
        *offset = offset.saturating_sub(lines);
    } else {
        let next = *offset + lines;
        *offset = if next < max_offset {
            next
        } else {
            max_offset
        };
        if *offset >= max_offset {
            *auto = true;
        }
    }
    *offset != before_offset || *auto != before_auto
}

/// The pane a wheel notch scrolls on the key state: the log on the log tab;
/// the chat on the chat and peers tabs (returning to auto-scroll clears the
/// unread count); nothing here on the other tabs (their panes move in
/// [`wheel_panes_step`]).
pub open spec fn wheel_state_step(s: KeyState, ctx: KeyContext, up: bool) -> KeyState {
    match ctx.tab {
        TabKind::Log => {
            let r = pair_wheel((s.log_scroll_offset, s.log_auto_scroll), up, ctx.log_max_offset, ctx.wheel_lines);
            KeyState { log_scroll_offset: r.0, log_auto_scroll: r.1, ..s }
        },
        TabKind::Chat | TabKind::Peers => {
            let r = pair_wheel((s.chat_scroll_offset, s.chat_auto_scroll), up, ctx.chat_max_offset, ctx.wheel_lines);
            KeyState {
                chat_scroll_offset: r.0,
                chat_auto_scroll: r.1,
                chat_unread_count: if r.1 && !s.chat_auto_scroll {
                    0
                } else {
                    s.chat_unread_count
                },
                ..s
            }
        },
        _ => s,
    }
}

/// The max offset of a pane that may have no message.
pub open spec fn or_zero(m: Option<usize>) -> usize {
    match m {
        Some(v) => v,
        None => 0,
    }
}

/// The per-conversation panes after a wheel notch, `id` naming the peer or
/// group: on a direct-message tab the pane under the mouse, on a group chat
/// its pane (a group with no message does not scroll); a pane with no scroll
/// state yet stays as it is.
pub open spec fn wheel_panes_step(p: PaneScroll, ctx: KeyContext, id: Seq<char>, up: bool, q: PaneScroll) -> bool {
    let l = ctx.wheel_lines;
    match ctx.tab {
        TabKind::Direct => if ctx.mouse_row < spec_dm_first_row(ctx.chat_area_height) {
            if p.dm_broadcast@.contains_key(id) {
                &&& q.dm_broadcast@ == p.dm_broadcast@.insert(id, pair_wheel(p.dm_broadcast@[id], up, or_zero(ctx.dm_broadcast_max_offset), l))
                &&& q.dm == p.dm
                &&& q.groups == p.groups
            } else {
                q == p
            }
        } else {
            if p.dm@.contains_key(id) {
                &&& q.dm@ == p.dm@.insert(id, pair_wheel(p.dm@[id], up, or_zero(ctx.dm_max_offset), l))
                &&& q.dm_broadcast == p.dm_broadcast
                &&& q.groups == p.groups
            } else {
                q == p
            }
        },
        TabKind::GroupChat => match ctx.group_max_offset {
            Some(m) => if p.groups@.contains_key(id) {
                &&& q.groups@ == p.groups@.insert(id, pair_wheel(p.groups@[id], up, m, l))
                &&& q.dm == p.dm
                &&& q.dm_broadcast == p.dm_broadcast
            } else {
                q == p
            },
            None => q == p,
        },
        _ => q == p,
    }
}

/// The pair a wheel notch acts on, if any.
pub open spec fn wheel_target(s: KeyState, p: PaneScroll, ctx: KeyContext, id: Seq<char>) -> Option<((usize, bool), usize)> {
    match ctx.tab {
        TabKind::Log => Some(((s.log_scroll_offset, s.log_auto_scroll), ctx.log_max_offset)),
        TabKind::Chat | TabKind::Peers => Some(((s.chat_scroll_offset, s.chat_auto_scroll), ctx.chat_max_offset)),
        TabKind::Direct => if ctx.mouse_row < spec_dm_first_row(ctx.chat_area_height) {
            if p.dm_broadcast@.contains_key(id) {
                Some((p.dm_broadcast@[id], or_zero(ctx.dm_broadcast_max_offset)))
            } else {
                None
            }
        } else {
            if p.dm@.contains_key(id) {
                Some((p.dm@[id], or_zero(ctx.dm_max_offset)))
            } else {
                None
            }
        },
        TabKind::GroupChat => match ctx.group_max_offset {
            Some(m) => if p.groups@.contains_key(id) {
                Some((p.groups@[id], m))
            } else {
                None
            },
            None => None,
        },
        _ => None,
    }
}

fn wheel_pane_entry(m: &mut StrMap<(usize, bool)>, id: &str, up: bool, max_offset: usize, lines: usize) -> (r: bool)
    requires
        old(m)@.contains_key(id@) ==> wheel_in_range(old(m)@[id@].0 as int, up, max_offset as int, lines as int),
    ensures
        if old(m)@.contains_key(id@) {
            &&& final(m)@ == old(m)@.insert(id@, pair_wheel(old(m)@[id@], up, max_offset, lines))
            &&& r == (pair_wheel(old(m)@[id@], up, max_offset, lines) != old(m)@[id@])
        } else {
            *final(m) == *old(m) && !r
        },
{
    let cur = match m.get(id) {
        Some(pair) => Some(*pair),
        None => None,
    };
    match cur {
        Some((o, a)) => {
            let mut o = o;
            let mut a = a;
            let changed = wheel_section(&mut o, &mut a, up, max_offset, lines);
            m.insert(owned(id), (o, a));
            changed
        },
        None => false,
    }
}

/// One wheel notch over the active tab (`up` or down), `id` naming the
/// peer or group of a direct-message or group tab; whether anything moved
/// (and a redraw is due).
pub fn handle_mouse_scroll(state: &mut KeyState, panes: &mut PaneScroll, ctx: &KeyContext, id: &str, up: bool) -> (r: bool)
    requires
        wheel_target(*old(state), *old(panes), *ctx, id@) matches Some((pair, m)) ==> wheel_in_range(
            pair.0 as int,
            up,
            m as int,
            ctx.wheel_lines as int,
        ),
    ensures
        *final(state) == wheel_state_step(*old(state), *ctx, up),
        wheel_panes_step(*old(panes), *ctx, id@, up, *final(panes)),
        r == match wheel_target(*old(state), *old(panes), *ctx, id@) {
            Some((pair, m)) => pair_wheel(pair, up, m, ctx.wheel_lines) != pair,
            None => false,
        },
{
    let l = ctx.wheel_lines;
    match ctx.tab {
        TabKind::Log => {
            let mut o = state.log_scroll_offset;
            let mut a = state.log_auto_scroll;
            let changed = wheel_section(&mut o, &mut a, up, ctx.log_max_offset, l);
            state.log_scroll_offset = o;
            state.log_auto_scroll = a;
            changed
        },
        TabKind::Chat | TabKind::Peers => {
            let was_auto = state.chat_auto_scroll;
            let mut o = state.chat_scroll_offset;
            let mut a = state.chat_auto_scroll;
            let changed = wheel_section(&mut o, &mut a, up, ctx.chat_max_offset, l);
            state.chat_scroll_offset = o;
            state.chat_auto_scroll = a;
            if a && !was_auto {
                state.chat_unread_count = 0;
            }
            changed
        },
        TabKind::Direct => {
            if ctx.mouse_row < dm_pane_first_row(ctx.chat_area_height) {
                let m = match ctx.dm_broadcast_max_offset {
                    Some(v) => v,
                    None => 0,
                };
                wheel_pane_entry(&mut panes.dm_broadcast, id, up, m, l)
            } else {
                let m = match ctx.dm_max_offset {
                    Some(v) => v,
                    None => 0,
                };
                wheel_pane_entry(&mut panes.dm, id, up, m, l)
            }
        },
        TabKind::GroupChat => {
            match ctx.group_max_offset {
                Some(m) => wheel_pane_entry(&mut panes.groups, id, up, m, l),
                None => false,
            }
        },
        _ => false,
    }
}

} // verus!
