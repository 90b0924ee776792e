//! Mouse clicks in the terminal chat front end: which tab of the tab bar a
//! click hits (or its close button), what a click in the content area aims
//! at, and how the key state changes.

use vstd::prelude::*;
use crate::tui::input::{cancel_edit, KeyState, TabKind};
use crate::tui::keys::sat_add;

verus! {

/// What a click on the tab bar hits.
#[derive(Debug, Clone, Copy, PartialEq, Eq, Structural)]
pub enum TabClick {
    /// The close button of the tab at this index.
    Close(usize),
    /// The tab at this index, which is not the active one.
    Select(usize),
    /// Nothing to do (the active tab, a divider, or past the last tab).
    Nothing,
}

/// Where the tab bar's tab `i` starts, each tab taking its title's width
/// plus a space on either side, with a one-column divider between tabs.
/// `tabs[i]` is the display width of tab `i`'s title and whether it carries
/// a close button.
pub open spec fn tab_hit(tabs: Seq<(usize, bool)>, click: int, active: int, i: int, col: int) -> TabClick
    decreases tabs.len() - i,
{
    if i < 0 || i >= tabs.len() {
        TabClick::Nothing
    } else {
        let title_end = sat_add(sat_add(col, 1), tabs[i].0 as int);
        let tab_end = sat_add(title_end, 1);
        if col <= click && click < tab_end {
            let close_start = if title_end >= 3 {
                title_end - 3
            } else {
                0
            };
            if tabs[i].1 && close_start <= click && click < title_end {
                TabClick::Close(i as usize)
            } else if i != active {
                TabClick::Select(i as usize)
            } else {
                TabClick::Nothing
            }
        } else {
            tab_hit(tabs, click, active, i + 1, sat_add(tab_end, 1))
        }
    }
}

/// What a click at column `click` of the tab bar hits (see [`tab_hit`]).
pub fn tab_click_target(tabs: &Vec<(usize, bool)>, click: usize, active: usize) -> (r: TabClick)
    ensures
        r == tab_hit(tabs@, click as int, active as int, 0, 0),
{
    let mut i: usize = 0;
    let mut col: usize = 0;
    while i < tabs.len()
        invariant
            i <= tabs@.len(),
            tab_hit(tabs@, click as int, active as int, 0, 0) == tab_hit(
                tabs@,
                click as int,
                active as int,
                i as int,
                col as int,
            ),
        decreases tabs.len() - i,
    {
        let (width, closable) = tabs[i];
        let title_end = col.saturating_add(1).saturating_add(width);
        let tab_end = title_end.saturating_add(1);
        if col <= click && click < tab_end {
            let close_start = title_end.saturating_sub(3);
            if closable && close_start <= click && click < title_end {
                return TabClick::Close(i);
            } else if i != active {
                return TabClick::Select(i);
            } else {
                return TabClick::Nothing;
            }
        }
        col = tab_end.saturating_add(1);
        i += 1;
    }
    TabClick::Nothing
}

/// The active tab after the tab at `closed` was closed: focus stays put
/// unless it was on that tab or after it, when it moves one to the left.
pub open spec fn after_close(active: usize, closed: usize) -> usize {
    if active == closed {
        if closed >= 1 {
            (closed - 1) as usize
        } else {
            0
        }
    } else if active > closed {
        (active - 1) as usize
    } else {
        active
    }
}

/// A tab was closed by its button; `closed` is where it stood.
pub fn handle_tab_closed(state: &mut KeyState, closed: usize)
    ensures
        *final(state) == (KeyState { active_tab: after_close(old(state).active_tab, closed), ..*old(state) }),
{
    if state.active_tab == closed {
        state.active_tab = closed.saturating_sub(1);
    } else if state.active_tab > closed {
        state.active_tab = state.active_tab - 1;
    }
}

/// A tab was picked on the tab bar: it becomes active, the chat is back at
/// its top, and nickname editing is left.
pub fn handle_tab_selected(state: &mut KeyState, idx: usize)
    ensures
        *final(state) == cancel_edit(KeyState { active_tab: idx, chat_scroll_offset: 0, ..*old(state) }),
{
    state.active_tab = idx;
    state.chat_scroll_offset = 0;
    state.cancel_nickname_edit();
}

/// What a left click aims at.
#[derive(Debug, Clone, Copy, PartialEq, Eq, Structural)]
pub enum ClickTarget {
    /// The tab bar (row zero).
    TabBar,
    /// The header of the peers table.
    PeerHeader,
    /// A row of the peers table.
    PeerRow,
    /// A row of the groups list.
    GroupRow,
    /// A message of the chat, a conversation, a group chat or the log.
    Message,
    /// Nothing clickable.
    Nothing,
}

/// Where a click at `row` lands: row zero is the tab bar; inside the
/// content area (from row two; the peers table and groups list end one row
/// higher, above their hint line) the peers table's header, a peer row, a
/// group row or a message.
pub open spec fn click_target(row: usize, tab: TabKind, chat_area_height: usize) -> ClickTarget {
    let listy = tab == TabKind::Peers || tab == TabKind::Groups;
    let max_row: int = if listy {
        chat_area_height as int
    } else {
        sat_add(chat_area_height as int, 1)
    };
    let clickable = listy || tab == TabKind::Chat || tab == TabKind::Log || tab == TabKind::Direct
        || tab == TabKind::GroupChat;
    if row == 0 {
        ClickTarget::TabBar
    } else if clickable && row > 1 && row <= max_row {
        if tab == TabKind::Peers {
            if row == 2 {
                ClickTarget::PeerHeader
            } else {
                ClickTarget::PeerRow
            }
        } else if tab == TabKind::Groups {
            ClickTarget::GroupRow
        } else {
            ClickTarget::Message
        }
    } else {
        ClickTarget::Nothing
    }
}

/// Where a left click lands (see [`click_target`]).
pub fn left_click_target(row: usize, tab: TabKind, chat_area_height: usize) -> (r: ClickTarget)
    ensures
        r == click_target(row, tab, chat_area_height),
{
    if row == 0 {
        return ClickTarget::TabBar;
    }
    let listy = tab == TabKind::Peers || tab == TabKind::Groups;
    let max_row = if listy {
        chat_area_height
    } else {
        chat_area_height.saturating_add(1)
    };
    let clickable = listy || tab == TabKind::Chat || tab == TabKind::Log || tab == TabKind::Direct
        || tab == TabKind::GroupChat;
    if clickable && row > 1 && row <= max_row {
        if tab == TabKind::Peers {
            if row == 2 {
                ClickTarget::PeerHeader
            } else {
                ClickTarget::PeerRow
            }
        } else if tab == TabKind::Groups {
            ClickTarget::GroupRow
        } else {
            ClickTarget::Message
        }
    } else {
        ClickTarget::Nothing
    }
}

/// The list index a click on a table row picks: rows start at screen row
/// `first_row`, and `start` is the first row the view shows; `None` past the
/// end of the list.
pub fn clicked_index(start: usize, row: usize, first_row: usize, count: usize) -> (r: Option<usize>)
    ensures
        r == (if sat_add(start as int, if row >= first_row {
            row - first_row
        } else {
            0
        }) < count {
            Some(
                sat_add(start as int, if row >= first_row {
                    row - first_row
                } else {
                    0
                }) as usize,
            )
        } else {
            None::<usize>
        }),
{
    let idx = start.saturating_add(row.saturating_sub(first_row));
    if idx < count {
        Some(idx)
    } else {
        None
    }
}

/// A click on the peers-table header picked sort column `col`: the same
/// column flips the direction, another starts descending.
pub fn handle_peer_header_column(state: &mut KeyState, col: usize)
    ensures
        *final(state) == (if old(state).peer_sort_column == col {
            KeyState { peer_sort_ascending: !old(state).peer_sort_ascending, ..*old(state) }
        } else {
            KeyState { peer_sort_column: col, peer_sort_ascending: false, ..*old(state) }
        }),
{
    if state.peer_sort_column == col {
        state.peer_sort_ascending = !state.peer_sort_ascending;
    } else {
        state.peer_sort_column = col;
        state.peer_sort_ascending = false;
    }
}

} // verus!
