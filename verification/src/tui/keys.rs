//! Keyboard navigation of the terminal front end: moving a list selection,
//! cycling tabs, the sizes of the split direct-message panes, and key-probe
//! labels.

use vstd::prelude::*;
use crate::text::{hex_fixed, owned, push_char};
use vstd::string::StringExecFns;

verus! {

/// A navigation key.
#[derive(Debug, Clone, Copy, PartialEq, Eq, Structural)]
pub enum NavKey {
    Up,
    Down,
    PageUp,
    PageDown,
    Home,
    End,
    /// Any other key.
    Other,
}

/// The selection after a navigation key in a list of `count` rows showing
/// `page_size` rows at a time (at least one): a step up or down, a page up or
/// down, the first or the last row, clamped to the list; `0` for an empty
/// list.
pub open spec fn spec_new_selection(key: NavKey, current: int, count: int, page_size: int) -> int {
    let last = count - 1;
    let page = if page_size < 1 {
        1
    } else {
        page_size
    };
    if count == 0 {
        0
    } else {
        match key {
            NavKey::Up => if current >= 1 {
                current - 1
            } else {
                0
            },
            NavKey::Down => if current + 1 < last {
                current + 1
            } else {
                last
            },
            NavKey::PageUp => if current >= page {
                current - page
            } else {
                0
            },
            NavKey::PageDown => if current + page < last {
                current + page
            } else {
                last
            },
            NavKey::Home => 0,
            NavKey::End => last,
            NavKey::Other => current,
        }
    }
}

/// Move a list selection (see [`spec_new_selection`]).
pub fn compute_new_peer_selection(key: NavKey, current_selection: usize, peer_count: usize, page_size: usize) -> (r:
    usize)
    ensures
        r == spec_new_selection(key, current_selection as int, peer_count as int, page_size as int),
{
    if peer_count == 0 {
        return 0;
    }
    let last = peer_count - 1;
    let page = if page_size < 1 {
        1
    } else {
        page_size
    };
    match key {
        NavKey::Up => current_selection.saturating_sub(1),
        NavKey::Down => {
            let next = current_selection.saturating_add(1);
            if next < last {
                next
            } else {
                last
            }
        },
        NavKey::PageUp => current_selection.saturating_sub(page),
        NavKey::PageDown => {
            let next = current_selection.saturating_add(page);
            if next < last {
                next
            } else {
                last
            }
        },
        NavKey::Home => 0,
        NavKey::End => last,
        NavKey::Other => current_selection,
    }
}

/// `a + b`, saturating at the largest `usize`.
pub open spec fn sat_add(a: int, b: int) -> int {
    if a + b > usize::MAX {
        usize::MAX as int
    } else {
        a + b
    }
}

/// The tab after the active one, wrapping round; `0` when there is no tab.
pub open spec fn spec_next_tab(active: int, total: int) -> int {
    if total == 0 {
        0
    } else {
        sat_add(active, 1) % total
    }
}

/// The tab after the active one (Tab key), wrapping round.
pub fn next_tab(active: usize, total: usize) -> (r: usize)
    ensures
        r == spec_next_tab(active as int, total as int),
        total > 0 ==> r < total,
{
    if total == 0 {
        0
    } else {
        active.saturating_add(1) % total
    }
}

/// The tab before the active one (shift-Tab), wrapping round to the last.
pub fn previous_tab(active: usize, total: usize) -> (r: usize)
    ensures
        r == (if active == 0 {
            if total == 0 {
                0
            } else {
                total - 1
            }
        } else {
            active - 1
        }),
{
    if active == 0 {
        total.saturating_sub(1)
    } else {
        active - 1
    }
}

/// Rows of message text in the lower (direct-message) pane of a DM tab: the
/// message area (`chat_area_height + 2` rows) is split in two, the upper pane
/// taking the odd row, and each pane loses two rows to its border; at least
/// one.
pub open spec fn spec_dm_pane_lines(chat_area_height: int) -> int {
    let pane = sat_add(chat_area_height, 2) / 2;
    if pane - 2 < 1 {
        1
    } else {
        pane - 2
    }
}

/// Rows of message text in the upper (broadcast) pane of a DM tab.
pub open spec fn spec_broadcast_pane_lines(chat_area_height: int) -> int {
    let pane = sat_add(chat_area_height, 3) / 2;
    if pane - 2 < 1 {
        1
    } else {
        pane - 2
    }
}

/// Rows of message text in the lower pane of a DM tab.
pub fn dm_pane_visible_lines(chat_area_height: usize) -> (r: usize)
    ensures
        r == spec_dm_pane_lines(chat_area_height as int),
        r >= 1,
{
    let pane = chat_area_height.saturating_add(2) / 2;
    let lines = pane.saturating_sub(2);
    if lines < 1 {
        1
    } else {
        lines
    }
}

/// Rows of message text in the upper pane of a DM tab.
pub fn broadcast_pane_visible_lines(chat_area_height: usize) -> (r: usize)
    ensures
        r == spec_broadcast_pane_lines(chat_area_height as int),
        r >= 1,
{
    let pane = chat_area_height.saturating_add(3) / 2;
    let lines = pane.saturating_sub(2);
    if lines < 1 {
        1
    } else {
        lines
    }
}

/// The first screen row of the lower pane of a DM tab: the upper pane starts
/// on row one and takes `(chat_area_height + 3) / 2` rows.
pub fn dm_pane_first_row(chat_area_height: usize) -> (r: usize)
    ensures
        r == sat_add(sat_add(chat_area_height as int, 3) / 2, 1),
{
    (chat_area_height.saturating_add(3) / 2).saturating_add(1)
}

/// Data rows that fit the peer table: the content area minus the hint row,
/// the borders and the header; at least one.
pub fn expected_peer_page_size(chat_area_height: usize) -> (r: usize)
    ensures
        r == (if chat_area_height >= 3 {
            chat_area_height - 2
        } else {
            1
        }),
{
    let n = chat_area_height.saturating_sub(2);
    if n < 1 {
        1
    } else {
        n
    }
}

/// Data rows that fit the group list; at least one.
pub fn expected_group_page_size(chat_area_height: usize) -> (r: usize)
    ensures
        r == (if chat_area_height >= 2 {
            chat_area_height - 1
        } else {
            1
        }),
{
    let n = chat_area_height.saturating_sub(1);
    if n < 1 {
        1
    } else {
        n
    }
}

/// How the key probe names a byte: control keys by name, printable ASCII in
/// brackets, anything else as `\x` and two lowercase hex digits.
pub open spec fn spec_byte_label(b: u8) -> Seq<char> {
    if b == 0x1B {
        "ESC"@
    } else if b == 0x09 {
        "TAB"@
    } else if b == 0x0D {
        "CR"@
    } else if b == 0x0A {
        "LF"@
    } else if b == 0x7F {
        "DEL"@
    } else if 0x20 <= b <= 0x7E {
        seq!['[', b as char, ']']
    } else {
        seq!['\\', 'x'] + hex_fixed(b as nat, 2)
    }
}

/// Name a byte for the key probe (see [`spec_byte_label`]).
pub fn byte_label(b: u8) -> (r: String)
    ensures
        r@ == spec_byte_label(b),
{
    if b == 0x1B {
        owned("ESC")
    } else if b == 0x09 {
        owned("TAB")
    } else if b == 0x0D {
        owned("CR")
    } else if b == 0x0A {
        owned("LF")
    } else if b == 0x7F {
        owned("DEL")
    } else if 0x20 <= b && b <= 0x7E {
        let mut s = String::new();
        push_char(&mut s, '[');
        push_char(&mut s, b as char);
        push_char(&mut s, ']');
        assert(s@ =~= seq!['[', b as char, ']']);
        s
    } else {
        let mut s = String::new();
        push_char(&mut s, '\\');
        push_char(&mut s, 'x');
        push_char(&mut s, crate::text::hex_digit((b / 16) as u64));
        push_char(&mut s, crate::text::hex_digit((b % 16) as u64));
        assert(hex_fixed(b as nat, 2) =~= seq![
            crate::text::hex_digit_char((b / 16) as nat),
            crate::text::hex_digit_char((b % 16) as nat),
        ]) by {
            let n = b as nat;
            assert(hex_fixed(n, 2) == hex_fixed(n / 16, 1).push(crate::text::hex_digit_char(n % 16)));
            assert(hex_fixed(n / 16, 1) == hex_fixed(n / 16 / 16, 0).push(
                crate::text::hex_digit_char((n / 16) % 16),
            ));
            assert(hex_fixed(n / 16 / 16, 0) =~= Seq::<char>::empty());
            assert((n / 16) % 16 == n / 16);
        }
        assert(s@ =~= seq!['\\', 'x'] + hex_fixed(b as nat, 2));
        s
    }
}

} // verus!
