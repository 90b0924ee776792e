//! Tabs of the terminal chat view.

use vstd::prelude::*;

verus! {

/// The fixed tabs of the chat view.
#[derive(Debug, Clone, Copy, PartialEq, Eq, Structural)]
pub enum Tab {
    Chat,
    Peers,
    Direct,
    Log,
}

/// Position of a tab in the tab bar.
pub open spec fn tab_position(t: Tab) -> nat {
    match t {
        Tab::Chat => 0,
        Tab::Peers => 1,
        Tab::Direct => 2,
        Tab::Log => 3,
    }
}

/// The tab at a position; positions past the end fall back to the chat tab.
pub open spec fn tab_at(idx: int) -> Tab {
    if idx == 1 {
        Tab::Peers
    } else if idx == 2 {
        Tab::Direct
    } else if idx == 3 {
        Tab::Log
    } else {
        Tab::Chat
    }
}

/// Number of fixed tabs.
pub open spec fn spec_total_tabs() -> nat {
    4
}

impl Tab {
    pub fn index(&self) -> (r: usize)
        ensures
            r == tab_position(*self),
    {
        match self {
            Tab::Chat => 0,
            Tab::Peers => 1,
            Tab::Direct => 2,
            Tab::Log => 3,
        }
    }

    pub fn from_index(idx: usize) -> (t: Self)
        ensures
            t == tab_at(idx as int),
    {
        match idx {
            0 => Tab::Chat,
            1 => Tab::Peers,
            2 => Tab::Direct,
            3 => Tab::Log,
            _ => Tab::Chat,
        }
    }

    pub fn total_tabs(&self) -> (n: usize)
        ensures
            n == spec_total_tabs(),
    {
        4
    }
}

/// Every tab's position is below the tab count, and reading the tab back
/// from its position gives the same tab.
pub proof fn lemma_tab_index_round_trip(t: Tab)
    ensures
        tab_position(t) < spec_total_tabs(),
        tab_at(tab_position(t) as int) == t,
{
}

/// Content shown in a tab of the dynamic tab bar.
#[derive(Debug, Clone, PartialEq, Eq)]
pub enum TabContent {
    Chat,
    Peers,
    Direct(String),
    Log,
}

impl TabContent {
    /// The peer of a direct-message tab.
    pub fn peer_id(&self) -> (r: Option<&str>)
        ensures
            match *self {
                TabContent::Direct(id) => r.is_some() && r.unwrap()@ == id@,
                _ => r.is_none(),
            },
    {
        match self {
            TabContent::Direct(id) => Some(id.as_str()),
            _ => None,
        }
    }

    /// Whether the tab accepts typed input (chat and direct messages).
    pub fn is_input_enabled(&self) -> (r: bool)
        ensures
            r == (*self is Chat || *self is Direct),
    {
        match self {
            TabContent::Chat => true,
            TabContent::Direct(_) => true,
            _ => false,
        }
    }
}

} // verus!
