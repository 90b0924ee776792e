//! Thin API facade for mobile hosts: scroll helpers, timestamps and the
//! records handed to the mobile UI.

use vstd::prelude::*;
use crate::fmt::spec_last_seen_ms;
use crate::groups::{lowercase, to_lowercase};
use crate::text::{
    byte_prefix, chars_of, compare_text, is_char_boundary, lemma_text_order_antisymmetric,
    lemma_text_order_transitive, string_from_chars, take_bytes, text_order,
};

verus! {

/// The text of a `YYYY-MM-DD HH:MM:SS` timestamp from byte 11 to byte 16
/// (`HH:MM`), or the whole text when that byte range does not exist.
pub open spec fn spec_format_time_hhmm(dt: Seq<char>) -> Seq<char> {
    if is_char_boundary(dt, 11) && is_char_boundary(dt, 16) {
        byte_prefix(dt, 16).skip(byte_prefix(dt, 11).len() as int)
    } else {
        dt
    }
}

/// Format an ISO timestamp string ("YYYY-MM-DD HH:MM:SS") to "HH:MM".
pub fn format_time_hhmm(dt: &str) -> (r: String)
    ensures
        r@ == spec_format_time_hhmm(dt@),
{
    match take_bytes(dt, 16) {
        Some(upto16) => match take_bytes(dt, 11) {
            Some(upto11) => {
                let cs = chars_of(upto16.as_str());
                let start = upto11.as_str().unicode_len();
                proof {
                    lemma_prefix_len_le(dt@);
                }
                string_from_chars(&cs.as_slice()[start..cs.len()])
            },
            None => dt.to_string(),
        },
        None => dt.to_string(),
    }
}

proof fn lemma_prefix_len_le(dt: Seq<char>)
    requires
        is_char_boundary(dt, 11),
        is_char_boundary(dt, 16),
    ensures
        byte_prefix(dt, 11).len() <= byte_prefix(dt, 16).len(),
        byte_prefix(dt, 16).skip(byte_prefix(dt, 11).len() as int) == byte_prefix(dt, 16).subrange(
            byte_prefix(dt, 11).len() as int,
            byte_prefix(dt, 16).len() as int,
        ),
{
    let i = choose|i: int| 0 <= i <= dt.len() && #[trigger] crate::text::utf8_len(dt.take(i)) == 11;
    let j = choose|j: int| 0 <= j <= dt.len() && #[trigger] crate::text::utf8_len(dt.take(j)) == 16;
    if j < i {
        crate::text::lemma_utf8_len_take_monotone(dt, j, i);
    }
}

/// Check if scroll position indicates at bottom: the offset is at or past
/// the point where the end of the content becomes visible.
pub fn is_at_bottom(scroll_offset: usize, total: usize, visible: usize) -> (r: bool)
    ensures
        r == (scroll_offset >= crate::fmt::spec_auto_scroll_offset(total as int, visible as int)),
{
    scroll_offset >= total.saturating_sub(visible)
}

/// The first shown message (the offset, kept on the last message) and the
/// end of the shown range (at most `visible_count` further, at most the
/// total).
pub open spec fn spec_visible_range(total: int, offset: int, visible: int) -> (int, int) {
    let last = if total > 0 {
        total - 1
    } else {
        0
    };
    let start = if offset < last {
        offset
    } else {
        last
    };
    let end = if start + visible < total {
        start + visible
    } else {
        total
    };
    (start, end)
}

/// Calculate first visible message index accounting for scroll.
pub fn calculate_visible_range(total_messages: usize, scroll_offset: usize, visible_count: usize) -> (r:
    (usize, usize))
    ensures
        (r.0 as int, r.1 as int) == spec_visible_range(
            total_messages as int,
            scroll_offset as int,
            visible_count as int,
        ),
{
    let last = total_messages.saturating_sub(1);
    let start = if scroll_offset < last {
        scroll_offset
    } else {
        last
    };
    let reach = start.saturating_add(visible_count);
    let end = if reach < total_messages {
        reach
    } else {
        total_messages
    };
    (start, end)
}

/// Validate a nickname: alphanumeric and dash only, max 20 chars.
pub fn validate_nickname(nick: &str) -> (r: bool)
    ensures
        r == crate::nickname::spec_valid_nickname(nick@),
{
    crate::nickname::validate_nickname(nick)
}

/// One row of the peers table, as fed to `sort_peers`.
#[derive(Debug, Clone)]
pub struct PeerSortInput {
    pub peer_id: String,
    pub display_name: String,
    pub last_seen: String,
    pub dm_count: u32,
    pub broadcast_count: u32,
}

/// A known peer joined with its message counts.
#[derive(Debug, Clone)]
pub struct PeerWithStats {
    pub peer_id: String,
    pub display_name: String,
    pub first_seen: String,
    pub last_seen: String,
    pub nickname: Option<String>,
    pub local_nickname: Option<String>,
    pub dm_count: i64,
    pub broadcast_received: i64,
    pub broadcast_sent: i64,
}

/// The database and identity of this node after initialisation.
#[derive(Debug, Clone, PartialEq, Eq)]
pub struct MobileInitStatus {
    pub database_url: String,
    pub local_peer_id: String,
}

/// The database, identity and nickname of this node.
#[derive(Debug, Clone, PartialEq, Eq)]
pub struct MobilePeerStatus {
    pub database_url: String,
    pub local_peer_id: String,
    pub self_nickname: Option<String>,
}

/// Parse a `YYYY-MM-DD HH:MM:SS` (or `...T...`) timestamp into milliseconds
/// since epoch; 0 for any unparseable input.
pub fn parse_last_seen_ms(last_seen: &str) -> (r: u64)
    ensures
        r == spec_last_seen_ms(last_seen@),
{
    crate::fmt::parse_last_seen_ms(last_seen)
}

/// `-1`, `0` or `1` as `a` is below, equal to or above `b`.
pub open spec fn int_order(a: int, b: int) -> int {
    if a < b {
        -1
    } else if a > b {
        1
    } else {
        0
    }
}

/// How two rows compare on a table column: `1` by DM count, `2` by
/// broadcast count, `3` by last-seen time, anything else by the lowercase
/// display name.
pub open spec fn column_order(a: PeerSortInput, b: PeerSortInput, column: u32) -> int {
    if column == 1 {
        int_order(a.dm_count as int, b.dm_count as int)
    } else if column == 2 {
        int_order(a.broadcast_count as int, b.broadcast_count as int)
    } else if column == 3 {
        int_order(spec_last_seen_ms(a.last_seen@) as int, spec_last_seen_ms(b.last_seen@) as int)
    } else {
        text_order(lowercase(a.display_name@), lowercase(b.display_name@))
    }
}

/// How two rows compare: by the column, ties broken by peer id.
pub open spec fn peer_order(a: PeerSortInput, b: PeerSortInput, column: u32) -> int {
    let c = column_order(a, b, column);
    if c != 0 {
        c
    } else {
        text_order(a.peer_id@, b.peer_id@)
    }
}

/// Row `a` may stand before row `b`: in ascending order it compares lower or
/// equal, in descending order higher or equal.
pub open spec fn placed_before(a: PeerSortInput, b: PeerSortInput, column: u32, ascending: bool) -> bool {
    if ascending {
        peer_order(a, b, column) <= 0
    } else {
        peer_order(a, b, column) >= 0
    }
}

/// Every row may stand before every later row.
pub open spec fn peers_sorted(s: Seq<PeerSortInput>, column: u32, ascending: bool) -> bool {
    forall|i: int, j: int|
        0 <= i < j < s.len() ==> #[trigger] placed_before(s[i], s[j], column, ascending)
}

proof fn lemma_peer_order_antisymmetric(a: PeerSortInput, b: PeerSortInput, column: u32)
    ensures
        peer_order(a, b, column) == -peer_order(b, a, column),
{
    lemma_text_order_antisymmetric(a.peer_id@, b.peer_id@);
    lemma_text_order_antisymmetric(
        lowercase(a.display_name@),
        lowercase(b.display_name@),
    );
}

proof fn lemma_peer_order_transitive(a: PeerSortInput, b: PeerSortInput, c: PeerSortInput, column: u32)
    requires
        peer_order(a, b, column) <= 0,
        peer_order(b, c, column) <= 0,
    ensures
        peer_order(a, c, column) <= 0,
{
    let la = lowercase(a.display_name@);
    let lb = lowercase(b.display_name@);
    let lc = lowercase(c.display_name@);
    lemma_text_order_antisymmetric(la, lb);
    lemma_text_order_antisymmetric(lb, lc);
    lemma_text_order_antisymmetric(la, lc);
    lemma_text_order_antisymmetric(a.peer_id@, b.peer_id@);
    lemma_text_order_antisymmetric(b.peer_id@, c.peer_id@);
    lemma_text_order_antisymmetric(a.peer_id@, c.peer_id@);
    if column_order(a, b, column) <= 0 && column_order(b, c, column) <= 0 && column != 1
        && column != 2 && column != 3 {
        lemma_text_order_transitive(la, lb, lc);
    }
    if text_order(a.peer_id@, b.peer_id@) <= 0 && text_order(b.peer_id@, c.peer_id@) <= 0 {
        lemma_text_order_transitive(a.peer_id@, b.peer_id@, c.peer_id@);
    }
    if column != 1 && column != 2 && column != 3 {
        if text_order(la, lb) == 0 {
            assert(la == lb);
        }
        if text_order(lb, lc) == 0 {
            assert(lb == lc);
        }
    }
}

/// The table order is a total preorder: any two rows can stand in some
/// order, and the relation chains.
pub proof fn lemma_placed_before_preorder(
    a: PeerSortInput,
    b: PeerSortInput,
    c: PeerSortInput,
    column: u32,
    ascending: bool,
)
    ensures
        placed_before(a, b, column, ascending) || placed_before(b, a, column, ascending),
        placed_before(a, b, column, ascending) && placed_before(b, c, column, ascending)
            ==> placed_before(a, c, column, ascending),
{
    lemma_peer_order_antisymmetric(a, b, column);
    lemma_peer_order_antisymmetric(b, c, column);
    lemma_peer_order_antisymmetric(a, c, column);
    if placed_before(a, b, column, ascending) && placed_before(b, c, column, ascending) {
        if ascending {
            lemma_peer_order_transitive(a, b, c, column);
        } else {
            lemma_peer_order_transitive(c, b, a, column);
        }
    }
}

/// No two rows share a peer id.
pub open spec fn ids_distinct(s: Seq<PeerSortInput>) -> bool {
    forall|i: int, j: int|
        0 <= i < j < s.len() ==> (#[trigger] s[i]).peer_id@ != (#[trigger] s[j]).peer_id@
}

/// A row that occurs in a sequence occurs at some index.
proof fn lemma_index_of_member(s: Seq<PeerSortInput>, x: PeerSortInput) -> (k: int)
    requires
        s.to_multiset().count(x) > 0,
    ensures
        0 <= k < s.len(),
        s[k] == x,
{
    broadcast use vstd::seq_lib::group_to_multiset_ensures;

    assert(s.contains(x));
    choose|k: int| 0 <= k < s.len() && s[k] == x
}

/// Rows that occur twice in a sequence occur at two indices.
proof fn lemma_second_index(s: Seq<PeerSortInput>, x: PeerSortInput, p: int) -> (q: int)
    requires
        0 <= p < s.len(),
        s[p] == x,
        s.to_multiset().count(x) >= 2,
    ensures
        0 <= q < s.len(),
        q != p,
        s[q] == x,
{
    broadcast use vstd::seq_lib::group_to_multiset_ensures;
    broadcast use vstd::multiset::group_multiset_axioms;

    vstd::seq_lib::to_multiset_remove(s, p);
    let t = s.remove(p);
    assert(t.to_multiset().count(x) >= 1);
    let k = lemma_index_of_member(t, x);
    if k < p {
        assert(s[k] == t[k]);
        k
    } else {
        assert(s[k + 1] == t[k]);
        k + 1
    }
}

/// Two indices of one row mean the row is counted twice.
proof fn lemma_two_indices_count(s: Seq<PeerSortInput>, p: int, q: int)
    requires
        0 <= p < s.len(),
        0 <= q < s.len(),
        p != q,
        s[p] == s[q],
    ensures
        s.to_multiset().count(s[p]) >= 2,
{
    broadcast use vstd::seq_lib::group_to_multiset_ensures;
    broadcast use vstd::multiset::group_multiset_axioms;

    vstd::seq_lib::to_multiset_remove(s, p);
    let t = s.remove(p);
    if q < p {
        assert(t[q] == s[q]);
    } else {
        assert(t[q - 1] == s[q]);
    }
    assert(t.contains(s[p]));
    assert(t.to_multiset().count(s[p]) > 0);
    assert(s.contains(s[p]));
    assert(s.to_multiset().count(s[p]) > 0);
}

/// A reordering of rows with distinct ids has distinct ids.
proof fn lemma_ids_distinct_permutation(s1: Seq<PeerSortInput>, s2: Seq<PeerSortInput>)
    requires
        s1.to_multiset() == s2.to_multiset(),
        ids_distinct(s2),
    ensures
        ids_distinct(s1),
{
    broadcast use vstd::seq_lib::group_to_multiset_ensures;

    assert forall|i: int, j: int| 0 <= i < j < s1.len() implies (#[trigger] s1[i]).peer_id@
        != (#[trigger] s1[j]).peer_id@ by {
        if s1[i].peer_id@ == s1[j].peer_id@ {
            assert(s1.contains(s1[i]));
            assert(s1.contains(s1[j]));
            let p = lemma_index_of_member(s2, s1[i]);
            if s1[i] == s1[j] {
                lemma_two_indices_count(s1, i, j);
                let q = lemma_second_index(s2, s1[i], p);
                if p < q {
                    assert(s2[p].peer_id@ != s2[q].peer_id@);
                } else {
                    assert(s2[q].peer_id@ != s2[p].peer_id@);
                }
            } else {
                let q = lemma_index_of_member(s2, s1[j]);
                if p < q {
                    assert(s2[p].peer_id@ != s2[q].peer_id@);
                } else {
                    assert(s2[q].peer_id@ != s2[p].peer_id@);
                }
            }
        }
    }
}

/// Rows with distinct ids have exactly one sorted order.
proof fn lemma_sorted_unique(s1: Seq<PeerSortInput>, s2: Seq<PeerSortInput>, column: u32, ascending: bool)
    requires
        s1.to_multiset() == s2.to_multiset(),
        ids_distinct(s1),
        peers_sorted(s1, column, ascending),
        peers_sorted(s2, column, ascending),
    ensures
        s1 == s2,
    decreases s1.len(),
{
    broadcast use vstd::seq_lib::group_to_multiset_ensures;
    broadcast use vstd::multiset::group_multiset_axioms;

    vstd::seq_lib::to_multiset_len(s1);
    vstd::seq_lib::to_multiset_len(s2);
    if s1.len() == 0 {
        assert(s2.len() == 0);
        assert(s1 =~= s2);
    } else {
        assert(s2.len() == s1.len());
        let a = s1[0];
        let b = s2[0];
        assert(s2.contains(b));
        assert(s1.contains(a));
        let k = lemma_index_of_member(s1, b);
        let m = lemma_index_of_member(s2, a);
        if a != b {
            assert(k > 0 && m > 0);
            assert(placed_before(s1[0], s1[k], column, ascending));
            assert(placed_before(s2[0], s2[m], column, ascending));
            lemma_peer_order_antisymmetric(a, b, column);
            lemma_text_order_antisymmetric(a.peer_id@, b.peer_id@);
            assert(s1[0].peer_id@ != s1[k].peer_id@);
        }
        vstd::seq_lib::to_multiset_remove(s1, 0);
        vstd::seq_lib::to_multiset_remove(s2, 0);
        let t1 = s1.remove(0);
        let t2 = s2.remove(0);
        assert(t1 =~= s1.drop_first());
        assert(t2 =~= s2.drop_first());
        assert forall|i: int, j: int| 0 <= i < j < t1.len() implies (#[trigger] t1[i]).peer_id@
            != (#[trigger] t1[j]).peer_id@ by {
            assert(t1[i] == s1[i + 1] && t1[j] == s1[j + 1]);
        }
        assert forall|i: int, j: int| 0 <= i < j < t1.len() implies #[trigger] placed_before(
            t1[i],
            t1[j],
            column,
            ascending,
        ) by {
            assert(t1[i] == s1[i + 1] && t1[j] == s1[j + 1]);
        }
        assert forall|i: int, j: int| 0 <= i < j < t2.len() implies #[trigger] placed_before(
            t2[i],
            t2[j],
            column,
            ascending,
        ) by {
            assert(t2[i] == s2[i + 1] && t2[j] == s2[j + 1]);
        }
        lemma_sorted_unique(t1, t2, column, ascending);
        assert(s1 =~= s2) by {
            assert forall|i: int| 0 <= i < s1.len() implies s1[i] == s2[i] by {
                if i > 0 {
                    assert(s1[i] == t1[i - 1] && s2[i] == t2[i - 1]);
                }
            }
        }
    }
}

/// Rows with distinct peer ids sort descending into exactly the reverse of
/// their ascending order: any result of the descending sort is the reverse
/// of any result of the ascending sort.
pub proof fn lemma_descending_reverses_ascending(
    peers: Seq<PeerSortInput>,
    up: Seq<PeerSortInput>,
    down: Seq<PeerSortInput>,
    column: u32,
)
    requires
        ids_distinct(peers),
        up.to_multiset() == peers.to_multiset(),
        peers_sorted(up, column, true),
        down.to_multiset() == peers.to_multiset(),
        peers_sorted(down, column, false),
    ensures
        down == up.reverse(),
{
    let rev = up.reverse();
    up.lemma_reverse_to_multiset();
    let n = up.len() as int;
    assert forall|i: int, j: int| 0 <= i < j < rev.len() implies #[trigger] placed_before(
        rev[i],
        rev[j],
        column,
        false,
    ) by {
        assert(rev[i] == up[n - 1 - i] && rev[j] == up[n - 1 - j]);
        assert(placed_before(up[n - 1 - j], up[n - 1 - i], column, true));
        lemma_peer_order_antisymmetric(rev[i], rev[j], column);
    }
    lemma_ids_distinct_permutation(down, peers);
    lemma_sorted_unique(down, rev, column, false);
}

fn order_of_ints(a: u64, b: u64) -> (r: i8)
    ensures
        r as int == int_order(a as int, b as int),
{
    if a < b {
        -1
    } else if a > b {
        1
    } else {
        0
    }
}

/// Compare two rows (see [`peer_order`]).
fn compare_peers(a: &PeerSortInput, b: &PeerSortInput, column: u32) -> (r: i8)
    ensures
        r as int == peer_order(*a, *b, column),
{
    let c = if column == 1 {
        order_of_ints(a.dm_count as u64, b.dm_count as u64)
    } else if column == 2 {
        order_of_ints(a.broadcast_count as u64, b.broadcast_count as u64)
    } else if column == 3 {
        order_of_ints(
            crate::fmt::parse_last_seen_ms(a.last_seen.as_str()),
            crate::fmt::parse_last_seen_ms(b.last_seen.as_str()),
        )
    } else {
        let an = to_lowercase(a.display_name.as_str());
        let bn = to_lowercase(b.display_name.as_str());
        compare_text(an.as_str(), bn.as_str())
    };
    if c != 0 {
        c
    } else {
        compare_text(a.peer_id.as_str(), b.peer_id.as_str())
    }
}

fn stands_before(a: &PeerSortInput, b: &PeerSortInput, column: u32, ascending: bool) -> (r: bool)
    ensures
        r == placed_before(*a, *b, column, ascending),
{
    let c = compare_peers(a, b, column);
    if ascending {
        c <= 0
    } else {
        c >= 0
    }
}

/// Sort peers by the given column and order, as the peers table does:
/// column `0` name (case-insensitive), `1` DM count, `2` broadcast count,
/// `3` last seen; any other value sorts by name. Ties go by peer id.
pub fn sort_peers(peers: Vec<PeerSortInput>, sort_column: u32, ascending: bool) -> (r: Vec<
    PeerSortInput,
>)
    ensures
        r@.to_multiset() == peers@.to_multiset(),
        peers_sorted(r@, sort_column, ascending),
{
    broadcast use vstd::seq_lib::group_to_multiset_ensures;
    broadcast use vstd::multiset::group_multiset_axioms;

    let ghost all = peers@;
    let mut peers = peers;
    let mut pending: Vec<PeerSortInput> = Vec::new();
    while peers.len() > 0
        invariant
            peers@.to_multiset().add(pending@.to_multiset()) == all.to_multiset(),
        decreases peers.len(),
    {
        let ghost before = peers@;
        let ghost pend0 = pending@;
        let x = peers.pop().unwrap();
        assert(before == peers@.push(x));
        proof {
            vstd::seq_lib::to_multiset_build(peers@, x);
        }
        pending.push(x);
        proof {
            vstd::seq_lib::to_multiset_build(pend0, x);
            assert(pending@ == pend0.push(x));
        }
        assert(peers@.to_multiset().add(pending@.to_multiset()) =~= all.to_multiset());
    }
    assert(peers@ =~= Seq::<PeerSortInput>::empty());
    let mut out: Vec<PeerSortInput> = Vec::new();
    while pending.len() > 0
        invariant
            out@.to_multiset().add(pending@.to_multiset()) == all.to_multiset(),
            peers_sorted(out@, sort_column, ascending),
        decreases pending.len(),
    {
        let ghost before = pending@;
        let x = pending.pop().unwrap();
        assert(before == pending@.push(x));
        proof {
            vstd::seq_lib::to_multiset_build(pending@, x);
        }
        let mut p: usize = out.len();
        while p > 0 && !stands_before(&out[p - 1], &x, sort_column, ascending)
            invariant
                p <= out@.len(),
                forall|k: int|
                    p <= k < out@.len() ==> !placed_before(
                        #[trigger] out@[k],
                        x,
                        sort_column,
                        ascending,
                    ),
            decreases p,
        {
            p -= 1;
        }
        let ghost o = out@;
        proof {
            assert forall|k: int| p <= k < o.len() implies placed_before(
                x,
                #[trigger] o[k],
                sort_column,
                ascending,
            ) by {
                lemma_placed_before_preorder(x, o[k], x, sort_column, ascending);
            }
            if p > 0 {
                assert forall|k: int| 0 <= k < p implies placed_before(
                    #[trigger] o[k],
                    x,
                    sort_column,
                    ascending,
                ) by {
                    if k < p - 1 {
                        assert(placed_before(o[k], o[p - 1], sort_column, ascending));
                        lemma_placed_before_preorder(o[k], o[p - 1], x, sort_column, ascending);
                    }
                }
            }
        }
        out.insert(p, x);
        proof {
            let n = out@;
            assert(n == o.insert(p as int, x));
            assert forall|i: int, j: int| 0 <= i < j < n.len() implies #[trigger] placed_before(
                n[i],
                n[j],
                sort_column,
                ascending,
) by {
                let oi = if i < p { i } else { i - 1 };
                let oj = if j < p { j } else { j - 1 };
                if i == p {
                    assert(n[i] == x);
                    assert(n[j] == o[oj]);
                } else if j == p {
                    assert(n[j] == x);
                    assert(n[i] == o[oi]);
                } else {
                    assert(n[i] == o[oi]);
                    assert(n[j] == o[oj]);
                    assert(oi < oj);
                    assert(placed_before(o[oi], o[oj], sort_column, ascending));
                }
            }
            vstd::seq_lib::to_multiset_insert(o, p as int, x);
            assert(out@.to_multiset().add(pending@.to_multiset()) =~= all.to_multiset());
        }
    }
    assert(pending@ =~= Seq::<PeerSortInput>::empty());
    assert(out@.to_multiset() =~= all.to_multiset());
    out
}

/// Message counts of one peer.
#[derive(Debug, Clone, Copy, PartialEq, Eq)]
pub struct PeerStats {
    /// Direct messages exchanged with the peer.
    pub dm_count: i64,
    /// Broadcasts received from the peer.
    pub broadcast_received: i64,
    /// Broadcasts sent while the peer was online.
    pub broadcast_sent: i64,
}

/// `row` is the known peer `p` joined with its counts `s`.
pub open spec fn joins(row: PeerWithStats, p: crate::mobile_node::MobilePeerRecord, s: PeerStats) -> bool {
    &&& row.peer_id == p.peer_id
    &&& row.display_name == p.display_name
    &&& row.first_seen == p.first_seen
    &&& row.last_seen == p.last_seen
    &&& row.nickname == p.nickname
    &&& row.local_nickname == p.local_nickname
    &&& row.dm_count == s.dm_count
    &&& row.broadcast_received == s.broadcast_received
    &&& row.broadcast_sent == s.broadcast_sent
}

/// Join each known peer with its message counts, in order.
pub fn get_peers_with_stats(peers: Vec<(crate::mobile_node::MobilePeerRecord, PeerStats)>) -> (r: Vec<
    PeerWithStats,
>)
    ensures
        r@.len() == peers@.len(),
        forall|i: int| 0 <= i < r@.len() ==> joins(#[trigger] r@[i], peers@[i].0, peers@[i].1),
{
    let ghost all = peers@;
    let mut peers = peers;
    let mut reversed: Vec<PeerWithStats> = Vec::new();
    while peers.len() > 0
        invariant
            peers@ == all.take(peers@.len() as int),
            peers@.len() <= all.len(),
            reversed@.len() + peers@.len() == all.len(),
            forall|i: int|
                0 <= i < reversed@.len() ==> joins(
                    #[trigger] reversed@[i],
                    all[all.len() - 1 - i].0,
                    all[all.len() - 1 - i].1,
                ),
        decreases peers.len(),
    {
        let (p, s) = peers.pop().unwrap();
        reversed.push(
            PeerWithStats {
                peer_id: p.peer_id,
                display_name: p.display_name,
                first_seen: p.first_seen,
                last_seen: p.last_seen,
                nickname: p.nickname,
                local_nickname: p.local_nickname,
                dm_count: s.dm_count,
                broadcast_received: s.broadcast_received,
                broadcast_sent: s.broadcast_sent,
            },
        );
        assert(peers@ =~= all.take(peers@.len() as int));
    }
    let ghost rev = reversed@;
    let mut out: Vec<PeerWithStats> = Vec::new();
    while reversed.len() > 0
        invariant
            reversed@ == rev.take(reversed@.len() as int),
            reversed@.len() <= rev.len(),
            rev.len() == all.len(),
            out@.len() + reversed@.len() == all.len(),
            forall|i: int|
                0 <= i < rev.len() ==> joins(
                    #[trigger] rev[i],
                    all[all.len() - 1 - i].0,
                    all[all.len() - 1 - i].1,
                ),
            forall|i: int| 0 <= i < out@.len() ==> #[trigger] out@[i] == rev[rev.len() - 1 - i],
        decreases reversed.len(),
    {
        let row = reversed.pop().unwrap();
        out.push(row);
        assert(reversed@ =~= rev.take(reversed@.len() as int));
    }
    assert forall|i: int| 0 <= i < out@.len() implies joins(#[trigger] out@[i], all[i].0, all[i].1) by {
        assert(out@[i] == rev[rev.len() - 1 - i]);
    }
    out
}

} // verus!
