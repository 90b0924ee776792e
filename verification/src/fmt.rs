//! Formatting of peer identities, scroll positions and message ids.

use vstd::prelude::*;
use crate::map::StrMap;
use crate::text::{chars_of, decimal, decimal_string, hex, hex_digit_char, hex_string, push_char, string_from_chars};
use vstd::string::StringExecFns;

verus! {

/// The last eight characters of a peer id (all of it when shorter).
pub open spec fn spec_short_peer_id(id: Seq<char>) -> Seq<char> {
    if id.len() <= 8 {
        id
    } else {
        id.subrange(id.len() - 8, id.len() as int)
    }
}

/// Get the last 8 characters of a peer ID string.
pub fn short_peer_id(id: &str) -> (r: String)
    ensures
        r@ == spec_short_peer_id(id@),
{
    let cs = chars_of(id);
    if cs.len() <= 8 {
        string_from_chars(cs.as_slice())
    } else {
        let start = cs.len() - 8;
        let r = string_from_chars(&cs.as_slice()[start..cs.len()]);
        assert(cs@.subrange(start as int, cs@.len() as int) =~= id@.subrange(
            id@.len() - 8,
            id@.len() as int,
        ));
        r
    }
}

/// The name shown for a peer: the local nickname if set, else the nickname
/// the peer announced, else its short id.
pub open spec fn spec_display_name(
    peer_id: Seq<char>,
    local: Map<Seq<char>, String>,
    received: Map<Seq<char>, String>,
) -> Seq<char> {
    if local.contains_key(peer_id) {
        local[peer_id]@
    } else if received.contains_key(peer_id) {
        received[peer_id]@
    } else {
        spec_short_peer_id(peer_id)
    }
}

/// Get display name for a peer - uses local nickname if set, else received
/// nickname, else short ID.
pub fn peer_display_name(
    peer_id: &str,
    local_nicknames: &StrMap<String>,
    received_nicknames: &StrMap<String>,
) -> (r: String)
    ensures
        r@ == spec_display_name(peer_id@, local_nicknames.view(), received_nicknames.view()),
{
    match local_nicknames.get(peer_id) {
        Some(n) => n.clone(),
        None => match received_nicknames.get(peer_id) {
            Some(n) => n.clone(),
            None => short_peer_id(peer_id),
        },
    }
}

/// The first line offset to show so that the last `visible` of `total`
/// lines are on screen.
pub open spec fn spec_auto_scroll_offset(total: int, visible: int) -> int {
    if total > visible {
        total - visible
    } else {
        0
    }
}

/// Calculate the offset for auto-scrolling text display.
pub fn auto_scroll_offset(total: usize, visible: usize) -> (r: usize)
    ensures
        r == spec_auto_scroll_offset(total as int, visible as int),
{
    total.saturating_sub(visible)
}

/// `Prefix (offset/total)`, with the offset capped at the total.
pub open spec fn spec_scroll_title(prefix: Seq<char>, scroll_offset: nat, total: nat) -> Seq<char> {
    let shown = if scroll_offset < total {
        scroll_offset
    } else {
        total
    };
    prefix + seq![' ', '('] + decimal(shown) + seq!['/'] + decimal(total) + seq![')']
}

/// Generate a title for scrollable content showing current scroll position,
/// formatted as `Prefix (offset/total)`.
pub fn scroll_title(prefix: &str, scroll_offset: usize, total: usize) -> (r: String)
    ensures
        r@ == spec_scroll_title(prefix@, scroll_offset as nat, total as nat),
{
    let shown = if scroll_offset < total {
        scroll_offset
    } else {
        total
    };
    let mut r = String::from_str(prefix);
    r.append(" (");
    r.append(decimal_string(shown as u64).as_str());
    push_char(&mut r, '/');
    r.append(decimal_string(total as u64).as_str());
    push_char(&mut r, ')');
    proof {
        reveal_strlit(" (");
    }
    assert(r@ =~= spec_scroll_title(prefix@, scroll_offset as nat, total as nat));
    r
}

/// The message id built from a clock reading and a sequence number:
/// both in lowercase hexadecimal, one after the other.
pub open spec fn spec_msg_id(now_ns: nat, counter: nat) -> Seq<char> {
    hex(now_ns) + hex(counter)
}

/// Builds a message id from a clock reading (nanoseconds since the Unix
/// epoch) and a sequence number.
pub fn format_msg_id(now_ns: u128, counter: u64) -> (r: String)
    ensures
        r@ == spec_msg_id(now_ns as nat, counter as nat),
{
    let mut r = hex_string(now_ns);
    r.append(hex_string(counter as u128).as_str());
    r
}

#[verifier::external_type_specification]
#[verifier::external_body]
pub struct ExSystemTime(std::time::SystemTime);

/// Calls `std::time::SystemTime::now`; nothing is stated of the reading,
/// which is the clock's.
#[verifier::external_body]
fn system_now() -> std::time::SystemTime {
    std::time::SystemTime::now()
}

/// Calls `SystemTime::duration_since(UNIX_EPOCH)`: the time since the epoch,
/// `None` when the reading is earlier. Nothing is stated of the span, which
/// Verus does not see into.
#[verifier::external_body]
fn since_epoch(t: &std::time::SystemTime) -> Option<std::time::Duration> {
    t.duration_since(std::time::UNIX_EPOCH).ok()
}

/// Calls `Duration::as_nanos`; the duration is opaque to Verus, so nothing
/// is stated of the count.
#[verifier::external_body]
fn duration_nanos(d: &std::time::Duration) -> u128 {
    d.as_nanos()
}

/// Nanoseconds since the Unix epoch according to the system clock (zero
/// if the clock reads earlier than the epoch).
fn unix_time_nanos() -> u128 {
    let now = system_now();
    match since_epoch(&now) {
        Some(d) => duration_nanos(&d),
        None => 0,
    }
}

/// Source of message ids: the clock reading paired with a sequence number
/// that grows by one (wrapping) per id.
#[derive(Debug, Clone, Copy)]
pub struct MsgIdCounter {
    pub next: u64,
}

impl MsgIdCounter {
    pub fn new() -> (c: Self)
        ensures
            c.next == 0,
    {
        MsgIdCounter { next: 0 }
    }
}

/// Generate a best-effort unique message ID for receipt tracking: the
/// current time in nanoseconds and the counter, in hexadecimal.
pub fn gen_msg_id(counter: &mut MsgIdCounter) -> (r: String)
    ensures
        exists|t: u128| r@ == #[trigger] spec_msg_id(t as nat, old(counter).next as nat),
        final(counter).next == (if old(counter).next == u64::MAX {
            0
        } else {
            old(counter).next + 1
        }),
{
    let now = unix_time_nanos();
    let c = counter.next;
    counter.next = c.wrapping_add(1);
    let r = format_msg_id(now, c);
    assert(r@ == spec_msg_id(now as nat, c as nat));
    r
}

proof fn lemma_hex_len(n: nat)
    ensures
        hex(n).len() >= 1,
        n >= 16 ==> hex(n).len() >= 2,
    decreases n,
{
    if n >= 16 {
        lemma_hex_len(n / 16);
    }
}

proof fn lemma_hex_digit_injective(a: nat, b: nat)
    requires
        a < 16,
        b < 16,
        hex_digit_char(a) == hex_digit_char(b),
    ensures
        a == b,
{
}

/// Different numbers have different hexadecimal forms.
proof fn lemma_hex_injective(a: nat, b: nat)
    requires
        hex(a) == hex(b),
    ensures
        a == b,
    decreases a,
{
    lemma_hex_len(a);
    lemma_hex_len(b);
    if a < 16 && b < 16 {
        assert(hex(a)[0] == hex_digit_char(a));
        assert(hex(b)[0] == hex_digit_char(b));
        lemma_hex_digit_injective(a, b);
    } else if a >= 16 && b >= 16 {
        assert(hex(a).drop_last() =~= hex(a / 16));
        assert(hex(b).drop_last() =~= hex(b / 16));
        lemma_hex_injective(a / 16, b / 16);
        assert(hex(a).last() == hex_digit_char(a % 16));
        assert(hex(b).last() == hex_digit_char(b % 16));
        lemma_hex_digit_injective(a % 16, b % 16);
    }
}

proof fn lemma_ids_differ_same_width(t1: nat, c1: nat, t2: nat, c2: nat)
    requires
        hex(t1).len() == hex(t2).len(),
        c1 != c2,
    ensures
        spec_msg_id(t1, c1) != spec_msg_id(t2, c2),
{
    if spec_msg_id(t1, c1) == spec_msg_id(t2, c2) {
        let n = hex(t1).len() as int;
        assert(spec_msg_id(t1, c1).skip(n) =~= hex(c1));
        assert(spec_msg_id(t2, c2).skip(n) =~= hex(c2));
        lemma_hex_injective(c1, c2);
    }
}

/// `16` to the power `k`.
pub open spec fn pow16(k: nat) -> nat
    decreases k,
{
    if k == 0 {
        1
    } else {
        16 * pow16((k - 1) as nat)
    }
}

proof fn lemma_hex_len_range(n: nat, k: nat)
    requires
        pow16(k) <= n < pow16(k + 1),
    ensures
        hex(n).len() == k + 1,
    decreases k,
{
    if k > 0 {
        let p = pow16((k - 1) as nat);
        assert(pow16(k) == 16 * p);
        assert(pow16(k + 1) == 16 * pow16(k));
        assert(p <= n / 16 < 16 * p) by (nonlinear_arith)
            requires
                16 * p <= n < 16 * (16 * p),
        ;
        lemma_hex_len_range(n / 16, (k - 1) as nat);
    } else {
        assert(pow16(1) == 16);
    }
}

/// Every character of a hexadecimal form is a lowercase hex digit.
pub open spec fn all_hex_digits(s: Seq<char>) -> bool {
    forall|i: int| 0 <= i < s.len() ==> ('0' <= #[trigger] s[i] <= '9' || 'a' <= s[i] <= 'f')
}

proof fn lemma_hex_digits(n: nat)
    ensures
        hex(n).len() > 0,
        all_hex_digits(hex(n)),
    decreases n,
{
    if n >= 16 {
        lemma_hex_digits(n / 16);
        let h = hex(n);
        assert forall|i: int| 0 <= i < h.len() implies ('0' <= #[trigger] h[i] <= '9' || 'a' <= h[i]
            <= 'f') by {
            if i < h.len() - 1 {
                assert(h[i] == hex(n / 16)[i]);
            }
        }
    }
}

/// Message ids are never empty, are lowercase hex, and differ across calls:
/// two ids made from different counter values differ whenever both clock
/// readings lie in [2^60, 2^64) ns (from 2006 to 2554), where every reading
/// takes sixteen hex digits. Successive calls of [`gen_msg_id`] use
/// successive counter values (wrapping only after 2^64 calls).
pub proof fn lemma_msg_ids_differ(t1: nat, c1: nat, t2: nat, c2: nat)
    requires
        pow16(15) <= t1 < pow16(16),
        pow16(15) <= t2 < pow16(16),
        c1 != c2,
    ensures
        spec_msg_id(t1, c1) != spec_msg_id(t2, c2),
        spec_msg_id(t1, c1).len() > 0,
        all_hex_digits(spec_msg_id(t1, c1)),
{
    lemma_hex_len_range(t1, 15);
    lemma_hex_len_range(t2, 15);
    lemma_ids_differ_same_width(t1, c1, t2, c2);
    lemma_hex_digits(t1);
    lemma_hex_digits(c1);
    let a = hex(t1);
    let b = hex(c1);
    assert forall|i: int| 0 <= i < (a + b).len() implies ('0' <= #[trigger] (a + b)[i] <= '9' || 'a'
        <= (a + b)[i] <= 'f') by {
        if i < a.len() {
            assert((a + b)[i] == a[i]);
        } else {
            assert((a + b)[i] == b[i - a.len()]);
        }
    }
}

/// The milliseconds since the Unix epoch of a date-time text read with a
/// chrono format string, taken as UTC, when chrono's
/// `NaiveDateTime::parse_from_str` accepts the text; a function of the text
/// and the format alone.
pub uninterp spec fn utc_millis(text: Seq<char>, format: Seq<char>) -> Option<i64>;

/// Calls `chrono::NaiveDateTime::parse_from_str`, then reads the result as
/// UTC milliseconds (`and_utc().timestamp_millis()`); the contract names the
/// outcome `utc_millis` of the text and the format.
#[verifier::external_body]
fn parse_utc_millis(text: &str, format: &str) -> (r: Option<i64>)
    ensures
        r == utc_millis(text@, format@),
{
    match chrono::NaiveDateTime::parse_from_str(text, format) {
        Ok(dt) => Some(dt.and_utc().timestamp_millis()),
        Err(_) => None,
    }
}

/// The two accepted shapes of a last-seen time.
pub open spec fn space_format() -> Seq<char> {
    "%Y-%m-%d %H:%M:%S"@
}

/// The ISO shape of a last-seen time, with `T` between date and time.
pub open spec fn iso_format() -> Seq<char> {
    "%Y-%m-%dT%H:%M:%S"@
}

/// Milliseconds since the epoch of a last-seen time in either shape (the
/// first that reads), `0` when neither reads or the time is not after the
/// epoch.
pub open spec fn spec_last_seen_ms(text: Seq<char>) -> u64 {
    let parsed = match utc_millis(text, space_format()) {
        Some(ms) => Some(ms),
        None => utc_millis(text, iso_format()),
    };
    match parsed {
        Some(ms) => if ms > 0 {
            ms as u64
        } else {
            0
        },
        None => 0,
    }
}

/// Parse a `YYYY-MM-DD HH:MM:SS` (or `...T...`) timestamp into milliseconds
/// since epoch; 0 for any unparseable input.
pub fn parse_last_seen_ms(last_seen: &str) -> (r: u64)
    ensures
        r == spec_last_seen_ms(last_seen@),
{
    let parsed = match parse_utc_millis(last_seen, "%Y-%m-%d %H:%M:%S") {
        Some(ms) => Some(ms),
        None => parse_utc_millis(last_seen, "%Y-%m-%dT%H:%M:%S"),
    };
    match parsed {
        Some(ms) => if ms > 0 {
            ms as u64
        } else {
            0
        },
        None => 0,
    }
}

} // verus!
