//! Peer names as the terminal views show them.

use vstd::prelude::*;
use crate::fmt::spec_short_peer_id;
use crate::map::StrMap;
use crate::mobile_node::{min_nat, peer_suffix, peer_suffix_ok};
use crate::text::{take_bytes, utf8_len};
use vstd::string::StringExecFns;

verus! {

/// The last eight characters of a peer id (all of it when shorter).
pub fn short_peer_id(id: &str) -> (r: String)
    ensures
        r@ == spec_short_peer_id(id@),
{
    crate::fmt::short_peer_id(id)
}

/// How a peer is named: its local nickname, else the nickname it announced,
/// each followed by the first three bytes of its short id in parentheses;
/// else its short id.
pub open spec fn spec_render_name(
    peer_id: Seq<char>,
    local: Map<Seq<char>, String>,
    received: Map<Seq<char>, String>,
) -> Seq<char> {
    if local.contains_key(peer_id) {
        local[peer_id]@ + " ("@ + peer_suffix(peer_id) + ")"@
    } else if received.contains_key(peer_id) {
        received[peer_id]@ + " ("@ + peer_suffix(peer_id) + ")"@
    } else {
        spec_short_peer_id(peer_id)
    }
}

fn with_suffix(nick: &String, peer_id: &str) -> (r: String)
    requires
        peer_suffix_ok(peer_id@),
    ensures
        r@ == nick@ + " ("@ + peer_suffix(peer_id@) + ")"@,
{
    let short = short_peer_id(peer_id);
    let blen = short.as_str().as_bytes().len();
    let n = if blen < 3 {
        blen
    } else {
        3
    };
    assert(n == min_nat(3, utf8_len(short@)));
    let suffix = match take_bytes(short.as_str(), n) {
        Some(s) => s,
        None => String::new(),
    };
    let mut s = nick.clone();
    s.append(" (");
    s.append(suffix.as_str());
    s.append(")");
    s
}

/// Name a peer for display (see [`spec_render_name`]).
pub fn peer_display_name(
    peer_id: &str,
    local_nicknames: &StrMap<String>,
    received_nicknames: &StrMap<String>,
) -> (r: String)
    requires
        peer_suffix_ok(peer_id@),
    ensures
        r@ == spec_render_name(peer_id@, local_nicknames@, received_nicknames@),
{
    match local_nicknames.get(peer_id) {
        Some(n) => with_suffix(n, peer_id),
        None => match received_nicknames.get(peer_id) {
            Some(n) => with_suffix(n, peer_id),
            None => short_peer_id(peer_id),
        },
    }
}

} // verus!
