//! Text of the peer list lines, tab titles and receipt marks, and the
//! mapping from a clicked screen row to a message.

use vstd::prelude::*;
use crate::map::StrMap;
use crate::text::push_char;
use vstd::string::StringExecFns;

verus! {

/// Total number of screen lines of a sequence of messages.
pub open spec fn line_sum(counts: Seq<usize>) -> int
    decreases counts.len(),
{
    if counts.len() == 0 {
        0
    } else {
        line_sum(counts.drop_last()) + counts.last()
    }
}

proof fn lemma_line_sum_step(counts: Seq<usize>, i: int)
    requires
        0 <= i < counts.len(),
    ensures
        line_sum(counts.take(i + 1)) == line_sum(counts.take(i)) + counts[i],
{
    assert(counts.take(i + 1).drop_last() =~= counts.take(i));
}

proof fn lemma_line_sum_monotone(counts: Seq<usize>, i: int, j: int)
    requires
        0 <= i <= j <= counts.len(),
    ensures
        line_sum(counts.take(i)) <= line_sum(counts.take(j)),
    decreases j - i,
{
    if i < j {
        lemma_line_sum_step(counts, j - 1);
        lemma_line_sum_monotone(counts, i, j - 1);
    }
}

/// Maps a clicked screen row to the message shown there, given how many
/// lines each visible message takes and the row where the first one starts.
pub fn row_to_visible_index(line_counts: &[usize], first_content_row: usize, click_row: usize) -> (r:
    Option<usize>)
    ensures
        match r {
            Some(i) => {
                &&& i < line_counts@.len()
                &&& first_content_row + line_sum(line_counts@.take(i as int)) <= click_row
                &&& click_row < first_content_row + line_sum(line_counts@.take(i + 1))
            },
            None => click_row < first_content_row || click_row >= first_content_row + line_sum(
                line_counts@,
            ),
        },
{
    if click_row < first_content_row {
        return None;
    }
    let mut current_row = first_content_row;
    let mut idx: usize = 0;
    assert(line_counts@.take(0) =~= Seq::<usize>::empty());
    while idx < line_counts.len()
        invariant
            idx <= line_counts@.len(),
            current_row == first_content_row + line_sum(line_counts@.take(idx as int)),
            current_row <= click_row,
        decreases line_counts.len() - idx,
    {
        let line_count = line_counts[idx];
        proof {
            lemma_line_sum_step(line_counts@, idx as int);
        }
        if click_row - current_row < line_count {
            return Some(idx);
        }
        current_row = current_row + line_count;
        idx += 1;
    }
    assert(line_counts@.take(line_counts@.len() as int) =~= line_counts@);
    None
}

/// How many peers use a nickname (zero when absent).
pub open spec fn spec_count(counts: Map<Seq<char>, usize>, nick: Seq<char>) -> nat {
    if counts.contains_key(nick) {
        counts[nick] as nat
    } else {
        0
    }
}

/// `nickname peer last_seen` when the nickname belongs to exactly one peer,
/// else `peer last_seen`.
pub open spec fn spec_peer_line(
    peer_id: Seq<char>,
    last_seen: Seq<char>,
    nickname: Option<Seq<char>>,
    counts: Map<Seq<char>, usize>,
) -> Seq<char> {
    match nickname {
        Some(n) if spec_count(counts, n) == 1 => n + seq![' '] + peer_id + seq![' '] + last_seen,
        _ => peer_id + seq![' '] + last_seen,
    }
}

/// The view of an optional string.
pub open spec fn opt_view(o: Option<&str>) -> Option<Seq<char>> {
    match o {
        Some(s) => Some(s@),
        None => None,
    }
}

/// One line of the peer list.
pub fn format_peer_line(
    peer_id: &str,
    last_seen: &str,
    nickname: Option<&str>,
    nickname_counts: &StrMap<usize>,
) -> (r: String)
    ensures
        r@ == spec_peer_line(peer_id@, last_seen@, opt_view(nickname), nickname_counts.view()),
{
    let mut r = String::new();
    match nickname {
        Some(n) => {
            let unique = match nickname_counts.get(n) {
                Some(c) => *c == 1,
                None => false,
            };
            if unique {
                r.append(n);
                push_char(&mut r, ' ');
            }
        },
        None => {},
    }
    r.append(peer_id);
    push_char(&mut r, ' ');
    r.append(last_seen);
    assert(r@ =~= spec_peer_line(peer_id@, last_seen@, opt_view(nickname), nickname_counts.view()));
    r
}

/// `nickname ` when a nickname is known, else nothing.
pub open spec fn nick_part(nickname: Option<Seq<char>>) -> Seq<char> {
    match nickname {
        Some(n) => n + seq![' '],
        None => Seq::empty(),
    }
}

/// `Broadcast from [nickname ]short_id`.
pub open spec fn spec_broadcast_title(nickname: Option<Seq<char>>, short_id: Seq<char>) -> Seq<char> {
    seq!['B', 'r', 'o', 'a', 'd', 'c', 'a', 's', 't', ' ', 'f', 'r', 'o', 'm', ' '] + nick_part(
        nickname,
    ) + short_id
}

fn append_nick_part(r: &mut String, nickname: Option<&str>)
    ensures
        final(r)@ == old(r)@ + nick_part(opt_view(nickname)),
{
    match nickname {
        Some(n) => {
            r.append(n);
            push_char(r, ' ');
        },
        None => {},
    }
    assert(final(r)@ =~= old(r)@ + nick_part(opt_view(nickname)));
}

/// Title of the broadcast pane for a sender.
pub fn format_broadcast_title(nickname: Option<&str>, short_id: &str) -> (r: String)
    ensures
        r@ == spec_broadcast_title(opt_view(nickname), short_id@),
{
    let mut r = String::from_str("Broadcast from ");
    proof {
        reveal_strlit("Broadcast from ");
    }
    append_nick_part(&mut r, nickname);
    r.append(short_id);
    assert(r@ =~= spec_broadcast_title(opt_view(nickname), short_id@));
    r
}

/// `DM: [nickname ]short_id | seen: last_seen[ (first: first_seen)]`, with
/// `?` for an unknown last-seen time.
pub open spec fn spec_dm_title(
    nickname: Option<Seq<char>>,
    short_id: Seq<char>,
    last_seen: Option<Seq<char>>,
    first_seen: Option<Seq<char>>,
) -> Seq<char> {
    seq!['D', 'M', ':', ' '] + nick_part(nickname) + short_id + seq![
        ' ',
        '|',
        ' ',
        's',
        'e',
        'e',
        'n',
        ':',
        ' ',
    ] + match last_seen {
        Some(l) => l,
        None => seq!['?'],
    } + match first_seen {
        Some(f) => seq![' ', '(', 'f', 'i', 'r', 's', 't', ':', ' '] + f + seq![')'],
        None => Seq::empty(),
    }
}

/// Title of a direct-message pane.
pub fn format_dm_title(
    nickname: Option<&str>,
    short_id: &str,
    last_seen: Option<&str>,
    first_seen: Option<&str>,
) -> (r: String)
    ensures
        r@ == spec_dm_title(opt_view(nickname), short_id@, opt_view(last_seen), opt_view(first_seen)),
{
    let mut r = String::from_str("DM: ");
    proof {
        reveal_strlit("DM: ");
        reveal_strlit(" | seen: ");
        reveal_strlit(" (first: ");
    }
    append_nick_part(&mut r, nickname);
    r.append(short_id);
    r.append(" | seen: ");
    match last_seen {
        Some(l) => r.append(l),
        None => push_char(&mut r, '?'),
    }
    match first_seen {
        Some(f) => {
            r.append(" (first: ");
            r.append(f);
            push_char(&mut r, ')');
        },
        None => {},
    }
    assert(r@ =~= spec_dm_title(
        opt_view(nickname),
        short_id@,
        opt_view(last_seen),
        opt_view(first_seen),
    ));
    r
}

/// The mark shown before a message: a check mark for a confirmed message.
pub open spec fn receipt_mark(confirmed: bool) -> Seq<char> {
    if confirmed {
        seq!['v', ' ']
    } else {
        seq![' ', ' ']
    }
}

fn mark(confirmed: bool) -> (r: &'static str)
    ensures
        r@ == receipt_mark(confirmed),
{
    proof {
        reveal_strlit("v ");
        reveal_strlit("  ");
    }
    if confirmed {
        "v "
    } else {
        "  "
    }
}

/// Receipt mark of a broadcast line: only our own messages (no sender)
/// with an id that at least one peer confirmed are marked.
pub fn broadcast_receipt_prefix<T>(
    msg_id: Option<&str>,
    sender_id: Option<&str>,
    broadcast_receipts: &StrMap<StrMap<T>>,
) -> (r: &'static str)
    ensures
        r@ == receipt_mark(
            match (msg_id, sender_id) {
                (Some(m), None) => broadcast_receipts.view().contains_key(m@)
                    && broadcast_receipts.view()[m@].view().dom().len() != 0,
                _ => false,
            },
        ),
{
    match (msg_id, sender_id) {
        (Some(m), None) => {
            let confirmed: usize = match broadcast_receipts.get(m) {
                Some(peers) => peers.len(),
                None => 0,
            };
            mark(confirmed != 0)
        },
        _ => mark(false),
    }
}

/// Receipt mark of a direct-message line: marked when its id was confirmed.
pub fn dm_receipt_prefix<T>(msg_id: Option<&str>, dm_receipts: &StrMap<T>) -> (r: &'static str)
    ensures
        r@ == receipt_mark(
            match msg_id {
                Some(m) => dm_receipts.view().contains_key(m@),
                None => false,
            },
        ),
{
    match msg_id {
        Some(m) => mark(dm_receipts.contains_key(m)),
        None => mark(false),
    }
}

/// The nickname a peer shows in the peer list: its local nickname if it has
/// one, else the one it announced, trimmed; none when that is blank.
pub open spec fn chosen_nickname(
    peer_id: Seq<char>,
    local: Map<Seq<char>, String>,
    received: Map<Seq<char>, String>,
) -> Option<Seq<char>> {
    let picked = if local.contains_key(peer_id) {
        Some(local[peer_id]@)
    } else if received.contains_key(peer_id) {
        Some(received[peer_id]@)
    } else {
        None
    };
    match picked {
        Some(n) => if crate::text::spec_trim(n).len() > 0 {
            Some(crate::text::spec_trim(n))
        } else {
            None
        },
        None => None,
    }
}

/// How many of the peers show each nickname.
pub open spec fn nickname_tally(
    peers: Seq<Seq<char>>,
    local: Map<Seq<char>, String>,
    received: Map<Seq<char>, String>,
) -> Map<Seq<char>, nat>
    decreases peers.len(),
{
    if peers.len() == 0 {
        Map::empty()
    } else {
        let m = nickname_tally(peers.drop_last(), local, received);
        match chosen_nickname(peers.last(), local, received) {
            Some(n) => m.insert(n, if m.contains_key(n) { m[n] + 1 } else { 1 }),
            None => m,
        }
    }
}

proof fn lemma_tally_bounded(
    peers: Seq<Seq<char>>,
    local: Map<Seq<char>, String>,
    received: Map<Seq<char>, String>,
)
    ensures
        forall|n: Seq<char>| #[trigger] nickname_tally(peers, local, received).contains_key(n)
            ==> nickname_tally(peers, local, received)[n] <= peers.len(),
    decreases peers.len(),
{
    if peers.len() > 0 {
        let init = peers.drop_last();
        lemma_tally_bounded(init, local, received);
        let m = nickname_tally(init, local, received);
        assert forall|n: Seq<char>| #[trigger] nickname_tally(peers, local, received).contains_key(n)
            implies nickname_tally(peers, local, received)[n] <= peers.len() by {
            if m.contains_key(n) {
                assert(m[n] <= init.len());
            }
        }
    }
}

/// Count, for each nickname shown in the peer list, how many peers show it
/// (see [`chosen_nickname`]); `format_peer_line` shows a nickname only when
/// one peer has it.
pub fn nickname_counts(
    peers: &Vec<(String, String, String)>,
    local_nicknames: &StrMap<String>,
    received_nicknames: &StrMap<String>,
) -> (r: StrMap<usize>)
    ensures
        forall|n: Seq<char>| #[trigger] r@.contains_key(n) <==> nickname_tally(
            peers@.map_values(|p: (String, String, String)| p.0@),
            local_nicknames@,
            received_nicknames@,
        ).contains_key(n),
        forall|n: Seq<char>| #[trigger] r@.contains_key(n) ==> r@[n] as nat == nickname_tally(
            peers@.map_values(|p: (String, String, String)| p.0@),
            local_nicknames@,
            received_nicknames@,
        )[n],
{
    let ghost ids = peers@.map_values(|p: (String, String, String)| p.0@);
    let mut counts: StrMap<usize> = StrMap::new();
    let mut i: usize = 0;
    assert(ids.take(0) =~= Seq::<Seq<char>>::empty());
    while i < peers.len()
        invariant
            ids == peers@.map_values(|p: (String, String, String)| p.0@),
            i <= peers@.len(),
            forall|n: Seq<char>| #[trigger] counts@.contains_key(n) <==> nickname_tally(
                ids.take(i as int),
                local_nicknames@,
                received_nicknames@,
            ).contains_key(n),
            forall|n: Seq<char>| #[trigger] counts@.contains_key(n) ==> counts@[n] as nat
                == nickname_tally(ids.take(i as int), local_nicknames@, received_nicknames@)[n],
        decreases peers.len() - i,
    {
        let peer_id = peers[i].0.as_str();
        let ghost prev = ids.take(i as int);
        let ghost next = ids.take(i + 1);
        assert(next.drop_last() =~= prev);
        assert(next.last() == peer_id@);
        proof {
            lemma_tally_bounded(prev, local_nicknames@, received_nicknames@);
        }
        let picked: Option<&String> = match local_nicknames.get(peer_id) {
            Some(n) => Some(n),
            None => received_nicknames.get(peer_id),
        };
        match picked {
            Some(n) => {
                let t = crate::text::trim(n.as_str());
                if !t.as_str().is_empty() {
                    let c: usize = match counts.get(t.as_str()) {
                        Some(c) => *c,
                        None => 0,
                    };
                    counts.insert(t, c + 1);
                }
            },
            None => {},
        }
        i += 1;
    }
    assert(ids.take(peers@.len() as int) =~= ids);
    counts
}

} // verus!
