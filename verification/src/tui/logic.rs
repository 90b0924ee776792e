//! State changes of the terminal chat front end: building the state,
//! handling chat and direct-message input, and slash commands.

use vstd::prelude::*;
use crate::map::StrMap;
use crate::network::NetworkSize;
use crate::text::{chars_of, owned, spec_trim, string_from_range, trim};
use crate::tui::shared::{has_initial_settings, is_initial_state, ChatMessage, TuiState, MAX_LOGS};
use std::collections::VecDeque;
use vstd::string::StringExecFns;

verus! {

/// The text `[You]`.
pub open spec fn you_tag() -> Seq<char> {
    seq!['[', 'Y', 'o', 'u', ']']
}

/// The characters after the first `[`, if there is one.
pub open spec fn after_first_open(m: Seq<char>) -> Option<Seq<char>>
    decreases m.len(),
{
    if m.len() == 0 {
        None
    } else if m[0] == '[' {
        Some(m.drop_first())
    } else {
        after_first_open(m.drop_first())
    }
}

/// The leading characters before the first `[` or `]`.
pub open spec fn until_bracket(s: Seq<char>) -> Seq<char>
    decreases s.len(),
{
    if s.len() == 0 || s[0] == '[' || s[0] == ']' {
        Seq::empty()
    } else {
        seq![s[0]] + until_bracket(s.drop_first())
    }
}

/// The sender label of a chat line: `You` for a line that starts with
/// `[You]`, else the text between the first `[` and the next bracket, else
/// nothing.
pub open spec fn spec_sender_label(m: Seq<char>) -> Seq<char> {
    if m.len() >= 5 && m.take(5) == you_tag() {
        seq!['Y', 'o', 'u']
    } else {
        match after_first_open(m) {
            Some(rest) => until_bracket(rest),
            None => Seq::empty(),
        }
    }
}

/// The sender label of a chat line (see [`spec_sender_label`]).
pub fn sender_label(m: &str) -> (r: String)
    ensures
        r@ == spec_sender_label(m@),
{
    let cs = chars_of(m);
    let n = cs.len();
    if n >= 5 && cs[0] == '[' && cs[1] == 'Y' && cs[2] == 'o' && cs[3] == 'u' && cs[4] == ']' {
        assert(m@.take(5) =~= you_tag());
        let mut you = String::new();
        crate::text::push_char(&mut you, 'Y');
        crate::text::push_char(&mut you, 'o');
        crate::text::push_char(&mut you, 'u');
        assert(you@ =~= seq!['Y', 'o', 'u']);
        return you;
    }
    assert(!(m@.len() >= 5 && m@.take(5) == you_tag())) by {
        if m@.len() >= 5 && m@.take(5) == you_tag() {
            assert(m@.take(5)[0] == m@[0]);
            assert(m@.take(5)[1] == m@[1]);
            assert(m@.take(5)[2] == m@[2]);
            assert(m@.take(5)[3] == m@[3]);
            assert(m@.take(5)[4] == m@[4]);
        }
    }
    let mut i: usize = 0;
    assert(m@.subrange(0, n as int) =~= m@);
    while i < n && cs[i] != '['
        invariant
            cs@ == m@,
            n == cs@.len(),
            i <= n,
            after_first_open(m@) == after_first_open(m@.subrange(i as int, n as int)),
        decreases n - i,
    {
        assert(m@.subrange(i as int, n as int).drop_first() =~= m@.subrange(i + 1, n as int));
        i += 1;
    }
    if i == n {
        return String::new();
    }
    assert(m@.subrange(i as int, n as int).drop_first() =~= m@.subrange(i + 1, n as int));
    let start = i + 1;
    let mut j: usize = start;
    assert(m@.subrange(start as int, start as int) =~= Seq::<char>::empty());
    while j < n && cs[j] != '[' && cs[j] != ']'
        invariant
            cs@ == m@,
            n == cs@.len(),
            start <= j <= n,
            until_bracket(m@.subrange(start as int, n as int)) == m@.subrange(start as int, j as int)
                + until_bracket(m@.subrange(j as int, n as int)),
        decreases n - j,
    {
        assert(m@.subrange(j as int, n as int).drop_first() =~= m@.subrange(j + 1, n as int));
        assert(m@.subrange(start as int, j + 1) =~= m@.subrange(start as int, j as int) + seq![
            m@[j as int],
        ]);
        j += 1;
    }
    assert(until_bracket(m@.subrange(j as int, n as int)) =~= Seq::<char>::empty());
    assert(m@.subrange(start as int, j as int) + Seq::<char>::empty() =~= m@.subrange(
        start as int,
        j as int,
    ));
    string_from_range(cs.as_slice(), start, j)
}

/// The text of each string.
pub open spec fn texts(q: Seq<String>) -> Seq<Seq<char>> {
    q.map_values(|s: String| s@)
}

/// The state that `messages` as chat lines give: each line becomes a
/// message with that content and nothing else, and its sender label is
/// recorded; everything else is as in a new state.
pub open spec fn is_state_with_lines(s: TuiState, lines: Seq<Seq<char>>) -> bool {
    &&& s.messages@.len() == lines.len()
    &&& forall|i: int|
        0 <= i < lines.len() ==> {
            &&& (#[trigger] s.messages@[i]).content@ == lines[i]
            &&& s.messages@[i].peer_id is None
            &&& s.messages@[i].nickname is None
            &&& s.messages@[i].timestamp@ == Seq::<char>::empty()
        }
    &&& texts(s.chat_message_peers@) == lines.map_values(|m: Seq<char>| spec_sender_label(m))
    &&& has_initial_settings(s)
}

/// A new front-end state.
pub fn new_state() -> (r: TuiState)
    ensures
        is_initial_state(r),
{
    TuiState::default()
}

/// The sender label of each line.
pub fn sender_labels(lines: &VecDeque<String>) -> (r: Vec<String>)
    ensures
        texts(r@) == texts(lines@).map_values(|m: Seq<char>| spec_sender_label(m)),
{
    let mut out: Vec<String> = Vec::new();
    let mut i: usize = 0;
    while i < lines.len()
        invariant
            i <= lines@.len(),
            out@.len() == i,
            forall|j: int| 0 <= j < i ==> (#[trigger] out@[j])@ == spec_sender_label(lines@[j]@),
        decreases lines.len() - i,
    {
        out.push(sender_label(lines[i].as_str()));
        i += 1;
    }
    assert(texts(out@) =~= texts(lines@).map_values(|m: Seq<char>| spec_sender_label(m)));
    out
}

/// A new front-end state holding the given chat lines.
pub fn new_state_with_messages(messages: VecDeque<String>) -> (r: TuiState)
    ensures
        is_state_with_lines(r, texts(messages@)),
{
    let mut state = TuiState::default();
    let peers = sender_labels(&messages);
    let mut q: VecDeque<ChatMessage> = VecDeque::new();
    let mut i: usize = 0;
    while i < messages.len()
        invariant
            i <= messages@.len(),
            q@.len() == i,
            forall|j: int|
                0 <= j < i ==> {
                    &&& (#[trigger] q@[j]).content@ == messages@[j]@
                    &&& q@[j].peer_id is None
                    &&& q@[j].nickname is None
                    &&& q@[j].timestamp@ == Seq::<char>::empty()
                },
        decreases messages.len() - i,
    {
        q.push_back(
            ChatMessage {
                content: owned(messages[i].as_str()),
                peer_id: None,
                nickname: None,
                timestamp: String::new(),
            },
        );
        i += 1;
    }
    state.messages = q;
    state.chat_message_peers = peers;
    state
}

/// Messages stored under a topic; the store is not wired up, so there are
/// none.
pub fn load_messages(topic: &str, limit: usize) -> (r: Result<VecDeque<String>, String>)
    ensures
        r matches Ok(q) && q@.len() == 0,
{
    Ok(VecDeque::new())
}

/// Known peers as (peer id, first seen, last seen); the store is not wired
/// up, so there are none.
pub fn load_peers() -> (r: Result<Vec<(String, String, String)>, String>)
    ensures
        r matches Ok(v) && v@.len() == 0,
{
    Ok(Vec::new())
}

/// Store a message; the store is not wired up, so this succeeds and does
/// nothing.
pub fn save_message(
    content: &str,
    peer_id: Option<&str>,
    topic: &str,
    is_direct: bool,
    target_peer: Option<&str>,
) -> (r: Result<(), String>)
    ensures
        r is Ok,
{
    Ok(())
}

/// Mark a message as sent; the store is not wired up, so this succeeds and
/// does nothing.
pub fn mark_message_sent(message_id: i32) -> (r: Result<(), String>)
    ensures
        r is Ok,
{
    Ok(())
}

/// Store a peer; the store is not wired up, so this succeeds and does
/// nothing.
pub fn save_peer(peer_id: &str, addresses: &[String]) -> (r: Result<(), String>)
    ensures
        r is Ok,
{
    Ok(())
}

/// Store the current session; the store is not wired up, so this succeeds
/// and does nothing.
pub fn save_session(concurrent_peers: usize) -> (r: Result<(), String>)
    ensures
        r is Ok,
{
    Ok(())
}

/// The network size class used before any peer statistics exist.
pub fn get_network_size() -> (r: Result<NetworkSize, String>)
    ensures
        r == Ok::<NetworkSize, String>(NetworkSize::Medium),
{
    Ok(NetworkSize::Medium)
}

/// The time shown on new messages and log lines.
pub open spec fn now_text() -> Seq<char> {
    seq!['N', 'o', 'w']
}

fn format_current_time() -> (r: String)
    ensures
        r@ == now_text(),
{
    let mut s = String::new();
    crate::text::push_char(&mut s, 'N');
    crate::text::push_char(&mut s, 'o');
    crate::text::push_char(&mut s, 'w');
    assert(s@ =~= now_text());
    s
}

/// A log line: the time in brackets, a space, the message.
pub open spec fn log_line(message: Seq<char>) -> Seq<char> {
    seq!['['] + now_text() + seq![']', ' '] + message
}

/// The log after adding a line: the line goes last, and the oldest line is
/// dropped when the log would hold more than `MAX_LOGS` lines.
pub open spec fn logged(logs: Seq<Seq<char>>, message: Seq<char>) -> Seq<Seq<char>> {
    let l = logs.push(log_line(message));
    if l.len() > MAX_LOGS {
        l.drop_first()
    } else {
        l
    }
}

/// A log that holds at most `MAX_LOGS` lines still does after a line is
/// added, and the added line is the last one.
pub proof fn lemma_log_bounded(logs: Seq<Seq<char>>, message: Seq<char>)
    requires
        logs.len() <= MAX_LOGS,
    ensures
        logged(logs, message).len() <= MAX_LOGS,
        logged(logs, message).last() == log_line(message),
{
}

fn add_log(logs: &mut VecDeque<String>, message: &str)
    ensures
        texts(final(logs)@) == logged(texts(old(logs)@), message@),
{
    let mut line = String::new();
    crate::text::push_char(&mut line, '[');
    line.append(format_current_time().as_str());
    crate::text::push_char(&mut line, ']');
    crate::text::push_char(&mut line, ' ');
    line.append(message);
    assert(line@ =~= log_line(message@));
    logs.push_back(line);
    assert(texts(logs@) =~= texts(old(logs)@).push(log_line(message@)));
    if logs.len() > MAX_LOGS {
        logs.pop_front();
        assert(texts(logs@) =~= texts(old(logs)@).push(log_line(message@)).drop_first());
    }
}

/// The characters before the first space.
pub open spec fn first_word(s: Seq<char>) -> Seq<char>
    decreases s.len(),
{
    if s.len() == 0 || s[0] == ' ' {
        Seq::empty()
    } else {
        seq![s[0]] + first_word(s.drop_first())
    }
}

/// The characters after the first space, if there is one.
pub open spec fn after_first_space(s: Seq<char>) -> Option<Seq<char>>
    decreases s.len(),
{
    if s.len() == 0 {
        None
    } else if s[0] == ' ' {
        Some(s.drop_first())
    } else {
        after_first_space(s.drop_first())
    }
}

/// The nickname and the log after a slash command: `/nick name` sets the
/// nickname to the trimmed name and logs it (nothing happens when the name is
/// blank or missing), `/help` and `/h` log the command list, anything else is
/// logged as unknown.
pub open spec fn command_effect(input: Seq<char>, nick: Seq<char>, logs: Seq<Seq<char>>) -> (
    Seq<char>,
    Seq<Seq<char>>,
) {
    let head = first_word(input);
    if head == "/nick"@ {
        match after_first_space(input) {
            Some(rest) => {
                let name = spec_trim(rest);
                if name.len() > 0 {
                    (name, logged(logs, "Nickname set to: "@ + name))
                } else {
                    (nick, logs)
                }
            },
            None => (nick, logs),
        }
    } else if head == "/help"@ || head == "/h"@ {
        (
            nick,
            logged(
                logged(logged(logs, "Available commands:"@), "  /nick [name] - Set your nickname"@),
                "  /help - Show this help"@,
            ),
        )
    } else {
        (nick, logged(logs, "Unknown command: "@ + head))
    }
}

proof fn lemma_split_at_space(p: Seq<char>, r: Seq<char>)
    requires
        forall|i: int| 0 <= i < p.len() ==> p[i] != ' ',
    ensures
        first_word(p + seq![' '] + r) == p,
        after_first_space(p + seq![' '] + r) == Some(r),
    decreases p.len(),
{
    let s = p + seq![' '] + r;
    if p.len() == 0 {
        assert(s[0] == ' ');
        assert(s.drop_first() =~= r);
    } else {
        let q = p.drop_first();
        assert(s.drop_first() =~= q + seq![' '] + r);
        assert forall|i: int| 0 <= i < q.len() implies q[i] != ' ' by {
            assert(q[i] == p[i + 1]);
        }
        lemma_split_at_space(q, r);
        assert(seq![p[0]] + q =~= p);
    }
}

/// `/nick` followed by a space and a name sets the nickname to the whole
/// rest of the line, trimmed (a name may hold spaces), and logs it; a blank
/// rest changes nothing.
pub proof fn lemma_nick_takes_whole_rest(rest: Seq<char>, nick: Seq<char>, logs: Seq<Seq<char>>)
    ensures
        spec_trim(rest).len() > 0 ==> command_effect("/nick "@ + rest, nick, logs) == (
            spec_trim(rest),
            logged(logs, "Nickname set to: "@ + spec_trim(rest)),
        ),
        spec_trim(rest).len() == 0 ==> command_effect("/nick "@ + rest, nick, logs) == (nick, logs),
{
    reveal_strlit("/nick ");
    reveal_strlit("/nick");
    let p = "/nick"@;
    assert("/nick "@ =~= p + seq![' ']);
    assert("/nick "@ + rest =~= p + seq![' '] + rest);
    lemma_split_at_space(p, rest);
}

/// Split a command line at its first space.
fn split_command(input: &str) -> (r: (String, Option<String>))
    ensures
        r.0@ == first_word(input@),
        match r.1 {
            Some(rest) => after_first_space(input@) == Some(rest@),
            None => after_first_space(input@) is None,
        },
{
    let cs = chars_of(input);
    let n = cs.len();
    let mut k: usize = 0;
    assert(input@.subrange(0, n as int) =~= input@);
    while k < n && cs[k] != ' '
        invariant
            cs@ == input@,
            n == cs@.len(),
            k <= n,
            first_word(input@) == input@.subrange(0, k as int) + first_word(
                input@.subrange(k as int, n as int),
            ),
            after_first_space(input@) == after_first_space(input@.subrange(k as int, n as int)),
        decreases n - k,
    {
        assert(input@.subrange(k as int, n as int).drop_first() =~= input@.subrange(
            k + 1,
            n as int,
        ));
        assert(input@.subrange(0, k + 1) =~= input@.subrange(0, k as int) + seq![input@[k as int]]);
        k += 1;
    }
    assert(first_word(input@.subrange(k as int, n as int)) =~= Seq::<char>::empty());
    assert(input@.subrange(0, k as int) + Seq::<char>::empty() =~= input@.subrange(0, k as int));
    let head = string_from_range(cs.as_slice(), 0, k);
    if k < n {
        assert(input@.subrange(k as int, n as int).drop_first() =~= input@.subrange(
            k + 1,
            n as int,
        ));
        (head, Some(string_from_range(cs.as_slice(), k + 1, n)))
    } else {
        (head, None)
    }
}

fn handle_command(input: &str, state: &mut TuiState, logs: &mut VecDeque<String>)
    ensures
        (final(state).own_nickname@, texts(final(logs)@)) == command_effect(
            input@,
            old(state).own_nickname@,
            texts(old(logs)@),
        ),
        *final(state) == (TuiState { own_nickname: final(state).own_nickname, ..*old(state) }),
{
    let (head, rest) = split_command(input);
    if crate::text::str_eq(head.as_str(), "/nick") {
        match rest {
            Some(r) => {
                let name = trim(r.as_str());
                if !name.as_str().is_empty() {
                    let mut line = owned("Nickname set to: ");
                    line.append(name.as_str());
                    state.own_nickname = name;
                    add_log(logs, line.as_str());
                }
            },
            None => {},
        }
    } else if crate::text::str_eq(head.as_str(), "/help") || crate::text::str_eq(
        head.as_str(),
        "/h",
    ) {
        add_log(logs, "Available commands:");
        add_log(logs, "  /nick [name] - Set your nickname");
        add_log(logs, "  /help - Show this help");
    } else {
        let mut line = owned("Unknown command: ");
        line.append(head.as_str());
        add_log(logs, line.as_str());
    }
}

/// A message that the local user wrote now: the given content, peer id and
/// the user's nickname, stamped with the current time.
pub open spec fn is_own_message(
    m: ChatMessage,
    content: Seq<char>,
    peer: Option<Seq<char>>,
    nick: Seq<char>,
) -> bool {
    &&& m.content@ == content
    &&& match (m.peer_id, peer) {
        (Some(p), Some(q)) => p@ == q,
        (None, None) => true,
        _ => false,
    }
    &&& m.nickname matches Some(n) && n@ == nick
    &&& m.timestamp@ == now_text()
}

/// Handle a line typed in the chat view: a line that starts with `/` is a
/// command (see [`command_effect`]); any other line becomes a chat message of
/// the local user at the end of the chat.
pub fn handle_chat_input(input: &str, state: &mut TuiState, logs: &mut VecDeque<String>)
    ensures
        if input@.len() > 0 && input@[0] == '/' {
            &&& (final(state).own_nickname@, texts(final(logs)@)) == command_effect(
                input@,
                old(state).own_nickname@,
                texts(old(logs)@),
            )
            &&& *final(state) == (TuiState { own_nickname: final(state).own_nickname, ..*old(state) })
            &&& forall|rest: Seq<char>|
                input@ == "/nick "@ + rest && #[trigger] spec_trim(rest).len() > 0
                    ==> final(state).own_nickname@ == spec_trim(rest)
        } else {
            &&& final(logs)@ == old(logs)@
            &&& final(state).messages@.len() == old(state).messages@.len() + 1
            &&& final(state).messages@.drop_last() == old(state).messages@
            &&& is_own_message(
                final(state).messages@.last(),
                input@,
                None,
                old(state).own_nickname@,
            )
            &&& *final(state) == (TuiState { messages: final(state).messages, ..*old(state) })
        },
{
    let cs = chars_of(input);
    if cs.len() > 0 && cs[0] == '/' {
        handle_command(input, state, logs);
        proof {
            assert forall|rest: Seq<char>|
                input@ == "/nick "@ + rest && #[trigger] spec_trim(rest).len() > 0
                    implies state.own_nickname@ == spec_trim(rest) by {
                lemma_nick_takes_whole_rest(rest, old(state).own_nickname@, texts(old(logs)@));
            }
        }
    } else {
        let message = ChatMessage {
            content: owned(input),
            peer_id: None,
            nickname: Some(state.own_nickname.clone()),
            timestamp: format_current_time(),
        };
        state.messages.push_back(message);
        assert(state.messages@.drop_last() =~= old(state).messages@);
    }
}

/// The messages of the conversation with a peer, oldest first.
pub open spec fn conversation(m: Map<Seq<char>, VecDeque<ChatMessage>>, peer: Seq<char>) -> Seq<
    ChatMessage,
> {
    if m.contains_key(peer) {
        m[peer]@
    } else {
        Seq::empty()
    }
}

/// Handle a line typed in a direct-message view: it becomes a message of the
/// local user to that peer, at the end of that conversation.
pub fn handle_dm_input(peer_id: &str, input: &str, state: &mut TuiState)
    ensures
        final(state).dm_messages@.dom() == old(state).dm_messages@.dom().insert(peer_id@),
        forall|k: Seq<char>|
            k != peer_id@ && #[trigger] old(state).dm_messages@.contains_key(k)
                ==> final(state).dm_messages@[k] == old(state).dm_messages@[k],
        conversation(final(state).dm_messages@, peer_id@).len() == conversation(
            old(state).dm_messages@,
            peer_id@,
        ).len() + 1,
        conversation(final(state).dm_messages@, peer_id@).drop_last() == conversation(
            old(state).dm_messages@,
            peer_id@,
        ),
        is_own_message(
            conversation(final(state).dm_messages@, peer_id@).last(),
            input@,
            Some(peer_id@),
            old(state).own_nickname@,
        ),
        *final(state) == (TuiState { dm_messages: final(state).dm_messages, ..*old(state) }),
{
    let message = ChatMessage {
        content: owned(input),
        peer_id: Some(owned(peer_id)),
        nickname: Some(state.own_nickname.clone()),
        timestamp: format_current_time(),
    };
    let ghost before = state.dm_messages@;
    let mut q = match state.dm_messages.remove(peer_id) {
        Some(q) => q,
        None => VecDeque::new(),
    };
    let ghost q0 = q@;
    assert(q0 == conversation(before, peer_id@));
    q.push_back(message);
    state.dm_messages.insert(owned(peer_id), q);
    assert(state.dm_messages@.dom() =~= before.dom().insert(peer_id@));
    assert(conversation(state.dm_messages@, peer_id@).drop_last() =~= q0);
}

/// The messages of the conversation with a peer, oldest first (none for a
/// peer without a conversation).
pub fn get_dm_messages<'a>(peer_id: &str, state: &'a TuiState) -> (r: Vec<&'a ChatMessage>)
    ensures
        r@.len() == conversation(state.dm_messages@, peer_id@).len(),
        forall|i: int|
            0 <= i < r@.len() ==> *(#[trigger] r@[i]) == conversation(
                state.dm_messages@,
                peer_id@,
            )[i],
{
    let mut out: Vec<&ChatMessage> = Vec::new();
    match state.dm_messages.get(peer_id) {
        Some(q) => {
            let mut i: usize = 0;
            while i < q.len()
                invariant
                    i <= q@.len(),
                    out@.len() == i,
                    forall|j: int| 0 <= j < i ==> *(#[trigger] out@[j]) == q@[j],
                decreases q.len() - i,
            {
                out.push(&q[i]);
                i += 1;
            }
        },
        None => {},
    }
    out
}

} // verus!
