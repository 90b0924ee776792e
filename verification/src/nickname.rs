//! Nickname rules and generation.

use vstd::prelude::*;
use crate::text::chars_of;

verus! {

/// Whether a character beyond ASCII is alphabetic or numeric in Unicode.
pub uninterp spec fn unicode_alphanumeric(c: char) -> bool;

/// Whether a character is alphabetic or numeric: in ASCII exactly the
/// letters and digits, beyond ASCII the Unicode properties.
pub open spec fn alphanumeric(c: char) -> bool {
    if (c as u32) < 128 {
        ('a' <= c && c <= 'z') || ('A' <= c && c <= 'Z') || ('0' <= c && c <= '9')
    } else {
        unicode_alphanumeric(c)
    }
}

/// Whether a character is alphabetic or numeric.
///
/// Calls `char::is_alphanumeric`, which std documents as `is_alphabetic()
/// || is_numeric()` over Unicode properties; in ASCII these are exactly the
/// letters and digits. Which characters beyond ASCII count is named, not
/// stated.
#[verifier::external_body]
pub(crate) fn is_alphanumeric(c: char) -> (r: bool)
    ensures
        r == alphanumeric(c),
        (c as u32) >= 128 ==> r == unicode_alphanumeric(c),
{
    c.is_alphanumeric()
}

/// Maximum length of a nickname, in characters.
pub const MAX_NICKNAME_CHARS: usize = 20;

/// A nickname is non-empty, at most twenty characters long, and made of
/// alphanumeric characters and dashes.
pub open spec fn spec_valid_nickname(nick: Seq<char>) -> bool {
    &&& nick.len() > 0
    &&& nick.len() <= 20
    &&& forall|i: int| 0 <= i < nick.len() ==> alphanumeric(#[trigger] nick[i]) || nick[i] == '-'
}

/// An ASCII character that a nickname may hold: a letter, a digit or a dash.
pub open spec fn nickname_ascii_char(c: char) -> bool {
    ('a' <= c && c <= 'z') || ('A' <= c && c <= 'Z') || ('0' <= c && c <= '9') || c == '-'
}

/// A nickname with an ASCII character other than a letter, a digit or a dash
/// (a dot, a space, an underscore, ...) is refused, and so is one longer than
/// twenty characters or an empty one; an ASCII name of one to twenty letters,
/// digits and dashes is accepted.
pub proof fn lemma_nickname_ascii_rules(nick: Seq<char>)
    ensures
        (exists|i: int| 0 <= i < nick.len() && (#[trigger] nick[i] as u32) < 128 && !nickname_ascii_char(nick[i]))
            ==> !spec_valid_nickname(nick),
        nick.len() == 0 || nick.len() > 20 ==> !spec_valid_nickname(nick),
        (1 <= nick.len() <= 20 && forall|i: int| 0 <= i < nick.len() ==> (#[trigger] nick[i] as u32) < 128
            && nickname_ascii_char(nick[i])) ==> spec_valid_nickname(nick),
{
    if exists|i: int| 0 <= i < nick.len() && (#[trigger] nick[i] as u32) < 128 && !nickname_ascii_char(nick[i]) {
        let i = choose|i: int| 0 <= i < nick.len() && (#[trigger] nick[i] as u32) < 128 && !nickname_ascii_char(nick[i]);
        assert(!(alphanumeric(nick[i]) || nick[i] == '-'));
    }
}

/// Validate a nickname: alphanumeric and dash only, max 20 chars.
pub fn validate_nickname(nick: &str) -> (r: bool)
    ensures
        r == spec_valid_nickname(nick@),
        (exists|i: int| 0 <= i < nick@.len() && (#[trigger] nick@[i] as u32) < 128 && !nickname_ascii_char(nick@[i]))
            ==> !r,
{
    let cs = chars_of(nick);
    if cs.len() == 0 {
        return false;
    }
    if cs.len() > MAX_NICKNAME_CHARS {
        return false;
    }
    let mut i: usize = 0;
    while i < cs.len()
        invariant
            cs@ == nick@,
            i <= cs@.len(),
            forall|j: int| 0 <= j < i ==> alphanumeric(#[trigger] nick@[j]) || nick@[j] == '-',
        decreases cs.len() - i,
    {
        let c = cs[i];
        if !(is_alphanumeric(c) || c == '-') {
            return false;
        }
        i += 1;
    }
    proof {
        lemma_nickname_ascii_rules(nick@);
    }
    true
}

/// Whether `part` occurs somewhere in `s`.
pub open spec fn contains_text(s: Seq<char>, part: Seq<char>) -> bool {
    exists|i: int| 0 <= i && i + part.len() <= s.len() && #[trigger] s.subrange(i, i + part.len()) == part
}

/// A random name of `words` words from petname's default word lists, joined
/// by `separator`.
///
/// Calls `petname::petname(words, separator)`. Its source draws one word
/// from each of `words` lists (adjectives, nouns, adverbs; the default lists
/// are not empty) and joins them with the separator, returning `None` only
/// when nothing was drawn. So a name is drawn whenever `words` is at least
/// one, it is never empty, and with two words or more it holds the
/// separator. Which words are drawn is left unsaid: they are random.
#[verifier::external_body]
fn random_petname(words: u8, separator: &str) -> (r: Option<String>)
    ensures
        words >= 1 ==> r is Some,
        r matches Some(s) ==> s@.len() > 0 && (words >= 2 ==> contains_text(s@, separator@)),
{
    petname::petname(words, separator)
}

/// Number of words in a generated nickname.
pub const NICKNAME_WORDS: u8 = 2;

/// The name to use: the drawn name, or `anonymous-peer` when none was drawn.
pub open spec fn spec_nickname_or_fallback(drawn: Option<Seq<char>>) -> Seq<char> {
    match drawn {
        Some(n) => n,
        None => seq!['a', 'n', 'o', 'n', 'y', 'm', 'o', 'u', 's', '-', 'p', 'e', 'e', 'r'],
    }
}

/// Keeps a drawn name, or falls back to `anonymous-peer`.
pub fn nickname_or_fallback(drawn: Option<String>) -> (r: String)
    ensures
        r@ == spec_nickname_or_fallback(
            match drawn {
                Some(n) => Some(n@),
                None => None,
            },
        ),
{
    match drawn {
        Some(name) => name,
        None => anonymous_peer(),
    }
}

/// Generate a random two-word nickname (e.g. `"brave-otter"`): never
/// empty, and the words are joined by a dash.
pub fn generate_self_nickname() -> (r: String)
    ensures
        r@.len() > 0,
        contains_text(r@, seq!['-']),
{
    let sep = dash();
    let drawn = random_petname(NICKNAME_WORDS, sep.as_str());
    let r = nickname_or_fallback(drawn);
    r
}

fn dash() -> (r: String)
    ensures
        r@ == seq!['-'],
{
    let mut s = String::new();
    crate::text::push_char(&mut s, '-');
    s
}

fn anonymous_peer() -> (r: String)
    ensures
        r@ == seq!['a', 'n', 'o', 'n', 'y', 'm', 'o', 'u', 's', '-', 'p', 'e', 'e', 'r'],
{
    proof {
        reveal_strlit("anonymous-peer");
    }
    "anonymous-peer".to_string()
}

/// Display names already worked out (`"name (abc)"`), by peer id, so the
/// peer list does not ask the store again for every row.
#[derive(Debug)]
pub struct DisplayNameCache {
    names: crate::map::StrMap<String>,
}

impl DisplayNameCache {
    /// The cached names, by peer id.
    pub closed spec fn view(&self) -> Map<Seq<char>, Seq<char>> {
        self.names@.map_values(|n: String| n@)
    }

    /// A cache with no name.
    pub fn new() -> (r: Self)
        ensures
            r@ == Map::<Seq<char>, Seq<char>>::empty(),
    {
        let r = DisplayNameCache { names: crate::map::StrMap::new() };
        assert(r@ =~= Map::<Seq<char>, Seq<char>>::empty());
        r
    }

    /// The cached name of a peer.
    pub fn get(&self, peer_id: &str) -> (r: Option<String>)
        ensures
            match r {
                Some(n) => self@.contains_key(peer_id@) && n@ == self@[peer_id@],
                None => !self@.contains_key(peer_id@),
            },
    {
        match self.names.get(peer_id) {
            Some(n) => Some(crate::text::owned(n.as_str())),
            None => None,
        }
    }

    /// Remember a peer's display name.
    pub fn remember(&mut self, peer_id: String, name: String)
        ensures
            final(self)@ == old(self)@.insert(peer_id@, name@),
    {
        let ghost k = peer_id@;
        let ghost v = name@;
        self.names.insert(peer_id, name);
        assert(self@ =~= old(self)@.insert(k, v));
    }

    /// Forget one peer's name after its nicknames changed.
    pub fn invalidate(&mut self, peer_id: &str)
        ensures
            final(self)@ == old(self)@.remove(peer_id@),
    {
        let _ = self.names.remove(peer_id);
        assert(self@ =~= old(self)@.remove(peer_id@));
    }

    /// Forget every name (the store changed).
    pub fn clear(&mut self)
        ensures
            final(self)@ == Map::<Seq<char>, Seq<char>>::empty(),
    {
        self.names = crate::map::StrMap::new();
        assert(self@ =~= Map::<Seq<char>, Seq<char>>::empty());
    }
}

} // verus!
