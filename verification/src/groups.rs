//! Group topics and group identity: a public group is known by its
//! canonical name, from which every node derives the same group id.

use vstd::prelude::*;
use crate::text::{chars_of, hex16_string, hex_fixed, is_whitespace, push_char, string_from_chars, unicode_whitespace};
use vstd::string::{StringExecFns, StrSliceExecFns};

verus! {

/// Prefix of every per-group gossipsub topic (`group:<group_id>`).
pub open spec fn group_prefix() -> Seq<char> {
    seq!['g', 'r', 'o', 'u', 'p', ':']
}

/// Prefix of every per-group gossipsub topic (`group:<group_id>`).
pub const GROUP_TOPIC_PREFIX: &'static str = "group:";

/// The per-group topic of a group id.
pub open spec fn spec_group_topic(group_id: Seq<char>) -> Seq<char> {
    group_prefix() + group_id
}

/// Build the per-group gossipsub topic string for a `group_id`.
pub fn group_topic(group_id: &str) -> (r: String)
    ensures
        r@ == spec_group_topic(group_id@),
{
    proof {
        reveal_strlit("group:");
    }
    let mut r = String::from_str(GROUP_TOPIC_PREFIX);
    r.append(group_id);
    r
}

/// Whether a topic is a per-group topic.
pub open spec fn spec_is_group_topic(topic: Seq<char>) -> bool {
    topic.len() >= 6 && topic.take(6) == group_prefix()
}

/// True if `topic` is a per-group topic.
pub fn is_group_topic(topic: &str) -> (r: bool)
    ensures
        r == spec_is_group_topic(topic@),
{
    let cs = chars_of(topic);
    if cs.len() < 6 {
        return false;
    }
    let r = cs[0] == 'g' && cs[1] == 'r' && cs[2] == 'o' && cs[3] == 'u' && cs[4] == 'p' && cs[5]
        == ':';
    proof {
        if r {
            assert(topic@.take(6) =~= group_prefix());
        } else {
            if topic@.take(6) == group_prefix() {
                assert(topic@.take(6)[0] == 'g');
                assert(topic@.take(6)[1] == 'r');
                assert(topic@.take(6)[2] == 'o');
                assert(topic@.take(6)[3] == 'u');
                assert(topic@.take(6)[4] == 'p');
                assert(topic@.take(6)[5] == ':');
            }
        }
    }
    r
}

/// Extract the group id from a per-group topic string.
pub fn group_id_from_topic(topic: &str) -> (r: Option<&str>)
    ensures
        match r {
            Some(id) => spec_is_group_topic(topic@) && id@ == topic@.skip(6),
            None => !spec_is_group_topic(topic@),
        },
{
    if !is_group_topic(topic) {
        return None;
    }
    let n = topic.unicode_len();
    let id = topic.substring_char(6, n);
    assert(id@ =~= topic@.skip(6));
    Some(id)
}

/// A group id read back from the topic built from it is the same id.
pub proof fn lemma_group_topic_round_trip(group_id: Seq<char>)
    ensures
        spec_is_group_topic(spec_group_topic(group_id)),
        spec_group_topic(group_id).skip(6) == group_id,
{
    assert(spec_group_topic(group_id).take(6) =~= group_prefix());
    assert(spec_group_topic(group_id).skip(6) =~= group_id);
}

/// The lowercase form of a string under Unicode case mapping.
pub uninterp spec fn unicode_lowercase(s: Seq<char>) -> Seq<char>;

/// ASCII lowercase of one character.
pub open spec fn ascii_lower(c: char) -> char {
    if 'A' <= c && c <= 'Z' {
        ((c as u32) + 32) as char
    } else {
        c
    }
}

/// Every character is ASCII.
pub open spec fn all_ascii(s: Seq<char>) -> bool {
    forall|i: int| 0 <= i < s.len() ==> (#[trigger] s[i] as u32) < 128
}

/// The lowercase form of a string: an ASCII string maps letter by letter,
/// `A`-`Z` to `a`-`z` and other characters unchanged; any other string by
/// the Unicode lowercase mapping.
pub open spec fn lowercase(s: Seq<char>) -> Seq<char> {
    if all_ascii(s) {
        s.map_values(|c: char| ascii_lower(c))
    } else {
        unicode_lowercase(s)
    }
}

/// The lowercase form of a string.
///
/// Calls `str::to_lowercase`, which std documents as the Unicode lowercase
/// mapping of the string; on ASCII text that is the ASCII mapping of each
/// letter. What it does beyond ASCII is named, not stated.
#[verifier::external_body]
pub(crate) fn to_lowercase(s: &str) -> (r: String)
    ensures
        r@ == lowercase(s@),
        !all_ascii(s@) ==> r@ == unicode_lowercase(s@),
{
    s.to_lowercase()
}

/// The whitespace-separated words of a text, in order.
pub open spec fn split_words(s: Seq<char>) -> Seq<Seq<char>>
    decreases s.len(),
{
    if s.len() == 0 {
        Seq::empty()
    } else {
        let init = split_words(s.drop_last());
        let c = s.last();
        if unicode_whitespace(c) {
            init
        } else if s.len() >= 2 && !unicode_whitespace(s[s.len() - 2]) {
            init.update(init.len() - 1, init.last().push(c))
        } else {
            init.push(seq![c])
        }
    }
}

/// Words joined by single spaces.
pub open spec fn join_words(ws: Seq<Seq<char>>) -> Seq<char>
    decreases ws.len(),
{
    if ws.len() == 0 {
        Seq::empty()
    } else if ws.len() == 1 {
        ws[0]
    } else {
        join_words(ws.drop_last()) + seq![' '] + ws.last()
    }
}

/// Canonical name of a public group: its words, each lowercased, joined by
/// single spaces.
pub open spec fn spec_canonical_group_name(name: Seq<char>) -> Seq<char> {
    join_words(split_words(name).map_values(|w: Seq<char>| lowercase(w)))
}

/// Canonical name of a public group: whitespace-trimmed, internal whitespace
/// collapsed, lowercased. Same canonical name == same group everywhere.
pub fn canonical_group_name(name: &str) -> (r: String)
    ensures
        r@ == spec_canonical_group_name(name@),
{
    let cs = chars_of(name);
    let mut words: Vec<String> = Vec::new();
    let mut cur: Vec<char> = Vec::new();
    let mut i: usize = 0;
    assert(name@.take(0) =~= Seq::<char>::empty());
    while i < cs.len()
        invariant
            cs@ == name@,
            i <= cs@.len(),
            ({
                let ws = split_words(name@.take(i as int));
                let in_word = i > 0 && !unicode_whitespace(name@[i - 1]);
                &&& in_word == (cur@.len() > 0)
                &&& in_word ==> ws.len() == words@.len() + 1 && ws.last() == cur@
                &&& !in_word ==> ws.len() == words@.len()
                &&& forall|j: int| 0 <= j < words@.len() ==> #[trigger] words@[j]@ == ws[j]
            }),
        decreases cs.len() - i,
    {
        let c = cs[i];
        let ghost p = name@.take(i as int);
        assert(name@.take(i + 1).drop_last() =~= p);
        assert(name@.take(i + 1).last() == c);
        if is_whitespace(c) {
            if cur.len() > 0 {
                words.push(string_from_chars(cur.as_slice()));
                cur = Vec::new();
            }
        } else {
            cur.push(c);
            proof {
                if i > 0 {
                    assert(name@.take(i + 1)[i - 1] == name@[i - 1]);
                }
            }
        }
        i += 1;
    }
    assert(name@.take(cs@.len() as int) =~= name@);
    if cur.len() > 0 {
        words.push(string_from_chars(cur.as_slice()));
    }
    let ghost ws = split_words(name@);
    assert(words@.len() == ws.len());
    // Lowercase each word and join them with single spaces.
    let mut r = String::new();
    let mut k: usize = 0;
    while k < words.len()
        invariant
            k <= words@.len(),
            words@.len() == ws.len(),
            forall|j: int| 0 <= j < words@.len() ==> #[trigger] words@[j]@ == ws[j],
            r@ == join_words(ws.take(k as int).map_values(|w: Seq<char>| lowercase(w))),
        decreases words.len() - k,
    {
        let low = to_lowercase(words[k].as_str());
        let ghost before = ws.take(k as int).map_values(|w: Seq<char>| lowercase(w));
        let ghost after = ws.take(k + 1).map_values(|w: Seq<char>| lowercase(w));
        assert(after.drop_last() =~= before);
        assert(after.last() == lowercase(ws[k as int]));
        if k > 0 {
            push_char(&mut r, ' ');
        }
        r.append(low.as_str());
        proof {
            if k == 0 {
                assert(after.len() == 1);
                assert(r@ =~= join_words(after));
            } else {
                assert(r@ =~= join_words(after));
            }
        }
        k += 1;
    }
    assert(ws.take(ws.len() as int) =~= ws);
    r
}

/// A word: not empty and free of whitespace.
pub open spec fn is_word(w: Seq<char>) -> bool {
    w.len() > 0 && forall|j: int| 0 <= j < w.len() ==> !unicode_whitespace(#[trigger] w[j])
}

/// Every entry is a word.
pub open spec fn all_words(ws: Seq<Seq<char>>) -> bool {
    forall|i: int| 0 <= i < ws.len() ==> is_word(#[trigger] ws[i])
}

/// Every entry is ASCII.
pub open spec fn all_ascii_words(ws: Seq<Seq<char>>) -> bool {
    forall|i: int| 0 <= i < ws.len() ==> all_ascii(#[trigger] ws[i])
}

proof fn lemma_split_words_shape(s: Seq<char>)
    ensures
        all_words(split_words(s)),
        all_ascii(s) ==> all_ascii_words(split_words(s)),
        s.len() > 0 && !unicode_whitespace(s.last()) ==> split_words(s).len() > 0
            && split_words(s).last().last() == s.last(),
    decreases s.len(),
{
    if s.len() > 0 {
        let init = split_words(s.drop_last());
        lemma_split_words_shape(s.drop_last());
        let c = s.last();
        if all_ascii(s) {
            assert(all_ascii(s.drop_last()));
        }
        if !unicode_whitespace(c) {
            if s.len() >= 2 && !unicode_whitespace(s[s.len() - 2]) {
                assert(s.drop_last().last() == s[s.len() - 2]);
                let w = init.last().push(c);
                let r = init.update(init.len() - 1, w);
                assert(is_word(w));
                assert forall|i: int| 0 <= i < r.len() implies is_word(#[trigger] r[i]) by {
                    if i < init.len() - 1 {
                        assert(r[i] == init[i]);
                    }
                }
                if all_ascii(s) {
                    assert(all_ascii(init.last()));
                    assert(all_ascii(w));
                    assert forall|i: int| 0 <= i < r.len() implies all_ascii(#[trigger] r[i]) by {
                        if i < init.len() - 1 {
                            assert(r[i] == init[i]);
                        }
                    }
                }
            } else {
                let r = init.push(seq![c]);
                assert(is_word(seq![c]));
                assert forall|i: int| 0 <= i < r.len() implies is_word(#[trigger] r[i]) by {
                    if i < init.len() {
                        assert(r[i] == init[i]);
                    }
                }
                if all_ascii(s) {
                    assert(all_ascii(seq![c]));
                    assert forall|i: int| 0 <= i < r.len() implies all_ascii(#[trigger] r[i]) by {
                        if i < init.len() {
                            assert(r[i] == init[i]);
                        }
                    }
                }
            }
        }
    }
}

/// Appending a word after a break adds it as the last word.
proof fn lemma_split_append_word(p: Seq<char>, w: Seq<char>)
    requires
        is_word(w),
        p.len() == 0 || unicode_whitespace(p.last()),
    ensures
        split_words(p + w) == split_words(p).push(w),
    decreases w.len(),
{
    let s = p + w;
    let c = w.last();
    assert(s.drop_last() =~= p + w.drop_last());
    assert(s.last() == c);
    if w.len() == 1 {
        assert(p + w.drop_last() =~= p);
        assert(w =~= seq![c]);
        if s.len() >= 2 {
            assert(s[s.len() - 2] == p.last());
        }
    } else {
        let w0 = w.drop_last();
        assert(is_word(w0)) by {
            assert forall|j: int| 0 <= j < w0.len() implies !unicode_whitespace(#[trigger] w0[j]) by {
                assert(w0[j] == w[j]);
            }
        }
        lemma_split_append_word(p, w0);
        assert(s[s.len() - 2] == w[w.len() - 2]);
        assert(w0.push(c) =~= w);
        let init = split_words(p).push(w0);
        assert(init.update(init.len() - 1, init.last().push(c)) =~= split_words(p).push(w));
    }
}

/// Splitting words joined by single spaces gives the words back.
proof fn lemma_split_join(ws: Seq<Seq<char>>)
    requires
        all_words(ws),
    ensures
        split_words(join_words(ws)) == ws,
    decreases ws.len(),
{
    if ws.len() == 0 {
    } else if ws.len() == 1 {
        assert(is_word(ws[0]));
        assert(Seq::<char>::empty() + ws[0] =~= ws[0]);
        lemma_split_append_word(Seq::<char>::empty(), ws[0]);
        assert(Seq::<Seq<char>>::empty().push(ws[0]) =~= ws);
    } else {
        let init = ws.drop_last();
        assert(all_words(init)) by {
            assert forall|i: int| 0 <= i < init.len() implies is_word(#[trigger] init[i]) by {
                assert(init[i] == ws[i]);
            }
        }
        lemma_split_join(init);
        let p = join_words(init) + seq![' '];
        assert(p.drop_last() =~= join_words(init));
        assert(is_word(ws.last()));
        lemma_split_append_word(p, ws.last());
        assert(join_words(ws) == p + ws.last());
        assert(init.push(ws.last()) =~= ws);
    }
}

/// Lowercasing an ASCII word keeps it an ASCII word, and a second time
/// changes nothing.
proof fn lemma_lower_ascii_word(w: Seq<char>)
    requires
        is_word(w),
        all_ascii(w),
    ensures
        is_word(lowercase(w)),
        all_ascii(lowercase(w)),
        lowercase(lowercase(w)) == lowercase(w),
{
    let l = lowercase(w);
    assert(l == w.map_values(|c: char| ascii_lower(c)));
    assert forall|j: int| 0 <= j < l.len() implies !unicode_whitespace(#[trigger] l[j]) && (l[j] as u32)
        < 128 by {
        assert(l[j] == ascii_lower(w[j]));
        assert(!unicode_whitespace(w[j]));
        assert((w[j] as u32) < 128);
    }
    assert(all_ascii(l));
    assert(lowercase(l) =~= l) by {
        assert forall|j: int| 0 <= j < l.len() implies lowercase(l)[j] == l[j] by {
            assert(l[j] == ascii_lower(w[j]));
        }
    }
}

/// The canonical name of an ASCII name is already canonical: canonicalising
/// it again changes nothing (no leading, trailing or doubled spaces, already
/// lowercase).
pub proof fn lemma_canonical_idempotent(name: Seq<char>)
    requires
        all_ascii(name),
    ensures
        spec_canonical_group_name(spec_canonical_group_name(name)) == spec_canonical_group_name(name),
{
    let ws = split_words(name);
    lemma_split_words_shape(name);
    let low = ws.map_values(|w: Seq<char>| lowercase(w));
    assert forall|i: int| 0 <= i < low.len() implies is_word(#[trigger] low[i]) && low[i] == lowercase(
        low[i],
    ) by {
        assert(is_word(ws[i]));
        assert(all_ascii(ws[i]));
        lemma_lower_ascii_word(ws[i]);
    }
    assert(all_words(low));
    lemma_split_join(low);
    assert(low.map_values(|w: Seq<char>| lowercase(w)) =~= low);
}

/// An ASCII name and its canonical form give the same group id.
pub proof fn lemma_group_id_of_canonical(name: Seq<char>)
    requires
        all_ascii(name),
    ensures
        spec_stable_group_id(spec_canonical_group_name(name)) == spec_stable_group_id(name),
{
    lemma_canonical_idempotent(name);
}

/// The FNV-1 style 64-bit hash of a byte string: starting from the offset
/// basis, each byte multiplies by the prime and then adds the byte, both
/// wrapping.
pub open spec fn spec_fnv(bytes: Seq<u8>) -> u64
    decreases bytes.len(),
{
    if bytes.len() == 0 {
        0xcbf2_9ce4_8422_2325u64
    } else {
        vstd::wrapping::u64_specs::wrapping_add(
            vstd::wrapping::u64_specs::wrapping_mul(spec_fnv(bytes.drop_last()), 0x0000_0100_0000_01b3u64),
            bytes.last() as u64,
        )
    }
}

/// The group id of a group name: the hash of the UTF-8 bytes of its
/// canonical name, as sixteen lowercase hex digits.
pub open spec fn spec_stable_group_id(name: Seq<char>) -> Seq<char> {
    hex_fixed(spec_fnv(vstd::utf8::encode_utf8(spec_canonical_group_name(name))) as nat, 16)
}

/// Deterministic 64-bit FNV-1-style hash of the canonical group name as hex.
pub fn stable_group_id(name: &str) -> (r: String)
    ensures
        r@ == spec_stable_group_id(name@),
{
    let canonical = canonical_group_name(name);
    let bytes = canonical.as_str().as_bytes();
    let mut hash: u64 = 0xcbf2_9ce4_8422_2325;
    let mut i: usize = 0;
    assert(bytes@.take(0) =~= Seq::<u8>::empty());
    while i < bytes.len()
        invariant
            i <= bytes@.len(),
            hash == spec_fnv(bytes@.take(i as int)),
        decreases bytes.len() - i,
    {
        assert(bytes@.take(i + 1).drop_last() =~= bytes@.take(i as int));
        hash = hash.wrapping_mul(0x0000_0100_0000_01b3);
        hash = hash.wrapping_add(bytes[i] as u64);
        i += 1;
    }
    assert(bytes@.take(bytes@.len() as int) =~= bytes@);
    hex16_string(hash)
}

/// Names with the same canonical form (however they are spaced or cased)
/// give the same group id.
pub proof fn lemma_same_canonical_same_group(a: Seq<char>, b: Seq<char>)
    requires
        spec_canonical_group_name(a) == spec_canonical_group_name(b),
    ensures
        spec_stable_group_id(a) == spec_stable_group_id(b),
{
}

/// A stored group: its id, the name it was created with, and whether it is
/// private (`1`) or public (`0`).
#[derive(Debug, Clone)]
pub struct GroupRow {
    pub group_id: String,
    pub display_name: String,
    pub is_private: i32,
}

/// What creating a public group comes to once the store was asked for the
/// group with the name's id.
#[derive(Debug, Clone)]
pub enum GroupPlan {
    /// The group is known already: it is returned as stored.
    Existing(GroupRow),
    /// The group is new: store this row.
    Create(GroupRow),
}

/// Create a public group by name, or return it if a group with the same
/// canonical name exists. `found` is what the store holds under
/// [`stable_group_id`] of the name; a new group is public, keyed by that id
/// and named by the trimmed name.
pub fn public_group_plan(name: &str, found: Option<GroupRow>) -> (r: GroupPlan)
    ensures
        match found {
            Some(g) => r == GroupPlan::Existing(g),
            None => r matches GroupPlan::Create(g) && g.group_id@ == spec_stable_group_id(name@)
                && g.display_name@ == crate::text::spec_trim(name@) && g.is_private == 0,
        },
{
    match found {
        Some(g) => GroupPlan::Existing(g),
        None => GroupPlan::Create(
            GroupRow {
                group_id: stable_group_id(name),
                display_name: crate::text::trim(name),
                is_private: 0,
            },
        ),
    }
}

} // verus!
