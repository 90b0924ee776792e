//! A small map keyed by strings (peer ids, nicknames), kept as a list of
//! entries with distinct keys.

use vstd::prelude::*;
use crate::text::str_eq;

verus! {

/// The map that a list of entries describes: later entries win.
pub open spec fn entries_map<V>(entries: Seq<(String, V)>) -> Map<Seq<char>, V>
    decreases entries.len(),
{
    if entries.len() == 0 {
        Map::empty()
    } else {
        entries_map(entries.drop_last()).insert(entries.last().0@, entries.last().1)
    }
}

/// No key occurs twice in the entries.
pub open spec fn keys_distinct<V>(entries: Seq<(String, V)>) -> bool {
    forall|i: int, j: int|
        0 <= i < entries.len() && 0 <= j < entries.len() && i != j ==> #[trigger] entries[i].0@
            != #[trigger] entries[j].0@
}

/// A map from strings to values.
#[derive(Debug)]
pub struct StrMap<V> {
    entries: Vec<(String, V)>,
}

proof fn lemma_entries_map_contains<V>(entries: Seq<(String, V)>, i: int)
    requires
        keys_distinct(entries),
        0 <= i < entries.len(),
    ensures
        entries_map(entries).contains_key(entries[i].0@),
        entries_map(entries)[entries[i].0@] == entries[i].1,
    decreases entries.len(),
{
    if i < entries.len() - 1 {
        let init = entries.drop_last();
        assert(init[i] == entries[i]);
        assert(keys_distinct(init));
        lemma_entries_map_contains(init, i);
        assert(entries[entries.len() - 1].0@ != entries[i].0@);
    }
}

proof fn lemma_entries_map_absent<V>(entries: Seq<(String, V)>, k: Seq<char>)
    requires
        forall|i: int| 0 <= i < entries.len() ==> #[trigger] entries[i].0@ != k,
    ensures
        !entries_map(entries).contains_key(k),
    decreases entries.len(),
{
    if entries.len() > 0 {
        let init = entries.drop_last();
        assert forall|i: int| 0 <= i < init.len() implies #[trigger] init[i].0@ != k by {
            assert(init[i] == entries[i]);
        }
        lemma_entries_map_absent(init, k);
    }
}

proof fn lemma_entries_map_domain<V>(entries: Seq<(String, V)>, k: Seq<char>)
    requires
        entries_map(entries).contains_key(k),
    ensures
        exists|i: int| 0 <= i < entries.len() && #[trigger] entries[i].0@ == k,
    decreases entries.len(),
{
    if entries.last().0@ != k {
        let init = entries.drop_last();
        lemma_entries_map_domain(init, k);
        let i = choose|i: int| 0 <= i < init.len() && #[trigger] init[i].0@ == k;
        assert(entries[i] == init[i]);
    }
}

proof fn lemma_entries_map_update<V>(entries: Seq<(String, V)>, i: int, k: String, v: V)
    requires
        keys_distinct(entries),
        0 <= i < entries.len(),
        k@ == entries[i].0@,
    ensures
        keys_distinct(entries.update(i, (k, v))),
        entries_map(entries.update(i, (k, v))) == entries_map(entries).insert(k@, v),
    decreases entries.len(),
{
    let e2 = entries.update(i, (k, v));
    assert forall|a: int, b: int|
        0 <= a < e2.len() && 0 <= b < e2.len() && a != b implies #[trigger] e2[a].0@
        != #[trigger] e2[b].0@ by {
        assert(e2[a].0@ == entries[a].0@);
        assert(e2[b].0@ == entries[b].0@);
    }
    if i == entries.len() - 1 {
        assert(e2.drop_last() =~= entries.drop_last());
        assert(entries_map(e2) =~= entries_map(entries).insert(k@, v));
    } else {
        let init = entries.drop_last();
        assert(keys_distinct(init));
        lemma_entries_map_update(init, i, k, v);
        assert(e2.drop_last() =~= init.update(i, (k, v)));
        assert(entries.last().0@ != entries[i].0@);
        assert(e2.last() == entries.last());
        assert(entries_map(e2) =~= entries_map(entries).insert(k@, v));
    }
}

impl<V> StrMap<V> {
    #[verifier::type_invariant]
    spec fn inv(self) -> bool {
        keys_distinct(self.entries@)
    }

    /// The key-value pairs of the map.
    pub closed spec fn view(&self) -> Map<Seq<char>, V> {
        entries_map(self.entries@)
    }

    /// The number of keys.
    pub closed spec fn size(&self) -> nat {
        self.entries@.len()
    }

    /// An empty map.
    pub fn new() -> (m: Self)
        ensures
            m.view() == Map::<Seq<char>, V>::empty(),
            m.size() == 0,
    {
        StrMap { entries: Vec::new() }
    }

    fn position(&self, key: &str) -> (r: Option<usize>)
        ensures
            match r {
                Some(i) => i < self.entries@.len() && self.entries@[i as int].0@ == key@,
                None => forall|i: int|
                    0 <= i < self.entries@.len() ==> #[trigger] self.entries@[i].0@ != key@,
            },
    {
        let mut i: usize = 0;
        while i < self.entries.len()
            invariant
                i <= self.entries@.len(),
                forall|j: int| 0 <= j < i ==> #[trigger] self.entries@[j].0@ != key@,
            decreases self.entries.len() - i,
        {
            if str_eq(self.entries[i].0.as_str(), key) {
                return Some(i);
            }
            i += 1;
        }
        None
    }

    /// Whether the map has the key.
    pub fn contains_key(&self, key: &str) -> (r: bool)
        ensures
            r == self.view().contains_key(key@),
    {
        proof {
            use_type_invariant(self);
        }
        match self.position(key) {
            Some(i) => {
                proof {
                    lemma_entries_map_contains(self.entries@, i as int);
                }
                true
            },
            None => {
                proof {
                    lemma_entries_map_absent(self.entries@, key@);
                }
                false
            },
        }
    }

    /// The value of a key, if present.
    pub fn get(&self, key: &str) -> (r: Option<&V>)
        ensures
            match r {
                Some(v) => self.view().contains_key(key@) && *v == self.view()[key@],
                None => !self.view().contains_key(key@),
            },
    {
        proof {
            use_type_invariant(self);
        }
        match self.position(key) {
            Some(i) => {
                proof {
                    lemma_entries_map_contains(self.entries@, i as int);
                }
                Some(&self.entries[i].1)
            },
            None => {
                proof {
                    lemma_entries_map_absent(self.entries@, key@);
                }
                None
            },
        }
    }

    /// Sets the value of a key, replacing an earlier value.
    pub fn insert(&mut self, key: String, value: V)
        ensures
            final(self).view() == old(self).view().insert(key@, value),
            old(self).view().dom().finite(),
            final(self).view().dom().finite(),
    {
        proof {
            use_type_invariant(&*self);
            lemma_entries_map_len(self.entries@);
        }
        let pos = self.position(key.as_str());
        let mut entries: Vec<(String, V)> = Vec::new();
        std::mem::swap(&mut entries, &mut self.entries);
        let ghost old_entries = entries@;
        match pos {
            Some(i) => {
                proof {
                    lemma_entries_map_update(old_entries, i as int, key, value);
                }
                entries[i] = (key, value);
                assert(entries@ == old_entries.update(i as int, (key, value)));
            },
            None => {
                let ghost k = key@;
                entries.push((key, value));
                proof {
                    assert(entries@.drop_last() =~= old_entries);
                    assert forall|a: int, b: int|
                        0 <= a < entries@.len() && 0 <= b < entries@.len() && a != b
                        implies #[trigger] entries@[a].0@ != #[trigger] entries@[b].0@ by {
                        if a < old_entries.len() {
                            assert(entries@[a] == old_entries[a]);
                        }
                        if b < old_entries.len() {
                            assert(entries@[b] == old_entries[b]);
                        }
                    }
                }
            },
        }
        self.entries = entries;
    }
}

proof fn lemma_entries_map_len<V>(entries: Seq<(String, V)>)
    requires
        keys_distinct(entries),
    ensures
        entries_map(entries).dom().finite(),
        entries_map(entries).dom().len() == entries.len(),
    decreases entries.len(),
{
    if entries.len() > 0 {
        let init = entries.drop_last();
        assert(keys_distinct(init));
        lemma_entries_map_len(init);
        assert forall|i: int| 0 <= i < init.len() implies #[trigger] init[i].0@ != entries.last().0@ by {
            assert(init[i] == entries[i]);
        }
        lemma_entries_map_absent(init, entries.last().0@);
    }
}

impl<V> StrMap<V> {
    /// The number of keys.
    pub fn len(&self) -> (r: usize)
        ensures
            r == self.view().dom().len(),
    {
        proof {
            use_type_invariant(self);
            lemma_entries_map_len(self.entries@);
        }
        self.entries.len()
    }

    /// Whether the map has no key.
    pub fn is_empty(&self) -> (r: bool)
        ensures
            r == (self.view().dom().len() == 0),
    {
        self.len() == 0
    }
}

impl<V: Clone> Clone for StrMap<V> {
    /// A copy with the same keys; each value is copied with its own `clone`.
    fn clone(&self) -> (r: Self)
        ensures
            r.view().dom() == self.view().dom(),
    {
        proof {
            use_type_invariant(self);
        }
        let mut entries: Vec<(String, V)> = Vec::new();
        let mut i: usize = 0;
        while i < self.entries.len()
            invariant
                i <= self.entries@.len(),
                keys_distinct(self.entries@),
                entries@.len() == i,
                forall|j: int| 0 <= j < i ==> #[trigger] entries@[j].0@ == self.entries@[j].0@,
            decreases self.entries.len() - i,
        {
            let k = self.entries[i].0.clone();
            let v = self.entries[i].1.clone();
            entries.push((k, v));
            i += 1;
        }
        proof {
            assert forall|a: int, b: int|
                0 <= a < entries@.len() && 0 <= b < entries@.len() && a != b
                implies #[trigger] entries@[a].0@ != #[trigger] entries@[b].0@ by {
                assert(entries@[a].0@ == self.entries@[a].0@);
                assert(entries@[b].0@ == self.entries@[b].0@);
            }
            lemma_same_keys_same_domain(entries@, self.entries@);
        }
        StrMap { entries }
    }
}

proof fn lemma_same_keys_same_domain<V>(a: Seq<(String, V)>, b: Seq<(String, V)>)
    requires
        a.len() == b.len(),
        forall|j: int| 0 <= j < a.len() ==> #[trigger] a[j].0@ == b[j].0@,
    ensures
        entries_map(a).dom() == entries_map(b).dom(),
    decreases a.len(),
{
    if a.len() > 0 {
        let ai = a.drop_last();
        let bi = b.drop_last();
        assert forall|j: int| 0 <= j < ai.len() implies #[trigger] ai[j].0@ == bi[j].0@ by {
            assert(ai[j] == a[j]);
            assert(bi[j] == b[j]);
        }
        lemma_same_keys_same_domain(ai, bi);
        assert(entries_map(a).dom() =~= entries_map(b).dom());
    }
}

proof fn lemma_entries_map_remove<V>(entries: Seq<(String, V)>, i: int)
    requires
        keys_distinct(entries),
        0 <= i < entries.len(),
    ensures
        keys_distinct(entries.remove(i)),
        entries_map(entries.remove(i)) == entries_map(entries).remove(entries[i].0@),
{
    let e2 = entries.remove(i);
    let k = entries[i].0@;
    assert forall|a: int, b: int|
        0 <= a < e2.len() && 0 <= b < e2.len() && a != b implies #[trigger] e2[a].0@
        != #[trigger] e2[b].0@ by {
        let a0 = if a < i { a } else { a + 1 };
        let b0 = if b < i { b } else { b + 1 };
        assert(e2[a] == entries[a0]);
        assert(e2[b] == entries[b0]);
    }
    let m1 = entries_map(e2);
    let m2 = entries_map(entries).remove(k);
    assert forall|key: Seq<char>| #[trigger] m1.contains_key(key) implies m2.contains_key(key)
        && m1[key] == m2[key] by {
        lemma_entries_map_domain(e2, key);
        let j = choose|j: int| 0 <= j < e2.len() && #[trigger] e2[j].0@ == key;
        let j0 = if j < i { j } else { j + 1 };
        assert(e2[j] == entries[j0]);
        lemma_entries_map_contains(e2, j);
        lemma_entries_map_contains(entries, j0);
    }
    assert forall|key: Seq<char>| #[trigger] m2.contains_key(key) implies m1.contains_key(key) by {
        lemma_entries_map_domain(entries, key);
        let j0 = choose|j: int| 0 <= j < entries.len() && #[trigger] entries[j].0@ == key;
        let j = if j0 < i { j0 } else { j0 - 1 };
        assert(e2[j] == entries[j0]);
        lemma_entries_map_contains(e2, j);
    }
    assert(m1 =~= m2);
}

impl<V> StrMap<V> {
    /// Removes a key, handing back its value if it was present.
    pub fn remove(&mut self, key: &str) -> (r: Option<V>)
        ensures
            final(self).view() == old(self).view().remove(key@),
            old(self).view().dom().finite(),
            final(self).view().dom().finite(),
            r == (if old(self).view().contains_key(key@) {
                Some(old(self).view()[key@])
            } else {
                None
            }),
    {
        proof {
            use_type_invariant(&*self);
            lemma_entries_map_len(self.entries@);
        }
        match self.position(key) {
            Some(i) => {
                let mut entries: Vec<(String, V)> = Vec::new();
                std::mem::swap(&mut entries, &mut self.entries);
                let ghost old_entries = entries@;
                proof {
                    lemma_entries_map_contains(old_entries, i as int);
                    lemma_entries_map_remove(old_entries, i as int);
                }
                let (_k, v) = entries.remove(i);
                self.entries = entries;
                Some(v)
            },
            None => {
                proof {
                    lemma_entries_map_absent(self.entries@, key@);
                    assert(self.view().remove(key@) =~= self.view());
                }
                None
            },
        }
    }
}

impl<V> StrMap<V> {
    /// The keys, each once, in the order they were first inserted.
    pub fn keys(&self) -> (r: Vec<String>)
        ensures
            r@.map_values(|s: String| s@).to_set() == self.view().dom(),
            r@.map_values(|s: String| s@).no_duplicates(),
    {
        proof {
            use_type_invariant(self);
        }
        let mut out: Vec<String> = Vec::new();
        let mut i: usize = 0;
        while i < self.entries.len()
            invariant
                i <= self.entries@.len(),
                keys_distinct(self.entries@),
                out@.len() == i,
                forall|j: int| 0 <= j < i ==> (#[trigger] out@[j])@ == self.entries@[j].0@,
            decreases self.entries.len() - i,
        {
            out.push(self.entries[i].0.clone());
            i += 1;
        }
        let ghost ks = out@.map_values(|s: String| s@);
        proof {
            assert forall|k: Seq<char>| #[trigger] ks.to_set().contains(k) implies self.view().dom().contains(k) by {
                let j = choose|j: int| 0 <= j < ks.len() && ks[j] == k;
                lemma_entries_map_contains(self.entries@, j);
            }
            assert forall|k: Seq<char>| #[trigger] self.view().dom().contains(k) implies ks.to_set().contains(k) by {
                lemma_entries_map_domain(self.entries@, k);
                let j = choose|j: int| 0 <= j < self.entries@.len() && #[trigger] self.entries@[j].0@ == k;
                assert(ks[j] == k);
            }
            assert(ks.to_set() =~= self.view().dom());
            assert forall|a: int, b: int| 0 <= a < ks.len() && 0 <= b < ks.len() && a != b implies ks[a] != ks[b] by {
                assert(ks[a] == self.entries@[a].0@);
                assert(ks[b] == self.entries@[b].0@);
            }
        }
        out
    }
}

} // verus!
