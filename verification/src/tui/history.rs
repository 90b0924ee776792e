//! Bounded histories of the terminal front end.

use vstd::prelude::*;
use std::collections::VecDeque;

verus! {

/// Trim a queue to at most `limit` items by removing the oldest (front) ones;
/// the newest `limit` items stay, in order.
pub fn trim_history<T>(queue: &mut VecDeque<T>, limit: usize)
    ensures
        final(queue)@ == if old(queue)@.len() > limit {
            old(queue)@.skip(old(queue)@.len() - limit)
        } else {
            old(queue)@
        },
{
    let ghost orig = queue@;
    let ghost mut k: int = 0;
    assert(orig.skip(0) =~= orig);
    while queue.len() > limit
        invariant
            0 <= k <= orig.len(),
            queue@ == orig.skip(k),
            k > 0 ==> queue@.len() >= limit,
        decreases queue@.len(),
    {
        queue.pop_front();
        assert(queue@ =~= orig.skip(k + 1));
        proof {
            k = k + 1;
        }
    }
    assert(orig.len() > limit ==> k == orig.len() - limit);
    assert(orig.len() <= limit ==> k == 0);
}

/// A loaded peer row: its id, first-seen and last-seen texts.
pub open spec fn row_view(r: (String, String, String)) -> (Seq<char>, Seq<char>, Seq<char>) {
    (r.0@, r.1@, r.2@)
}

/// Rows as plain values.
pub open spec fn rows_view(v: Seq<(String, String, String)>) -> Seq<(Seq<char>, Seq<char>, Seq<char>)> {
    v.map_values(|r: (String, String, String)| row_view(r))
}

/// Whether a row before index `i` has the id `id`.
pub open spec fn id_seen_before(s: Seq<(Seq<char>, Seq<char>, Seq<char>)>, i: int, id: Seq<char>) -> bool {
    exists|j: int| 0 <= j < i && #[trigger] s[j].0 == id
}

/// The rows with the first occurrence of each id, in order.
pub open spec fn first_by_id(s: Seq<(Seq<char>, Seq<char>, Seq<char>)>) -> Seq<(Seq<char>, Seq<char>, Seq<char>)>
    decreases s.len(),
{
    if s.len() == 0 {
        Seq::empty()
    } else {
        let d = first_by_id(s.drop_last());
        if id_seen_before(s, s.len() - 1, s.last().0) {
            d
        } else {
            d.push(s.last())
        }
    }
}

/// At most the first `limit` items.
pub open spec fn capped<T>(q: Seq<T>, limit: nat) -> Seq<T> {
    if q.len() > limit {
        q.take(limit as int)
    } else {
        q
    }
}

proof fn lemma_first_by_id_prefix(s: Seq<(Seq<char>, Seq<char>, Seq<char>)>, i: int)
    requires
        0 <= i <= s.len(),
    ensures
        first_by_id(s.take(i)).len() <= first_by_id(s).len(),
        first_by_id(s.take(i)) == first_by_id(s).take(first_by_id(s.take(i)).len() as int),
    decreases s.len() - i,
{
    if i < s.len() {
        lemma_first_by_id_prefix(s, i + 1);
        let t = s.take(i + 1);
        assert(t.drop_last() =~= s.take(i));
        assert forall|j: int| 0 <= j < i implies t[j] == s[j] by {}
        assert(id_seen_before(t, i, t.last().0) == id_seen_before(s, i, s[i].0)) by {
            if id_seen_before(s, i, s[i].0) {
                let j = choose|j: int| 0 <= j < i && #[trigger] s[j].0 == s[i].0;
                assert(t[j].0 == t.last().0);
            }
            if id_seen_before(t, i, t.last().0) {
                let j = choose|j: int| 0 <= j < i && #[trigger] t[j].0 == t.last().0;
                assert(s[j].0 == s[i].0);
            }
        }
        let a = first_by_id(s.take(i));
        let b = first_by_id(t);
        let f = first_by_id(s);
        assert(a =~= b.take(a.len() as int));
        assert(a =~= f.take(a.len() as int));
    } else {
        assert(s.take(i) =~= s);
    }
}

/// The peers to show at start: the rows as loaded, each peer id once (its
/// first row kept), at most `limit` of them.
pub fn unique_peers(rows: &Vec<(String, String, String)>, limit: usize) -> (r: VecDeque<(String, String, String)>)
    ensures
        rows_view(r@) == capped(first_by_id(rows_view(rows@)), limit as nat),
{
    let ghost all = rows_view(rows@);
    let mut out: VecDeque<(String, String, String)> = VecDeque::new();
    let mut i: usize = 0;
    assert(all.take(0) =~= Seq::<(Seq<char>, Seq<char>, Seq<char>)>::empty());
    while i < rows.len()
        invariant
            i <= rows@.len(),
            all == rows_view(rows@),
            rows_view(out@) == first_by_id(all.take(i as int)),
            out@.len() <= limit,
        decreases rows.len() - i,
    {
        let mut seen = false;
        let mut j: usize = 0;
        while j < i
            invariant
                j <= i,
                i < rows@.len(),
                all == rows_view(rows@),
                seen == id_seen_before(all, j as int, all[i as int].0),
            decreases i - j,
        {
            if crate::text::str_eq(rows[j].0.as_str(), rows[i].0.as_str()) {
                seen = true;
            }
            proof {
                if seen && !id_seen_before(all, j as int, all[i as int].0) {
                    assert(all[j as int].0 == all[i as int].0);
                }
                if id_seen_before(all, j + 1, all[i as int].0) && !seen {
                    let k = choose|k: int| 0 <= k < j + 1 && #[trigger] all[k].0 == all[i as int].0;
                    assert(k < j || all[j as int].0 == all[i as int].0);
                }
            }
            j += 1;
        }
        let ghost t = all.take(i + 1);
        proof {
            assert(t.drop_last() =~= all.take(i as int));
            assert(id_seen_before(t, i as int, t.last().0) == id_seen_before(all, i as int, all[i as int].0)) by {
                if id_seen_before(all, i as int, all[i as int].0) {
                    let k = choose|k: int| 0 <= k < i && #[trigger] all[k].0 == all[i as int].0;
                    assert(t[k].0 == t.last().0);
                }
                if id_seen_before(t, i as int, t.last().0) {
                    let k = choose|k: int| 0 <= k < i && #[trigger] t[k].0 == t.last().0;
                    assert(all[k].0 == all[i as int].0);
                }
            }
        }
        if !seen {
            if out.len() >= limit {
                proof {
                    lemma_first_by_id_prefix(all, i + 1);
                    assert(first_by_id(t) == first_by_id(all.take(i as int)).push(all[i as int]));
                    assert(all.take(rows@.len() as int) =~= all);
                    let f = first_by_id(all);
                    assert(f.len() > limit);
                    assert(rows_view(out@) =~= f.take(limit as int));
                }
                return out;
            }
            let row = (
                crate::text::owned(rows[i].0.as_str()),
                crate::text::owned(rows[i].1.as_str()),
                crate::text::owned(rows[i].2.as_str()),
            );
            out.push_back(row);
            assert(rows_view(out@) =~= first_by_id(all.take(i as int)).push(all[i as int]));
        }
        i += 1;
    }
    assert(all.take(rows@.len() as int) =~= all);
    out
}

} // verus!
