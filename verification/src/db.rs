//! Database selection: which database file a node uses, the lock files that
//! keep two processes off one database, and the names of new databases.

use vstd::prelude::*;
use crate::text::{chars_of, decimal, decimal_string, digit_char, owned, spec_trim, string_from_range, trim};
use vstd::string::StringExecFns;

verus! {

/// Value of a run of decimal digits.
pub open spec fn digits_value(s: Seq<char>) -> int
    decreases s.len(),
{
    if s.len() == 0 {
        0
    } else {
        digits_value(s.drop_last()) * 10 + (s.last() as int - '0' as int)
    }
}

/// Every character is an ASCII digit.
pub open spec fn all_digits(s: Seq<char>) -> bool {
    forall|i: int| 0 <= i < s.len() ==> '0' <= #[trigger] s[i] <= '9'
}

/// A decimal `u32` as `str::parse` reads it: an optional `+`, then at least
/// one digit and nothing else, with a value that fits.
pub open spec fn spec_parse_u32(s: Seq<char>) -> Option<u32> {
    let d = if s.len() > 0 && s[0] == '+' {
        s.drop_first()
    } else {
        s
    };
    if d.len() > 0 && all_digits(d) && digits_value(d) <= u32::MAX {
        Some(digits_value(d) as u32)
    } else {
        None
    }
}

proof fn lemma_digits_value_nonneg(s: Seq<char>)
    requires
        all_digits(s),
    ensures
        digits_value(s) >= 0,
    decreases s.len(),
{
    if s.len() > 0 {
        lemma_digits_value_nonneg(s.drop_last());
    }
}

/// Read a decimal `u32` (see [`spec_parse_u32`]).
pub fn parse_u32(s: &str) -> (r: Option<u32>)
    ensures
        r == spec_parse_u32(s@),
{
    let cs = chars_of(s);
    let n = cs.len();
    let start: usize = if n > 0 && cs[0] == '+' {
        1
    } else {
        0
    };
    let ghost d = if s@.len() > 0 && s@[0] == '+' {
        s@.drop_first()
    } else {
        s@
    };
    assert(d =~= s@.subrange(start as int, n as int));
    if start == n {
        return None;
    }
    let mut value: u64 = 0;
    let mut i: usize = start;
    assert(s@.subrange(start as int, start as int) =~= Seq::<char>::empty());
    while i < n
        invariant
            cs@ == s@,
            n == cs@.len(),
            start <= i <= n,
            d == s@.subrange(start as int, n as int),
            d == (if s@.len() > 0 && s@[0] == '+' {
                s@.drop_first()
            } else {
                s@
            }),
            all_digits(s@.subrange(start as int, i as int)),
            value == digits_value(s@.subrange(start as int, i as int)),
            value <= u32::MAX,
        decreases n - i,
    {
        let c = cs[i];
        if c < '0' || c > '9' {
            assert(d[i - start] == c);
            assert(!all_digits(d));
            return None;
        }
        let digit = (c as u32 - '0' as u32) as u64;
        let ghost next = s@.subrange(start as int, i + 1);
        assert(next.drop_last() =~= s@.subrange(start as int, i as int));
        assert(next.last() == c);
        let v = value * 10 + digit;
        assert(digits_value(next) == v);
        if v > 4294967295 {
            proof {
                let rest = s@.subrange(start as int, n as int);
                assert(all_digits(next));
                assert(rest.take(i + 1 - start) =~= next);
                lemma_digits_prefix_bound(rest, i + 1 - start);
                assert(!(d.len() > 0 && all_digits(d) && digits_value(d) <= u32::MAX));
            }
            return None;
        }
        value = v;
        i += 1;
    }
    assert(s@.subrange(start as int, n as int) == d);
    Some(value as u32)
}

/// A longer run of digits is worth at least as much as its prefix.
proof fn lemma_digits_prefix_bound(s: Seq<char>, k: int)
    requires
        0 <= k <= s.len(),
        all_digits(s.take(k)),
    ensures
        all_digits(s) ==> digits_value(s) >= digits_value(s.take(k)),
    decreases s.len() - k,
{
    if k < s.len() && all_digits(s) {
        assert(all_digits(s.take(k + 1)));
        lemma_digits_prefix_bound(s, k + 1);
        assert(s.take(k + 1).drop_last() =~= s.take(k));
        lemma_digits_value_nonneg(s.take(k));
    } else if k == s.len() {
        assert(s.take(k) =~= s);
    }
}

/// What a database lock file holds.
#[derive(Debug, Clone, Copy, PartialEq, Eq, Structural)]
pub enum LockContent {
    /// A process id of zero: the lock is stale.
    Zero,
    /// A process id.
    Pid(u32),
    /// Anything that is not a process id: the lock is stale.
    Invalid,
}

/// What the text of a lock file holds: its trimmed text read as a process id.
pub open spec fn spec_lock_content(text: Seq<char>) -> LockContent {
    match spec_parse_u32(spec_trim(text)) {
        Some(pid) => if pid == 0 {
            LockContent::Zero
        } else {
            LockContent::Pid(pid)
        },
        None => LockContent::Invalid,
    }
}

/// Read the text of a lock file (see [`spec_lock_content`]).
pub fn lock_content(text: &str) -> (r: LockContent)
    ensures
        r == spec_lock_content(text@),
{
    let t = trim(text);
    match parse_u32(t.as_str()) {
        Some(pid) => if pid == 0 {
            LockContent::Zero
        } else {
            LockContent::Pid(pid)
        },
        None => LockContent::Invalid,
    }
}

/// What to do about an existing lock file when claiming its database.
#[derive(Debug, Clone, Copy, PartialEq, Eq, Structural)]
pub enum LockClaim {
    /// The lock is ours already: use the database.
    Ours,
    /// The lock is stale: remove it and try to take it.
    Reclaim,
    /// Ask whether this process is alive: if it is, the database is taken;
    /// if not, remove the lock and try to take it.
    CheckAlive(u32),
}

/// How a process claims a database whose lock file it could read: its own id
/// means it holds the lock, a zero or unreadable id is stale, another id
/// depends on whether that process lives.
pub open spec fn spec_lock_claim(content: LockContent, my_pid: u32) -> LockClaim {
    match content {
        LockContent::Pid(p) => if p == my_pid {
            LockClaim::Ours
        } else {
            LockClaim::CheckAlive(p)
        },
        _ => LockClaim::Reclaim,
    }
}

/// Decide how to claim a database from its lock file's text (see
/// [`spec_lock_claim`]).
pub fn lock_claim(text: &str, my_pid: u32) -> (r: LockClaim)
    ensures
        r == spec_lock_claim(spec_lock_content(text@), my_pid),
{
    match lock_content(text) {
        LockContent::Pid(p) => if p == my_pid {
            LockClaim::Ours
        } else {
            LockClaim::CheckAlive(p)
        },
        _ => LockClaim::Reclaim,
    }
}

/// The text without every leading repetition of `p`.
pub open spec fn strip_prefixes(s: Seq<char>, p: Seq<char>) -> Seq<char>
    decreases s.len(),
{
    if p.len() > 0 && s.len() >= p.len() && s.take(p.len() as int) == p {
        strip_prefixes(s.skip(p.len() as int), p)
    } else {
        s
    }
}

/// The text without every trailing repetition of `p`.
pub open spec fn strip_suffixes(s: Seq<char>, p: Seq<char>) -> Seq<char>
    decreases s.len(),
{
    if p.len() > 0 && s.len() >= p.len() && s.skip(s.len() - p.len()) == p {
        strip_suffixes(s.take(s.len() - p.len()), p)
    } else {
        s
    }
}

/// The number in a database file name `sqlite_<n>.db`: the name without
/// its leading `sqlite_` and trailing `.db` repetitions, read as a `u32`.
pub open spec fn spec_db_number(name: Seq<char>) -> Option<u32> {
    spec_parse_u32(strip_suffixes(strip_prefixes(name, "sqlite_"@), ".db"@))
}

fn text_at(cs: &Vec<char>, at: usize, p: &Vec<char>) -> (r: bool)
    requires
        at + p@.len() <= cs@.len(),
    ensures
        r == (cs@.subrange(at as int, at + p@.len()) == p@),
{
    let mut k: usize = 0;
    while k < p.len()
        invariant
            at + p@.len() <= cs@.len(),
            k <= p@.len(),
            forall|j: int| 0 <= j < k ==> cs@[at + j] == p@[j],
        decreases p.len() - k,
    {
        assert(at + k < cs.len());
        let idx: usize = at + k;
        if cs[idx] != p[k] {
            assert(cs@.subrange(at as int, at + p@.len())[k as int] != p@[k as int]);
            return false;
        }
        k += 1;
    }
    assert(cs@.subrange(at as int, at + p@.len()) =~= p@);
    true
}

/// The number in a database file name (see [`spec_db_number`]).
pub fn db_number(name: &str) -> (r: Option<u32>)
    ensures
        r == spec_db_number(name@),
{
    let cs = chars_of(name);
    let pre = chars_of("sqlite_");
    let suf = chars_of(".db");
    let n = cs.len();
    let plen = pre.len();
    let slen = suf.len();
    let mut a: usize = 0;
    assert(name@.subrange(0, n as int) =~= name@);
    while plen > 0 && plen <= n - a && text_at(&cs, a, &pre)
        invariant
            cs@ == name@,
            pre@ == "sqlite_"@,
            n == cs@.len(),
            plen == pre@.len(),
            a <= n,
            strip_prefixes(name@, "sqlite_"@) == strip_prefixes(name@.subrange(a as int, n as int), "sqlite_"@),
        decreases n - a,
    {
        assert(name@.subrange(a as int, n as int).take(plen as int) =~= name@.subrange(a as int, a + plen));
        assert(name@.subrange(a as int, n as int).skip(plen as int) =~= name@.subrange(a + plen, n as int));
        a += plen;
    }
    proof {
        if plen > 0 && a + plen <= n {
            assert(name@.subrange(a as int, n as int).take(plen as int) =~= name@.subrange(a as int, a + plen));
        }
    }
    let mut b: usize = n;
    while slen > 0 && slen <= b - a && text_at(&cs, b - slen, &suf)
        invariant
            cs@ == name@,
            suf@ == ".db"@,
            n == cs@.len(),
            slen == suf@.len(),
            a <= b <= n,
            strip_suffixes(strip_prefixes(name@, "sqlite_"@), ".db"@) == strip_suffixes(
                name@.subrange(a as int, b as int),
                ".db"@,
            ),
        decreases b - a,
    {
        let ghost m = name@.subrange(a as int, b as int);
        assert(m.skip(m.len() - slen) =~= name@.subrange(b - slen, b as int));
        assert(m.take(m.len() - slen) =~= name@.subrange(a as int, b - slen));
        b -= slen;
    }
    proof {
        let m = name@.subrange(a as int, b as int);
        if slen > 0 && a + slen <= b {
            assert(m.skip(m.len() - slen) =~= name@.subrange(b - slen, b as int));
        }
    }
    let core = string_from_range(cs.as_slice(), a, b);
    parse_u32(core.as_str())
}

/// The largest number among database file names, `0` when none has one.
pub open spec fn spec_max_db_number(names: Seq<Seq<char>>) -> u32
    decreases names.len(),
{
    if names.len() == 0 {
        0
    } else {
        let rest = spec_max_db_number(names.drop_last());
        match spec_db_number(names.last()) {
            Some(k) => if k > rest {
                k
            } else {
                rest
            },
            None => rest,
        }
    }
}

/// The largest number among database file names (see
/// [`spec_max_db_number`]).
pub fn max_db_number(names: &Vec<String>) -> (r: u32)
    ensures
        r == spec_max_db_number(names@.map_values(|s: String| s@)),
{
    let ghost all = names@.map_values(|s: String| s@);
    let mut best: u32 = 0;
    let mut i: usize = 0;
    assert(all.take(0) =~= Seq::<Seq<char>>::empty());
    while i < names.len()
        invariant
            all == names@.map_values(|s: String| s@),
            i <= names@.len(),
            best == spec_max_db_number(all.take(i as int)),
        decreases names.len() - i,
    {
        assert(all.take(i + 1).drop_last() =~= all.take(i as int));
        assert(all.take(i + 1).last() == names@[i as int]@);
        match db_number(names[i].as_str()) {
            Some(k) => if k > best {
                best = k;
            },
            None => {},
        }
        i += 1;
    }
    assert(all.take(names@.len() as int) =~= all);
    best
}

/// The number of the database file to try on a given attempt to create a new
/// one: one above the largest, then (from the second retry on) the attempt
/// count above it; saturating.
pub open spec fn candidate_number(max_n: u32, attempts: u32) -> u32 {
    let step: int = if attempts == 0 {
        1
    } else {
        attempts as int
    };
    if max_n + step > u32::MAX {
        u32::MAX
    } else {
        (max_n + step) as u32
    }
}

/// How many attempts to create a new database file are made before the
/// fallback name is used.
pub const MAX_DB_ATTEMPTS: u32 = 1000;

/// The name of the database file to try, `sqlite_<n>.db`, or `None` once
/// more than `MAX_DB_ATTEMPTS` attempts failed (the fallback `sqlite.db` is
/// used then).
pub fn db_candidate(max_n: u32, attempts: u32) -> (r: Option<String>)
    ensures
        match r {
            Some(name) => attempts <= MAX_DB_ATTEMPTS && name@ == "sqlite_"@ + decimal(
                candidate_number(max_n, attempts) as nat,
            ) + ".db"@,
            None => attempts > MAX_DB_ATTEMPTS,
        },
{
    if attempts > MAX_DB_ATTEMPTS {
        return None;
    }
    let step: u32 = if attempts == 0 {
        1
    } else {
        attempts
    };
    let n = max_n.saturating_add(step);
    let mut name = owned("sqlite_");
    name.append(decimal_string(n as u64).as_str());
    name.append(".db");
    Some(name)
}

/// The lock file of a database: its path with `.lock` appended.
pub fn lock_path(url: &str) -> (r: String)
    ensures
        r@ == url@ + ".lock"@,
{
    let mut p = owned(url);
    p.append(".lock");
    p
}

/// Use the given database for this thread from now on; the cached display
/// names belonged to the old store and are forgotten.
pub fn set_db_url(slot: &mut Option<String>, names: &mut crate::nickname::DisplayNameCache, url: &str)
    ensures
        *final(slot) matches Some(u) && u@ == url@,
        final(names)@ == Map::<Seq<char>, Seq<char>>::empty(),
{
    *slot = Some(owned(url));
    names.clear();
}

/// Forget this thread's database choice; the next use selects one anew. The
/// cached display names are forgotten too.
pub fn reset_db_url(slot: &mut Option<String>, names: &mut crate::nickname::DisplayNameCache)
    ensures
        *final(slot) is None,
        final(names)@ == Map::<Seq<char>, Seq<char>>::empty(),
{
    *slot = None;
    names.clear();
}

proof fn lemma_digit_value(d: nat)
    requires
        d < 10,
    ensures
        digit_char(d) as int - '0' as int == d,
        '0' <= digit_char(d) <= '9',
{
}

proof fn lemma_decimal_digits(n: nat)
    ensures
        all_digits(decimal(n)),
        digits_value(decimal(n)) == n,
        decimal(n).len() > 0,
        decimal(n)[0] != '+',
    decreases n,
{
    lemma_digit_value(n % 10);
    if n < 10 {
        let d = decimal(n);
        assert(d.drop_last() =~= Seq::<char>::empty());
        assert(d.last() == digit_char(n));
        assert(digits_value(d) == digits_value(d.drop_last()) * 10 + (d.last() as int - '0' as int));
    } else {
        lemma_decimal_digits(n / 10);
        let d = decimal(n);
        assert(n == (n / 10) * 10 + n % 10);
        assert(digits_value(d) == digits_value(d.drop_last()) * 10 + (d.last() as int - '0' as int));
        assert(d.drop_last() == decimal(n / 10));
        assert(d.last() == digit_char(n % 10));
        assert(d[0] == decimal(n / 10)[0]);
        assert forall|i: int| 0 <= i < d.len() implies '0' <= #[trigger] d[i] <= '9' by {
            if i < d.len() - 1 {
                assert(d[i] == decimal(n / 10)[i]);
            }
        }
    }
}

/// A process id written in decimal reads back as that id: the lock file a
/// process writes names it.
pub proof fn lemma_parse_decimal_round_trip(n: u32)
    ensures
        spec_parse_u32(decimal(n as nat)) == Some(n),
{
    lemma_decimal_digits(n as nat);
}

/// The file `sqlite_<n>.db` that a new database gets is numbered `n`, so the
/// next search for the largest number sees it.
pub proof fn lemma_candidate_number_round_trip(n: u32)
    ensures
        spec_db_number("sqlite_"@ + decimal(n as nat) + ".db"@) == Some(n),
{
    reveal_strlit("sqlite_");
    reveal_strlit(".db");
    let p = "sqlite_"@;
    let x = ".db"@;
    let digits = decimal(n as nat);
    lemma_decimal_digits(n as nat);
    let name = p + digits + x;
    assert(name.take(7) =~= p);
    assert(name.skip(7) =~= digits + x);
    let rest = digits + x;
    assert(!(rest.len() >= 7 && rest.take(7) == p)) by {
        if rest.len() >= 7 {
            assert(rest.take(7)[0] == digits[0]);
            assert('0' <= digits[0] <= '9');
            assert(p[0] == 's');
        }
    }
    assert(strip_prefixes(rest, p) == rest);
    assert(strip_prefixes(name, p) == rest);
    assert(rest.skip(rest.len() - 3) =~= x);
    assert(rest.take(rest.len() - 3) =~= digits);
    assert(digits.len() < 3 || digits.skip(digits.len() - 3) != x) by {
        if digits.len() >= 3 {
            assert(digits.skip(digits.len() - 3)[2] == digits[digits.len() - 1]);
        }
    }
    assert(strip_suffixes(digits, x) == digits);
    assert(strip_suffixes(rest, x) == digits);
}

/// A new row of the identities table: the encoded node identity.
#[derive(Debug)]
pub struct NewIdentity {
    /// The protobuf encoding of the identity keypair.
    pub key: Vec<u8>,
}

} // verus!
