//! Character-level string helpers shared by the formatting code.

use vstd::prelude::*;

verus! {

/// Appends one character to a string.
///
/// Calls `String::push`, which std documents as appending the given `char`
/// to the end of the string; the contract says exactly that of the view.
#[verifier::external_body]
pub(crate) fn push_char(s: &mut String, c: char)
    ensures
        final(s)@ == old(s)@.push(c),
{
    s.push(c);
}

/// The characters of a string, in order.
pub fn chars_of(s: &str) -> (v: Vec<char>)
    ensures
        v@ == s@,
{
    let mut v: Vec<char> = Vec::new();
    for c in it: s.chars()
        invariant
            it.seq() == s@,
            v@ == it.seq().take(it.index() as int),
    {
        v.push(c);
    }
    v
}

/// Builds a string from a slice of characters.
pub fn string_from_chars(cs: &[char]) -> (r: String)
    ensures
        r@ == cs@,
{
    let mut r = String::new();
    let mut i: usize = 0;
    while i < cs.len()
        invariant
            i <= cs.len(),
            r@ == cs@.take(i as int),
        decreases cs.len() - i,
    {
        push_char(&mut r, cs[i]);
        assert(cs@.take(i + 1) =~= cs@.take(i as int).push(cs@[i as int]));
        i += 1;
    }
    assert(cs@.take(cs.len() as int) =~= cs@);
    r
}

/// Copies a string slice into an owned string.
pub fn owned(s: &str) -> (r: String)
    ensures
        r@ == s@,
{
    s.to_string()
}

/// Concatenation of a sequence of character sequences.
pub open spec fn concat_all(parts: Seq<Seq<char>>) -> Seq<char>
    decreases parts.len(),
{
    if parts.len() == 0 {
        Seq::empty()
    } else {
        concat_all(parts.drop_last()) + parts.last()
    }
}

/// The decimal digit character of a value below ten.
pub open spec fn digit_char(d: nat) -> char {
    if d == 0 {
        '0'
    } else if d == 1 {
        '1'
    } else if d == 2 {
        '2'
    } else if d == 3 {
        '3'
    } else if d == 4 {
        '4'
    } else if d == 5 {
        '5'
    } else if d == 6 {
        '6'
    } else if d == 7 {
        '7'
    } else if d == 8 {
        '8'
    } else {
        '9'
    }
}

/// The lowercase hexadecimal digit character of a value below sixteen.
pub open spec fn hex_digit_char(d: nat) -> char {
    if d < 10 {
        digit_char(d)
    } else if d == 10 {
        'a'
    } else if d == 11 {
        'b'
    } else if d == 12 {
        'c'
    } else if d == 13 {
        'd'
    } else if d == 14 {
        'e'
    } else {
        'f'
    }
}

/// Decimal notation of a natural number, without leading zeros
/// (zero is written `0`).
pub open spec fn decimal(n: nat) -> Seq<char>
    decreases n,
{
    if n < 10 {
        seq![digit_char(n)]
    } else {
        decimal(n / 10).push(digit_char(n % 10))
    }
}

/// Lowercase hexadecimal notation of a natural number, without leading zeros.
pub open spec fn hex(n: nat) -> Seq<char>
    decreases n,
{
    if n < 16 {
        seq![hex_digit_char(n)]
    } else {
        hex(n / 16).push(hex_digit_char(n % 16))
    }
}

/// The last `width` lowercase hexadecimal digits of `n`, zero-padded.
pub open spec fn hex_fixed(n: nat, width: nat) -> Seq<char>
    decreases width,
{
    if width == 0 {
        Seq::empty()
    } else {
        hex_fixed(n / 16, (width - 1) as nat).push(hex_digit_char(n % 16))
    }
}

fn digit(d: u64) -> (c: char)
    requires
        d < 10,
    ensures
        c == digit_char(d as nat),
{
    if d == 0 {
        '0'
    } else if d == 1 {
        '1'
    } else if d == 2 {
        '2'
    } else if d == 3 {
        '3'
    } else if d == 4 {
        '4'
    } else if d == 5 {
        '5'
    } else if d == 6 {
        '6'
    } else if d == 7 {
        '7'
    } else if d == 8 {
        '8'
    } else {
        '9'
    }
}

/// The lowercase hexadecimal digit of a value below sixteen.
pub fn hex_digit(d: u64) -> (c: char)
    requires
        d < 16,
    ensures
        c == hex_digit_char(d as nat),
{
    if d < 10 {
        digit(d)
    } else if d == 10 {
        'a'
    } else if d == 11 {
        'b'
    } else if d == 12 {
        'c'
    } else if d == 13 {
        'd'
    } else if d == 14 {
        'e'
    } else {
        'f'
    }
}

/// Decimal notation of `n`, as `{}` formats an unsigned integer.
pub fn decimal_string(n: u64) -> (r: String)
    ensures
        r@ == decimal(n as nat),
    decreases n,
{
    if n < 10 {
        let mut r = String::new();
        push_char(&mut r, digit(n));
        assert(r@ =~= seq![digit_char(n as nat)]);
        r
    } else {
        let mut r = decimal_string(n / 10);
        push_char(&mut r, digit(n % 10));
        r
    }
}

/// Lowercase hexadecimal notation of `n`, as `{:x}` formats an unsigned integer.
pub fn hex_string(n: u128) -> (r: String)
    ensures
        r@ == hex(n as nat),
    decreases n,
{
    if n < 16 {
        let mut r = String::new();
        push_char(&mut r, hex_digit(n as u64));
        assert(r@ =~= seq![hex_digit_char(n as nat)]);
        r
    } else {
        let mut r = hex_string(n / 16);
        push_char(&mut r, hex_digit((n % 16) as u64));
        r
    }
}

/// The sixteen-digit zero-padded lowercase hexadecimal notation of `n`,
/// as `{:016x}` formats a `u64`.
pub fn hex16_string(n: u64) -> (r: String)
    ensures
        r@ == hex_fixed(n as nat, 16),
        r@.len() == 16,
{
    let mut digits: Vec<char> = Vec::new();
    let mut rest: u64 = n;
    let mut k: usize = 0;
    assert(pow16(0) == 1);
    assert(n as nat / 1 == n as nat);
    while k < 16
        invariant
            k <= 16,
            digits@.len() == k,
            rest as nat == n as nat / pow16(k as nat),
            forall|j: int| 0 <= j < k ==> #[trigger] digits@[j] == hex_digit_char(
                (n as nat / pow16(j as nat)) % 16,
            ),
        decreases 16 - k,
    {
        proof {
            lemma_pow16_step(n as nat, k as nat);
        }
        digits.push(hex_digit(rest % 16));
        rest = rest / 16;
        k += 1;
    }
    let mut r = String::new();
    let mut i: usize = 16;
    while i > 0
        invariant
            i <= 16,
            digits@.len() == 16,
            forall|j: int| 0 <= j < 16 ==> #[trigger] digits@[j] == hex_digit_char(
                (n as nat / pow16(j as nat)) % 16,
            ),
            r@ == hex_fixed(n as nat / pow16(i as nat), (16 - i) as nat),
        decreases i,
    {
        i -= 1;
        proof {
            lemma_pow16_step(n as nat, i as nat);
            reveal_with_fuel(hex_fixed, 2);
        }
        push_char(&mut r, digits[i]);
    }
    proof {
        lemma_hex_fixed_len(n as nat, 16);
        assert(pow16(0) == 1);
        assert(n as nat / 1 == n as nat);
    }
    r
}

/// Sixteen to the power `k`.
pub open spec fn pow16(k: nat) -> nat
    decreases k,
{
    if k == 0 {
        1
    } else {
        16 * pow16((k - 1) as nat)
    }
}

proof fn lemma_pow16_step(n: nat, k: nat)
    ensures
        pow16(k) > 0,
        n / pow16(k + 1) == (n / pow16(k)) / 16,
{
    lemma_pow16_pos(k);
    assert(pow16(k + 1) == 16 * pow16(k));
    vstd::arithmetic::div_mod::lemma_div_denominator(n as int, pow16(k) as int, 16);
    assert(pow16(k) * 16 == 16 * pow16(k)) by (nonlinear_arith);
}

proof fn lemma_pow16_pos(k: nat)
    ensures
        pow16(k) > 0,
    decreases k,
{
    if k > 0 {
        lemma_pow16_pos((k - 1) as nat);
    }
}

proof fn lemma_hex_fixed_len(n: nat, w: nat)
    ensures
        hex_fixed(n, w).len() == w,
    decreases w,
{
    if w > 0 {
        lemma_hex_fixed_len(n / 16, (w - 1) as nat);
    }
}

} // verus!

verus! {

/// Whether two strings hold the same characters.
pub fn str_eq(a: &str, b: &str) -> (r: bool)
    ensures
        r == (a@ == b@),
{
    let x = a.as_bytes();
    let y = b.as_bytes();
    if x.len() != y.len() {
        proof {
            if a@ == b@ {
                assert(x@ == y@);
            }
        }
        return false;
    }
    let mut i: usize = 0;
    while i < x.len()
        invariant
            x@ == vstd::utf8::encode_utf8(a@),
            y@ == vstd::utf8::encode_utf8(b@),
            x@.len() == y@.len(),
            i <= x@.len(),
            forall|j: int| 0 <= j < i ==> x@[j] == y@[j],
        decreases x.len() - i,
    {
        if x[i] != y[i] {
            proof {
                if a@ == b@ {
                    assert(x@ == y@);
                }
            }
            return false;
        }
        i += 1;
    }
    proof {
        assert(x@ =~= y@);
        vstd::utf8::encode_utf8_decode_utf8(a@);
        vstd::utf8::encode_utf8_decode_utf8(b@);
    }
    true
}

} // verus!

verus! {

/// Number of bytes that UTF-8 uses for a character.
pub open spec fn utf8_width(c: char) -> nat {
    vstd::utf8::encode_scalar(c as u32).len()
}

/// Number of bytes of the UTF-8 encoding of a character sequence.
pub open spec fn utf8_len(s: Seq<char>) -> nat {
    vstd::utf8::encode_utf8(s).len()
}

/// The number of bytes this character takes in UTF-8, as `char::len_utf8`
/// gives it.
pub fn char_utf8_width(c: char) -> (n: usize)
    ensures
        n == utf8_width(c),
        1 <= n <= 4,
{
    let u = c as u32;
    if u <= 0x7F {
        1
    } else if u <= 0x7FF {
        2
    } else if u <= 0xFFFF {
        3
    } else {
        4
    }
}

/// Encoding a concatenation encodes each part.
pub proof fn lemma_encode_concat(a: Seq<char>, b: Seq<char>)
    ensures
        vstd::utf8::encode_utf8(a + b) == vstd::utf8::encode_utf8(a) + vstd::utf8::encode_utf8(b),
    decreases a.len(),
{
    if a.len() == 0 {
        assert(a + b =~= b);
    } else {
        assert((a + b).drop_first() =~= a.drop_first() + b);
        lemma_encode_concat(a.drop_first(), b);
        assert(vstd::utf8::encode_utf8(a + b) =~= vstd::utf8::encode_utf8(a) + vstd::utf8::encode_utf8(b));
    }
}

/// Every character takes between one and four bytes.
pub proof fn lemma_utf8_width_bounds(c: char)
    ensures
        1 <= utf8_width(c) <= 4,
{
}

/// The UTF-8 length of a prefix one character longer.
pub proof fn lemma_utf8_len_take_step(s: Seq<char>, i: int)
    requires
        0 <= i < s.len(),
    ensures
        utf8_len(s.take(i + 1)) == utf8_len(s.take(i)) + utf8_width(s[i]),
{
    assert(s.take(i + 1) =~= s.take(i) + seq![s[i]]);
    lemma_encode_concat(s.take(i), seq![s[i]]);
    assert(seq![s[i]].drop_first() =~= Seq::<char>::empty());
    assert(vstd::utf8::encode_utf8(seq![s[i]]) == vstd::utf8::encode_scalar(s[i] as u32)
        + vstd::utf8::encode_utf8(Seq::<char>::empty()));
    assert(vstd::utf8::encode_utf8(seq![s[i]]) =~= vstd::utf8::encode_scalar(s[i] as u32));
}

/// The UTF-8 length of prefixes grows strictly with the prefix.
pub proof fn lemma_utf8_len_take_monotone(s: Seq<char>, i: int, j: int)
    requires
        0 <= i < j <= s.len(),
    ensures
        utf8_len(s.take(i)) < utf8_len(s.take(j)),
    decreases j - i,
{
    lemma_utf8_len_take_step(s, j - 1);
    lemma_utf8_width_bounds(s[j - 1]);
    if i < j - 1 {
        lemma_utf8_len_take_monotone(s, i, j - 1);
    }
}

/// Some prefix of `s` takes exactly `n` bytes: `n` is a character boundary.
pub open spec fn is_char_boundary(s: Seq<char>, n: nat) -> bool {
    exists|i: int| 0 <= i <= s.len() && #[trigger] utf8_len(s.take(i)) == n
}

/// The characters of `s` that fill its first `n` bytes (`&s[..n]`), when `n`
/// is a character boundary.
pub open spec fn byte_prefix(s: Seq<char>, n: nat) -> Seq<char> {
    s.take(choose|i: int| 0 <= i <= s.len() && #[trigger] utf8_len(s.take(i)) == n)
}

/// `&s[..n]`: the first `n` bytes of `s`, or `None` when `n` is not a
/// character boundary of `s`.
pub fn take_bytes(s: &str, n: usize) -> (r: Option<String>)
    ensures
        r.is_some() == is_char_boundary(s@, n as nat),
        r matches Some(p) ==> p@ == byte_prefix(s@, n as nat),
{
    let cs = chars_of(s);
    let bytes = s.as_bytes();
    let blen = bytes.len();
    let mut i: usize = 0;
    let mut used: usize = 0;
    assert(s@.take(0) =~= Seq::<char>::empty());
    assert(s@.take(s@.len() as int) =~= s@);
    while i < cs.len() && used < n
        invariant
            cs@ == s@,
            bytes@.len() == utf8_len(s@),
            blen == bytes@.len(),
            s@.take(s@.len() as int) == s@,
            i <= cs@.len(),
            used == utf8_len(s@.take(i as int)),
            forall|j: int| 0 <= j < i ==> #[trigger] utf8_len(s@.take(j)) < n,
        decreases cs.len() - i,
    {
        proof {
            lemma_utf8_len_take_step(s@, i as int);
            lemma_utf8_width_bounds(s@[i as int]);
            if i + 1 < s@.len() {
                lemma_utf8_len_take_monotone(s@, i + 1, s@.len() as int);
            }
            assert(utf8_len(s@.take(i + 1)) <= blen);
            assert forall|j: int| 0 <= j < i + 1 implies #[trigger] utf8_len(s@.take(j)) < n by {
                if j < i {
                } else {
                    assert(j == i);
                }
            }
        }
        let w = char_utf8_width(cs[i]);
        used = used + w;
        i = i + 1;
    }
    if used == n {
        proof {
            assert(utf8_len(s@.take(i as int)) == n);
            let k = choose|k: int| 0 <= k <= s@.len() && #[trigger] utf8_len(s@.take(k)) == n;
            if k < i {
                lemma_utf8_len_take_monotone(s@, k, i as int);
            } else if k > i {
                lemma_utf8_len_take_monotone(s@, i as int, k);
            }
            assert(k == i);
        }
        Some(string_from_chars(&cs.as_slice()[0..i]))
    } else {
        proof {
            assert forall|k: int| 0 <= k <= s@.len() implies #[trigger] utf8_len(s@.take(k)) != n by {
                if k < i {
                } else if k == i {
                } else {
                    lemma_utf8_len_take_monotone(s@, i as int, k);
                    assert(i == s@.len() || used >= n);
                }
            }
        }
        None
    }
}

/// Whether a character has the Unicode `White_Space` property: tab to
/// carriage return, space, next line, no-break space, ogham space mark, the
/// spaces from en quad to hair space, line and paragraph separators, narrow
/// no-break space, medium mathematical space and ideographic space.
pub open spec fn unicode_whitespace(c: char) -> bool {
    let u = c as u32;
    ||| 0x09 <= u <= 0x0D
    ||| u == 0x20
    ||| u == 0x85
    ||| u == 0xA0
    ||| u == 0x1680
    ||| 0x2000 <= u <= 0x200A
    ||| u == 0x2028
    ||| u == 0x2029
    ||| u == 0x202F
    ||| u == 0x205F
    ||| u == 0x3000
}

/// Whether a character is whitespace, as `char::is_whitespace` defines it
/// (the Unicode `White_Space` property).
pub fn is_whitespace(c: char) -> (r: bool)
    ensures
        r == unicode_whitespace(c),
{
    let u = c as u32;
    (0x09 <= u && u <= 0x0D) || u == 0x20 || u == 0x85 || u == 0xA0 || u == 0x1680 || (0x2000 <= u
        && u <= 0x200A) || u == 0x2028 || u == 0x2029 || u == 0x202F || u == 0x205F || u == 0x3000
}

/// The text without its leading whitespace.
pub open spec fn trim_start(s: Seq<char>) -> Seq<char>
    decreases s.len(),
{
    if s.len() > 0 && unicode_whitespace(s[0]) {
        trim_start(s.drop_first())
    } else {
        s
    }
}

/// The text without its trailing whitespace.
pub open spec fn trim_end(s: Seq<char>) -> Seq<char>
    decreases s.len(),
{
    if s.len() > 0 && unicode_whitespace(s.last()) {
        trim_end(s.drop_last())
    } else {
        s
    }
}

/// The text without leading and trailing whitespace.
pub open spec fn spec_trim(s: Seq<char>) -> Seq<char> {
    trim_end(trim_start(s))
}

/// A copy of the text without leading and trailing whitespace.
pub fn trim(s: &str) -> (r: String)
    ensures
        r@ == spec_trim(s@),
{
    let cs = chars_of(s);
    let n = cs.len();
    let mut a: usize = 0;
    assert(s@.subrange(0, n as int) =~= s@);
    while a < n && is_whitespace(cs[a])
        invariant
            cs@ == s@,
            n == cs@.len(),
            a <= n,
            trim_start(s@) == trim_start(s@.subrange(a as int, n as int)),
        decreases n - a,
    {
        assert(s@.subrange(a as int, n as int).drop_first() =~= s@.subrange(a + 1, n as int));
        a += 1;
    }
    assert(trim_start(s@) == s@.subrange(a as int, n as int));
    let mut b: usize = n;
    while b > a && is_whitespace(cs[b - 1])
        invariant
            cs@ == s@,
            n == cs@.len(),
            a <= b <= n,
            spec_trim(s@) == trim_end(s@.subrange(a as int, b as int)),
        decreases b - a,
    {
        assert(s@.subrange(a as int, b as int).drop_last() =~= s@.subrange(a as int, b - 1));
        b -= 1;
    }
    string_from_range(cs.as_slice(), a, b)
}

/// A string made of the characters `cs[a..b]`.
pub fn string_from_range(cs: &[char], a: usize, b: usize) -> (r: String)
    requires
        a <= b <= cs@.len(),
    ensures
        r@ == cs@.subrange(a as int, b as int),
{
    let mut out = String::new();
    let mut i: usize = a;
    while i < b
        invariant
            a <= i <= b <= cs@.len(),
            out@ == cs@.subrange(a as int, i as int),
        decreases b - i,
    {
        push_char(&mut out, cs[i]);
        assert(cs@.subrange(a as int, i + 1) =~= cs@.subrange(a as int, i as int).push(cs@[i as int]));
        i += 1;
    }
    out
}

/// Lexicographic comparison of two texts by character code (the order of
/// `str`'s `Ord`, since UTF-8 keeps code-point order): `-1`, `0` or `1`.
pub open spec fn text_order(a: Seq<char>, b: Seq<char>) -> int
    decreases a.len(),
{
    if a.len() == 0 {
        if b.len() == 0 {
            0
        } else {
            -1
        }
    } else if b.len() == 0 {
        1
    } else if a[0] < b[0] {
        -1
    } else if a[0] > b[0] {
        1
    } else {
        text_order(a.drop_first(), b.drop_first())
    }
}

/// Comparing the other way round flips the result; equal texts compare
/// equal.
pub proof fn lemma_text_order_antisymmetric(a: Seq<char>, b: Seq<char>)
    ensures
        text_order(a, b) == -text_order(b, a),
        text_order(a, b) == 0 <==> a == b,
        -1 <= text_order(a, b) <= 1,
    decreases a.len(),
{
    if a.len() > 0 && b.len() > 0 {
        lemma_text_order_antisymmetric(a.drop_first(), b.drop_first());
        if a[0] == b[0] && a.drop_first() == b.drop_first() {
            assert(a =~= seq![a[0]] + a.drop_first());
            assert(b =~= seq![b[0]] + b.drop_first());
        }
        if a == b {
            assert(a.drop_first() == b.drop_first());
        }
    } else if a.len() == 0 && b.len() == 0 {
        assert(a =~= b);
    }
}

/// The comparison is transitive.
pub proof fn lemma_text_order_transitive(a: Seq<char>, b: Seq<char>, c: Seq<char>)
    requires
        text_order(a, b) <= 0,
        text_order(b, c) <= 0,
    ensures
        text_order(a, c) <= 0,
    decreases a.len(),
{
    if a.len() > 0 && b.len() > 0 && c.len() > 0 {
        if a[0] == b[0] && b[0] == c[0] {
            lemma_text_order_transitive(a.drop_first(), b.drop_first(), c.drop_first());
        }
    }
}

/// Compare two texts (see [`text_order`]).
pub fn compare_text(a: &str, b: &str) -> (r: i8)
    ensures
        r as int == text_order(a@, b@),
{
    let ca = chars_of(a);
    let cb = chars_of(b);
    let mut i: usize = 0;
    assert(a@.skip(0) =~= a@);
    assert(b@.skip(0) =~= b@);
    while i < ca.len() && i < cb.len() && ca[i] == cb[i]
        invariant
            ca@ == a@,
            cb@ == b@,
            i <= ca@.len(),
            i <= cb@.len(),
            text_order(a@, b@) == text_order(a@.skip(i as int), b@.skip(i as int)),
        decreases ca.len() - i,
    {
        assert(a@.skip(i as int).drop_first() =~= a@.skip(i + 1));
        assert(b@.skip(i as int).drop_first() =~= b@.skip(i + 1));
        i += 1;
    }
    if i == ca.len() {
        if i == cb.len() {
            0
        } else {
            -1
        }
    } else if i == cb.len() {
        1
    } else {
        assert(a@.skip(i as int)[0] == ca@[i as int]);
        assert(b@.skip(i as int)[0] == cb@[i as int]);
        if ca[i] < cb[i] {
            -1
        } else {
            1
        }
    }
}

} // verus!
