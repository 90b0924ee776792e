//! How many messages fit in a pane, given the screen lines each one wraps to.

use vstd::prelude::*;
use crate::logging::{spec_strip_ansi, strip_ansi_codes, strip_ansi_from};
use crate::text::{chars_of, string_from_chars, utf8_len, lemma_encode_concat};
use std::collections::VecDeque;

verus! {

/// The lines of a text, split at each `\n` (an empty text is one empty line).
pub open spec fn split_lines(s: Seq<char>) -> Seq<Seq<char>>
    decreases s.len(),
{
    if s.len() == 0 {
        seq![Seq::empty()]
    } else {
        let init = split_lines(s.drop_last());
        if s.last() == '\n' {
            init.push(Seq::empty())
        } else {
            init.update(init.len() - 1, init.last().push(s.last()))
        }
    }
}

proof fn lemma_split_lines_nonempty(s: Seq<char>)
    ensures
        split_lines(s).len() >= 1,
    decreases s.len(),
{
    if s.len() > 0 {
        lemma_split_lines_nonempty(s.drop_last());
    }
}

/// `n / w` rounded up.
pub open spec fn div_ceil(n: nat, w: nat) -> nat {
    if n % w == 0 {
        n / w
    } else {
        n / w + 1
    }
}

/// Screen rows of one line at the given width: an empty line takes a row
/// unless it is the text's last line; a non-empty line wraps by its length
/// in bytes.
pub open spec fn line_rows(line: Seq<char>, is_last: bool, width: nat) -> nat {
    if line.len() == 0 {
        if is_last {
            0
        } else {
            1
        }
    } else {
        div_ceil(utf8_len(line), width)
    }
}

/// Screen rows of the first `k` lines (the last line of `lines` is the
/// text's last line).
pub open spec fn rows_of_lines(lines: Seq<Seq<char>>, k: int, width: nat) -> nat
    decreases k,
{
    if k <= 0 {
        0
    } else {
        rows_of_lines(lines, k - 1, width) + line_rows(lines[k - 1], k - 1 == lines.len() - 1, width)
    }
}

/// Screen rows a text takes at a width once its escape codes are removed;
/// at least one.
pub open spec fn spec_count_lines(text: Seq<char>, width: nat) -> nat {
    let lines = split_lines(spec_strip_ansi(text));
    let t = rows_of_lines(lines, lines.len() as int, width);
    if t == 0 {
        1
    } else {
        t
    }
}

/// Every line of the text is empty once escape codes are removed (so no
/// width is needed to count its rows).
pub open spec fn all_lines_blank(text: Seq<char>) -> bool {
    let lines = split_lines(spec_strip_ansi(text));
    forall|i: int| 0 <= i < lines.len() ==> (#[trigger] lines[i]).len() == 0
}

/// Bytes of all lines together.
pub open spec fn bytes_of_lines(lines: Seq<Seq<char>>, k: int) -> nat
    decreases k,
{
    if k <= 0 {
        0
    } else {
        bytes_of_lines(lines, k - 1) + utf8_len(lines[k - 1])
    }
}

proof fn lemma_bytes_of_lines_ext(a: Seq<Seq<char>>, b: Seq<Seq<char>>, k: int)
    requires
        0 <= k <= a.len(),
        k <= b.len(),
        forall|i: int| 0 <= i < k ==> a[i] == b[i],
    ensures
        bytes_of_lines(a, k) == bytes_of_lines(b, k),
    decreases k,
{
    if k > 0 {
        lemma_bytes_of_lines_ext(a, b, k - 1);
    }
}

proof fn lemma_utf8_push(s: Seq<char>, c: char)
    ensures
        utf8_len(s.push(c)) == utf8_len(s) + crate::text::utf8_width(c),
{
    assert(s.push(c) =~= s + seq![c]);
    lemma_encode_concat(s, seq![c]);
    assert(seq![c].drop_first() =~= Seq::<char>::empty());
    assert(vstd::utf8::encode_utf8(seq![c]) == vstd::utf8::encode_scalar(c as u32)
        + vstd::utf8::encode_utf8(Seq::<char>::empty()));
    assert(vstd::utf8::encode_utf8(seq![c]) =~= vstd::utf8::encode_scalar(c as u32));
}

/// The bytes of a text are the bytes of its lines plus one per line break.
proof fn lemma_split_bytes(s: Seq<char>)
    ensures
        utf8_len(s) == bytes_of_lines(split_lines(s), split_lines(s).len() as int) + split_lines(
            s,
        ).len() - 1,
    decreases s.len(),
{
    lemma_split_lines_nonempty(s);
    if s.len() == 0 {
        assert(split_lines(s) =~= seq![Seq::<char>::empty()]);
        assert(utf8_len(Seq::<char>::empty()) == 0);
        assert(bytes_of_lines(split_lines(s), 0) == 0);
    } else {
        let init = split_lines(s.drop_last());
        lemma_split_bytes(s.drop_last());
        lemma_split_lines_nonempty(s.drop_last());
        assert(s =~= s.drop_last().push(s.last()));
        lemma_utf8_push(s.drop_last(), s.last());
        let n = init.len() as int;
        if s.last() == '\n' {
            let lines = init.push(Seq::<char>::empty());
            lemma_bytes_of_lines_ext(lines, init, n);
            assert(utf8_len(Seq::<char>::empty()) == 0);
        } else {
            let lines = init.update(n - 1, init.last().push(s.last()));
            lemma_bytes_of_lines_ext(lines, init, n - 1);
            lemma_utf8_push(init.last(), s.last());
        }
    }
}

proof fn lemma_rows_bounded(lines: Seq<Seq<char>>, k: int, width: nat)
    requires
        0 <= k <= lines.len(),
        lines.len() >= 1,
        width > 0 || (forall|i: int| 0 <= i < lines.len() ==> (#[trigger] lines[i]).len() == 0),
    ensures
        rows_of_lines(lines, k, width) <= bytes_of_lines(lines, k) + (if k == lines.len() {
            k - 1
        } else {
            k
        }),
    decreases k,
{
    if k > 0 {
        lemma_rows_bounded(lines, k - 1, width);
        let line = lines[k - 1];
        if line.len() > 0 {
            assert(width > 0);
            let n = utf8_len(line);
            assert(vstd::utf8::encode_utf8(line).len() > 0) by {
                assert(vstd::utf8::encode_utf8(line) == vstd::utf8::encode_scalar(line[0] as u32)
                    + vstd::utf8::encode_utf8(line.drop_first()));
            }
            assert(div_ceil(n, width) <= n) by (nonlinear_arith)
                requires
                    n > 0,
                    width > 0,
            ;
        }
    }
}

/// The number of screen rows of a text.
fn rows_of_line(line: &[char], is_last: bool, text_width: usize) -> (r: usize)
    requires
        text_width > 0 || line@.len() == 0,
    ensures
        r == line_rows(line@, is_last, text_width as nat),
{
    if line.len() == 0 {
        if is_last {
            0
        } else {
            1
        }
    } else {
        let s = string_from_chars(line);
        let n = s.as_str().as_bytes().len();
        let q = n / text_width;
        if n % text_width == 0 {
            q
        } else {
            assert(q < n) by (nonlinear_arith)
                requires
                    q == n / text_width,
                    n % text_width != 0,
                    text_width > 0,
            ;
            q + 1
        }
    }
}

/// Count wrapped lines of text, accounting for ANSI codes and terminal width.
pub fn count_lines(text: &str, text_width: usize) -> (r: usize)
    requires
        text_width > 0 || all_lines_blank(text@),
    ensures
        r == spec_count_lines(text@, text_width as nat),
        r >= 1,
{
    let clean = strip_ansi_codes(text);
    let cs = chars_of(clean.as_str());
    let total_bytes = clean.as_str().as_bytes().len();
    let ghost lines_spec = split_lines(clean@);
    // Split at line breaks.
    let mut done: Vec<Vec<char>> = Vec::new();
    let mut cur: Vec<char> = Vec::new();
    let mut i: usize = 0;
    while i < cs.len()
        invariant
            cs@ == clean@,
            i <= cs@.len(),
            done@.len() + 1 == split_lines(clean@.take(i as int)).len(),
            forall|j: int| 0 <= j < done@.len() ==> #[trigger] done@[j]@ == split_lines(
                clean@.take(i as int),
            )[j],
            cur@ == split_lines(clean@.take(i as int)).last(),
        decreases cs.len() - i,
    {
        let c = cs[i];
        let ghost prev = split_lines(clean@.take(i as int));
        assert(clean@.take(i + 1).drop_last() =~= clean@.take(i as int));
        assert(clean@.take(i + 1).last() == c);
        proof {
            lemma_split_lines_nonempty(clean@.take(i as int));
        }
        if c == '\n' {
            let mut finished: Vec<char> = Vec::new();
            std::mem::swap(&mut finished, &mut cur);
            done.push(finished);
        } else {
            cur.push(c);
        }
        i += 1;
    }
    assert(clean@.take(cs@.len() as int) =~= clean@);
    proof {
        lemma_split_lines_nonempty(clean@);
        lemma_split_bytes(clean@);
    }
    done.push(cur);
    assert forall|j: int| 0 <= j < done@.len() implies #[trigger] done@[j]@ == lines_spec[j] by {}
    // Count rows line by line.
    let nlines = done.len();
    let mut total: usize = 0;
    let mut k: usize = 0;
    proof {
        if text_width == 0 {
            assert forall|j: int| 0 <= j < lines_spec.len() implies (#[trigger] lines_spec[j]).len()
                == 0 by {
                assert(all_lines_blank(text@));
            }
        }
    }
    while k < nlines
        invariant
            nlines == done@.len(),
            nlines == lines_spec.len(),
            nlines >= 1,
            forall|j: int| 0 <= j < done@.len() ==> #[trigger] done@[j]@ == lines_spec[j],
            k <= nlines,
            total == rows_of_lines(lines_spec, k as int, text_width as nat),
            total_bytes == utf8_len(clean@),
            utf8_len(clean@) == bytes_of_lines(lines_spec, nlines as int) + nlines - 1,
            text_width > 0 || (forall|j: int| 0 <= j < lines_spec.len() ==> (
            #[trigger] lines_spec[j]).len() == 0),
        decreases nlines - k,
    {
        proof {
            lemma_rows_bounded(lines_spec, k + 1, text_width as nat);
            lemma_bytes_prefix_le(lines_spec, k + 1, nlines as int);
        }
        let rows = rows_of_line(done[k].as_slice(), k == nlines - 1, text_width);
        total = total + rows;
        k += 1;
    }
    if total == 0 {
        1
    } else {
        total
    }
}

proof fn lemma_bytes_prefix_le(lines: Seq<Seq<char>>, k: int, n: int)
    requires
        0 <= k <= n,
    ensures
        bytes_of_lines(lines, k) <= bytes_of_lines(lines, n),
    decreases n - k,
{
    if k < n {
        lemma_bytes_prefix_le(lines, k, n - 1);
    }
}

/// Screen rows of each message at a width.
pub open spec fn message_rows(msgs: Seq<Seq<char>>, width: nat) -> Seq<int> {
    msgs.map_values(|m: Seq<char>| spec_count_lines(m, width) as int)
}

/// Sum of `c[lo..hi]`.
pub open spec fn range_sum(c: Seq<int>, lo: int, hi: int) -> int
    decreases hi - lo,
{
    if hi <= lo {
        0
    } else {
        range_sum(c, lo, hi - 1) + c[hi - 1]
    }
}

proof fn lemma_range_sum_front(c: Seq<int>, lo: int, hi: int)
    requires
        lo < hi,
    ensures
        range_sum(c, lo, hi) == c[lo] + range_sum(c, lo + 1, hi),
    decreases hi - lo,
{
    if hi - 1 > lo {
        lemma_range_sum_front(c, lo, hi - 1);
    } else {
        assert(range_sum(c, lo, lo) == 0);
        assert(range_sum(c, lo + 1, hi) == 0);
    }
}

/// The last `k` messages fit in `height` rows, the newest one always counting
/// as fitting.
pub open spec fn tail_fits(c: Seq<int>, k: int, height: int) -> bool {
    k <= 1 || range_sum(c, c.len() - k, c.len() as int) <= height
}

/// The `k` messages from `start` fit in `height` rows, the first one always
/// counting as fitting.
pub open spec fn window_fits(c: Seq<int>, start: int, k: int, height: int) -> bool {
    k <= 1 || range_sum(c, start, start + k) <= height
}

/// The messages of a deque, as character sequences.
pub open spec fn string_views(msgs: Seq<String>) -> Seq<Seq<char>> {
    msgs.map_values(|m: String| m@)
}

/// The text of each message of a deque of `(text, sender)` pairs.
pub open spec fn tuple_texts(msgs: Seq<(String, Option<String>)>) -> Seq<Seq<char>> {
    msgs.map_values(|m: (String, Option<String>)| m.0@)
}

/// Every message can be measured at the width.
pub open spec fn measurable(msgs: Seq<Seq<char>>, width: nat) -> bool {
    width > 0 || forall|i: int| 0 <= i < msgs.len() ==> all_lines_blank(#[trigger] msgs[i])
}

/// What the visible-range computation returns: the number of visible
/// messages and the index of the first one.
pub open spec fn visible_window(
    c: Seq<int>,
    auto_scroll: bool,
    scroll_offset: int,
    height: int,
    r: (usize, usize),
) -> bool {
    let n = c.len() as int;
    if n == 0 {
        r == (0usize, 0usize)
    } else if auto_scroll {
        let k = r.0 as int;
        &&& 1 <= k <= n
        &&& tail_fits(c, k, height)
        &&& (k == n || !tail_fits(c, k + 1, height))
        &&& r.1 == n - k
    } else if scroll_offset >= n {
        r == (1usize, scroll_offset as usize)
    } else {
        let k = r.0 as int;
        &&& 1 <= k <= n - scroll_offset
        &&& window_fits(c, scroll_offset, k, height)
        &&& (k == n - scroll_offset || !window_fits(c, scroll_offset, k + 1, height))
        &&& r.1 == scroll_offset
    }
}

proof fn lemma_range_sum_nonneg_front(c: Seq<int>, lo1: int, lo2: int, hi: int)
    requires
        lo2 <= lo1 <= hi,
        0 <= lo2,
        hi <= c.len(),
        forall|i: int| 0 <= i < c.len() ==> c[i] >= 0,
    ensures
        range_sum(c, lo1, hi) <= range_sum(c, lo2, hi),
    decreases lo1 - lo2,
{
    if lo2 < lo1 {
        lemma_range_sum_front(c, lo2, hi);
        lemma_range_sum_nonneg_front(c, lo1, lo2 + 1, hi);
    }
}

proof fn lemma_range_sum_nonneg_back(c: Seq<int>, lo: int, hi1: int, hi2: int)
    requires
        0 <= lo <= hi1 <= hi2 <= c.len(),
        forall|i: int| 0 <= i < c.len() ==> c[i] >= 0,
    ensures
        range_sum(c, lo, hi1) <= range_sum(c, lo, hi2),
    decreases hi2 - hi1,
{
    if hi1 < hi2 {
        lemma_range_sum_nonneg_back(c, lo, hi1, hi2 - 1);
    }
}

/// With no negative row count, the visible window is unique: two results
/// that both meet `visible_window` are equal.
pub proof fn lemma_visible_window_unique(
    c: Seq<int>,
    auto_scroll: bool,
    scroll_offset: int,
    height: int,
    r1: (usize, usize),
    r2: (usize, usize),
)
    requires
        forall|i: int| 0 <= i < c.len() ==> c[i] >= 0,
        visible_window(c, auto_scroll, scroll_offset, height, r1),
        visible_window(c, auto_scroll, scroll_offset, height, r2),
    ensures
        r1 == r2,
{
    let n = c.len() as int;
    if n > 0 && auto_scroll {
        if (r1.0 as int) < (r2.0 as int) {
            lemma_range_sum_nonneg_front(c, n - (r1.0 + 1), n - r2.0, n);
        } else if (r2.0 as int) < (r1.0 as int) {
            lemma_range_sum_nonneg_front(c, n - (r2.0 + 1), n - r1.0, n);
        }
    } else if n > 0 && scroll_offset < n {
        if (r1.0 as int) < (r2.0 as int) {
            lemma_range_sum_nonneg_back(c, scroll_offset, scroll_offset + r1.0 + 1, scroll_offset + r2.0);
        } else if (r2.0 as int) < (r1.0 as int) {
            lemma_range_sum_nonneg_back(c, scroll_offset, scroll_offset + r2.0 + 1, scroll_offset + r1.0);
        }
    }
}

/// The tuple form and the string form of the visible-range computation
/// agree: for pairs whose texts are the strings given, any result of the
/// first equals any result of the second.
pub proof fn lemma_tuples_match_strings(
    tuples: Seq<(String, Option<String>)>,
    strings: Seq<String>,
    auto_scroll: bool,
    scroll_offset: int,
    text_width: nat,
    usable_height: int,
    r_tuples: (usize, usize),
    r_strings: (usize, usize),
)
    requires
        tuple_texts(tuples) == string_views(strings),
        visible_window(
            message_rows(tuple_texts(tuples), text_width),
            auto_scroll,
            scroll_offset,
            usable_height,
            r_tuples,
        ),
        visible_window(
            message_rows(string_views(strings), text_width),
            auto_scroll,
            scroll_offset,
            usable_height,
            r_strings,
        ),
    ensures
        r_tuples == r_strings,
{
    let c = message_rows(string_views(strings), text_width);
    assert forall|i: int| 0 <= i < c.len() implies c[i] >= 0 by {}
    lemma_visible_window_unique(c, auto_scroll, scroll_offset, usable_height, r_tuples, r_strings);
}

fn calc_visible_texts(
    texts: &Vec<String>,
    auto_scroll: bool,
    scroll_offset: usize,
    text_width: usize,
    usable_height: usize,
) -> (r: (usize, usize))
    requires
        measurable(string_views(texts@), text_width as nat),
    ensures
        visible_window(
            message_rows(string_views(texts@), text_width as nat),
            auto_scroll,
            scroll_offset as int,
            usable_height as int,
            r,
        ),
{
    let ghost c = message_rows(string_views(texts@), text_width as nat);
    let n = texts.len();
    if n == 0 {
        return (0, 0);
    }
    let start: usize = if auto_scroll {
        0
    } else {
        scroll_offset
    };
    if !auto_scroll && scroll_offset >= n {
        return (1, scroll_offset);
    }
    // Take messages one by one (from the newest backwards when following
    // the bottom, else from the offset forwards) while they fit.
    let avail = n - start;
    let mut used: usize = 0;
    let mut count: usize = 0;
    let mut stop = false;
    while count < avail && !stop
        invariant
            n == texts@.len(),
            c == message_rows(string_views(texts@), text_width as nat),
            measurable(string_views(texts@), text_width as nat),
            start <= n,
            avail == n - start,
            count <= avail,
            auto_scroll ==> start == 0 && used == range_sum(c, n - count, n as int),
            !auto_scroll ==> used == range_sum(c, start as int, start + count),
            auto_scroll ==> tail_fits(c, count as int, usable_height as int),
            !auto_scroll ==> window_fits(c, start as int, count as int, usable_height as int),
            (count == 0) == (used == 0),
            stop ==> count >= 1 && (auto_scroll ==> !tail_fits(c, count + 1, usable_height as int))
                && (!auto_scroll ==> !window_fits(
                c,
                start as int,
                count + 1,
                usable_height as int,
            )),
        decreases avail - count + (if stop {
            0int
        } else {
            1int
        }),
    {
        let idx: usize = if auto_scroll {
            n - 1 - count
        } else {
            start + count
        };
        proof {
            assert(string_views(texts@)[idx as int] == texts@[idx as int]@);
            assert(measurable(string_views(texts@), text_width as nat));
            if text_width == 0 {
                assert(all_lines_blank(string_views(texts@)[idx as int]));
            }
        }
        let rows = count_lines(texts[idx].as_str(), text_width);
        assert(c[idx as int] == rows);
        proof {
            if auto_scroll {
                lemma_range_sum_front(c, n - (count + 1), n as int);
            }
        }
        if used > 0 && (used > usable_height || rows > usable_height - used) {
            stop = true;
        } else {
            used = used + rows;
            count = count + 1;
        }
    }
    if auto_scroll {
        (count, n - count)
    } else {
        (count, scroll_offset)
    }
}

/// Calculate visible items and effective offset for tuple-based messages
/// with auto/manual scroll.
pub fn calc_visible_tuples(
    messages: &VecDeque<(String, Option<String>)>,
    auto_scroll: bool,
    scroll_offset: usize,
    text_width: usize,
    usable_height: usize,
) -> (r: (usize, usize))
    requires
        measurable(tuple_texts(messages@), text_width as nat),
    ensures
        visible_window(
            message_rows(tuple_texts(messages@), text_width as nat),
            auto_scroll,
            scroll_offset as int,
            usable_height as int,
            r,
        ),
{
    let mut texts: Vec<String> = Vec::new();
    let mut i: usize = 0;
    while i < messages.len()
        invariant
            i <= messages@.len(),
            texts@.len() == i,
            forall|j: int| 0 <= j < i ==> #[trigger] texts@[j]@ == messages@[j].0@,
        decreases messages.len() - i,
    {
        texts.push(messages[i].0.clone());
        i += 1;
    }
    assert(string_views(texts@) =~= tuple_texts(messages@));
    calc_visible_texts(&texts, auto_scroll, scroll_offset, text_width, usable_height)
}

/// Calculate visible items and effective offset for string-based messages
/// with auto/manual scroll.
pub fn calc_visible_strings(
    messages: &VecDeque<String>,
    auto_scroll: bool,
    scroll_offset: usize,
    text_width: usize,
    usable_height: usize,
) -> (r: (usize, usize))
    requires
        measurable(string_views(messages@), text_width as nat),
    ensures
        visible_window(
            message_rows(string_views(messages@), text_width as nat),
            auto_scroll,
            scroll_offset as int,
            usable_height as int,
            r,
        ),
{
    let mut texts: Vec<String> = Vec::new();
    let mut i: usize = 0;
    while i < messages.len()
        invariant
            i <= messages@.len(),
            texts@.len() == i,
            forall|j: int| 0 <= j < i ==> #[trigger] texts@[j]@ == messages@[j]@,
        decreases messages.len() - i,
    {
        texts.push(messages[i].clone());
        i += 1;
    }
    assert(string_views(texts@) =~= string_views(messages@));
    calc_visible_texts(&texts, auto_scroll, scroll_offset, text_width, usable_height)
}

/// The text holds no escape character.
pub open spec fn no_escape(s: Seq<char>) -> bool {
    forall|i: int| 0 <= i < s.len() ==> s[i] != '\x1b'
}

proof fn lemma_strip_plain(s: Seq<char>)
    requires
        no_escape(s),
    ensures
        strip_ansi_from(s, false) == s,
    decreases s.len(),
{
    if s.len() > 0 {
        let t = s.drop_first();
        assert forall|i: int| 0 <= i < t.len() implies t[i] != '\x1b' by {
            assert(t[i] == s[i + 1]);
        }
        lemma_strip_plain(t);
        assert(seq![s[0]] + t =~= s);
    }
}

proof fn lemma_split_concat(a: Seq<char>, b: Seq<char>)
    ensures
        split_lines(a + seq!['\n'] + b) == split_lines(a) + split_lines(b),
    decreases b.len(),
{
    let s = a + seq!['\n'] + b;
    if b.len() == 0 {
        assert(s.drop_last() =~= a);
        assert(split_lines(b) =~= seq![Seq::<char>::empty()]);
        assert(split_lines(a).push(Seq::<char>::empty()) =~= split_lines(a) + split_lines(b));
    } else {
        let b0 = b.drop_last();
        assert(s.drop_last() =~= a + seq!['\n'] + b0);
        assert(s.last() == b.last());
        lemma_split_concat(a, b0);
        lemma_split_lines_nonempty(b0);
        lemma_split_lines_nonempty(a);
        let init = split_lines(a) + split_lines(b0);
        if b.last() == '\n' {
            assert(init.push(Seq::<char>::empty()) =~= split_lines(a) + split_lines(b));
        } else {
            let sb = split_lines(b0);
            assert(init.update(init.len() - 1, init.last().push(b.last())) =~= split_lines(a) + sb.update(
                sb.len() - 1,
                sb.last().push(b.last()),
            ));
        }
    }
}

proof fn lemma_last_line_nonempty(t: Seq<char>)
    requires
        t.len() > 0,
        t.last() != '\n',
    ensures
        split_lines(t).len() >= 1,
        split_lines(t).last().len() > 0,
{
    lemma_split_lines_nonempty(t.drop_last());
    lemma_split_lines_nonempty(t);
}

proof fn lemma_rows_prefix(a: Seq<Seq<char>>, b: Seq<Seq<char>>, k: int, width: nat)
    requires
        0 <= k <= a.len(),
        b.len() >= 1,
        a.len() >= 1,
        a.last().len() > 0,
    ensures
        rows_of_lines(a + b, k, width) == rows_of_lines(a, k, width),
    decreases k,
{
    if k > 0 {
        lemma_rows_prefix(a, b, k - 1, width);
        assert((a + b)[k - 1] == a[k - 1]);
    }
}

proof fn lemma_rows_suffix(a: Seq<Seq<char>>, b: Seq<Seq<char>>, j: int, width: nat)
    requires
        0 <= j <= b.len(),
    ensures
        rows_of_lines(a + b, a.len() + j, width) == rows_of_lines(a + b, a.len() as int, width)
            + rows_of_lines(b, j, width),
    decreases j,
{
    if j > 0 {
        lemma_rows_suffix(a, b, j - 1, width);
        assert((a + b)[a.len() + j - 1] == b[j - 1]);
    }
}

proof fn lemma_rows_of_nonempty_last(lines: Seq<Seq<char>>, k: int, width: nat)
    requires
        width > 0,
        1 <= k <= lines.len(),
        lines[k - 1].len() > 0,
    ensures
        rows_of_lines(lines, k, width) >= 1,
{
    let l = lines[k - 1];
    assert(utf8_len(l) >= 1) by {
        assert(l =~= seq![l[0]] + l.drop_first());
        lemma_encode_concat(seq![l[0]], l.drop_first());
        assert(seq![l[0]].drop_first() =~= Seq::<char>::empty());
        assert(vstd::utf8::encode_utf8(seq![l[0]]) == vstd::utf8::encode_scalar(l[0] as u32)
            + vstd::utf8::encode_utf8(Seq::<char>::empty()));
    }
    let n = utf8_len(l);
    assert(div_ceil(n, width) >= 1) by (nonlinear_arith)
        requires
            n >= 1,
            width > 0,
    {
        if n % width == 0 {
            assert(n == width * (n / width) + n % width);
        }
    }
}

/// A blank line between two texts takes a screen row of its own: for texts
/// without escape codes that are not empty and do not end with a line
/// break, the screen rows of `t`, an empty line and `u` are those of `t`,
/// one more, and those of `u` (e.g. `"hello\n\nworld"` takes three rows at
/// any positive width where each word fits on one).
pub proof fn lemma_blank_line_takes_a_row(t: Seq<char>, u: Seq<char>, width: nat)
    requires
        width > 0,
        no_escape(t),
        no_escape(u),
        t.len() > 0,
        t.last() != '\n',
        u.len() > 0,
        u.last() != '\n',
    ensures
        spec_count_lines(t + "\n\n"@ + u, width) == spec_count_lines(t, width) + 1 + spec_count_lines(u, width),
{
    reveal_strlit("\n\n");
    let whole = t + "\n\n"@ + u;
    let v = seq!['\n'] + u;
    assert(whole =~= t + seq!['\n'] + v);
    assert(v =~= Seq::<char>::empty() + seq!['\n'] + u);
    assert(no_escape(whole)) by {
        assert forall|i: int| 0 <= i < whole.len() implies whole[i] != '\x1b' by {
            if i < t.len() {
                assert(whole[i] == t[i]);
            } else if i < t.len() + 2 {
            } else {
                assert(whole[i] == u[i - t.len() - 2]);
            }
        }
    }
    lemma_strip_plain(whole);
    lemma_strip_plain(t);
    lemma_strip_plain(u);
    lemma_split_concat(t, v);
    lemma_split_concat(Seq::<char>::empty(), u);
    let st = split_lines(t);
    let su = split_lines(u);
    let e = split_lines(Seq::<char>::empty());
    assert(e =~= seq![Seq::<char>::empty()]);
    let m = e + su;
    let lines = st + m;
    assert(split_lines(whole) == lines);
    lemma_last_line_nonempty(t);
    lemma_last_line_nonempty(u);
    lemma_rows_suffix(st, m, m.len() as int, width);
    lemma_rows_prefix(st, m, st.len() as int, width);
    lemma_rows_suffix(e, su, su.len() as int, width);
    assert(rows_of_lines(m, 1, width) == 1) by {
        assert(m[0].len() == 0);
        assert(rows_of_lines(m, 0, width) == 0);
    }
    lemma_rows_of_nonempty_last(st, st.len() as int, width);
    lemma_rows_of_nonempty_last(su, su.len() as int, width);
    assert(st + m == lines);
}

/// A single line of text (no line break, no escape code) wraps onto just
/// enough rows of the given width to hold its bytes: `rows - 1` rows are too
/// few and `rows` rows are enough.
pub proof fn lemma_single_line_wraps(t: Seq<char>, width: nat)
    requires
        width > 0,
        t.len() > 0,
        no_escape(t),
        forall|i: int| 0 <= i < t.len() ==> t[i] != '\n',
    ensures
        (spec_count_lines(t, width) - 1) * width < utf8_len(t) <= spec_count_lines(t, width) * width,
{
    lemma_strip_plain(t);
    lemma_single_line_split(t);
    let lines = split_lines(t);
    assert(lines =~= seq![t]);
    assert(rows_of_lines(lines, 0, width) == 0);
    lemma_rows_of_nonempty_last(lines, 1, width);
    let n = utf8_len(t);
    let c = div_ceil(n, width);
    assert(n == width * (n / width) + n % width && 0 <= n % width < width) by (nonlinear_arith)
        requires
            width > 0,
    ;
    assert((c - 1) * width < n <= c * width) by (nonlinear_arith)
        requires
            width > 0,
            c == (if n % width == 0 { n / width } else { n / width + 1 }),
            n == width * (n / width) + n % width,
            0 <= n % width < width,
    ;
}

proof fn lemma_single_line_split(t: Seq<char>)
    requires
        forall|i: int| 0 <= i < t.len() ==> t[i] != '\n',
    ensures
        split_lines(t) == seq![t],
    decreases t.len(),
{
    if t.len() > 0 {
        let p = t.drop_last();
        assert forall|i: int| 0 <= i < p.len() implies p[i] != '\n' by {
            assert(p[i] == t[i]);
        }
        lemma_single_line_split(p);
        assert(p.push(t.last()) =~= t);
        assert(seq![p].update(0, p.push(t.last())) =~= seq![t]);
    } else {
        assert(t =~= Seq::<char>::empty());
    }
}

} // verus!
