//! Terminal output handling: a line-based ring buffer for console text, the
//! cleaning applied to every incoming chunk, tail trimming of a text buffer, and
//! the text shown for a stored run log.
use std::collections::VecDeque;
use vstd::prelude::*;
use crate::discovery::{file_name, file_name_of};
use crate::engine::{join_path, path_join};
use crate::i18n::{t, I18n};
use crate::text::{
    chars_of, push_char, push_str, replace_char, replace_char_chars, replace_seq, replace_str_chars,
    starts_with, string_from, string_of,
};
use crate::utils::{strip_ansi, strip_ansi_codes};

verus! {

broadcast use vstd::std_specs::vecdeque::group_vec_dequeue_axioms;

// ---------------------------------------------------------------------------
// The line model
// ---------------------------------------------------------------------------

/// Whether `l` is a finished line, i.e. ends with a newline.
pub open spec fn ends_line(l: Seq<char>) -> bool {
    l.len() > 0 && l.last() == '\n'
}

/// Whether the last stored line is still open (text after it continues it).
pub open spec fn open_tail(ls: Seq<Seq<char>>) -> bool {
    ls.len() > 0 && !ends_line(ls.last())
}

/// The lines after one more character arrives: it extends an open last line,
/// otherwise it starts a new line.
pub open spec fn feed_char(ls: Seq<Seq<char>>, c: char) -> Seq<Seq<char>> {
    if open_tail(ls) {
        ls.update(ls.len() - 1, ls.last().push(c))
    } else {
        ls.push(seq![c])
    }
}

/// The lines after the characters of `s` arrive one by one.
pub open spec fn feed(ls: Seq<Seq<char>>, s: Seq<char>) -> Seq<Seq<char>>
    decreases s.len(),
{
    if s.len() == 0 {
        ls
    } else {
        feed_char(feed(ls, s.drop_last()), s.last())
    }
}

/// The last `m` lines of `ls` (all of them when there are no more than `m`).
pub open spec fn keep_last(ls: Seq<Seq<char>>, m: nat) -> Seq<Seq<char>> {
    if ls.len() <= m {
        ls
    } else {
        ls.skip(ls.len() - m)
    }
}

/// The text of a sequence of lines, in order.
pub open spec fn concat(ls: Seq<Seq<char>>) -> Seq<char>
    decreases ls.len(),
{
    if ls.len() == 0 {
        Seq::empty()
    } else {
        concat(ls.drop_last()) + ls.last()
    }
}

/// A console chunk as it is stored: tabs become four spaces, `\r\n` and lone `\r`
/// become `\n`, and ANSI colour and erase-line sequences are removed.
pub open spec fn clean_chunk(text: Seq<char>) -> Seq<char> {
    strip_ansi(
        replace_char(
            replace_seq(replace_char(text, '\t', "    "@), "\r\n"@, "\n"@),
            '\r',
            "\n"@,
        ),
    )
}

// ---------------------------------------------------------------------------
// Laws of the line model
// ---------------------------------------------------------------------------

/// Feeding `a` and then `b` is feeding `a + b`.
pub proof fn lemma_feed_append(ls: Seq<Seq<char>>, a: Seq<char>, b: Seq<char>)
    ensures
        feed(ls, a + b) == feed(feed(ls, a), b),
    decreases b.len(),
{
    if b.len() == 0 {
        assert(a + b =~= a);
    } else {
        lemma_feed_append(ls, a, b.drop_last());
        assert((a + b).drop_last() =~= a + b.drop_last());
        assert((a + b).last() == b.last());
    }
}

/// No character is lost, added or reordered by splitting text into lines: the
/// lines after feeding `s` spell the old text followed by `s`.
pub proof fn lemma_feed_keeps_text(ls: Seq<Seq<char>>, s: Seq<char>)
    ensures
        concat(feed(ls, s)) == concat(ls) + s,
    decreases s.len(),
{
    if s.len() == 0 {
        assert(concat(ls) + s =~= concat(ls));
    } else {
        lemma_feed_keeps_text(ls, s.drop_last());
        let f = feed(ls, s.drop_last());
        let c = s.last();
        if open_tail(f) {
            let g = f.update(f.len() - 1, f.last().push(c));
            assert(g.drop_last() =~= f.drop_last());
            assert(concat(f) == concat(f.drop_last()) + f.last());
            assert(concat(g) =~= concat(f).push(c));
        } else {
            let g = f.push(seq![c]);
            assert(g.drop_last() =~= f);
            assert(concat(g) =~= concat(f).push(c));
        }
        assert(concat(ls) + s =~= (concat(ls) + s.drop_last()).push(c));
    }
}

/// A piece that has no newline before its last character extends an open last
/// line, or else becomes a line of its own.
pub proof fn lemma_feed_piece(ls: Seq<Seq<char>>, p: Seq<char>)
    requires
        p.len() > 0,
        forall|j: int| 0 <= j < p.len() - 1 ==> p[j] != '\n',
    ensures
        feed(ls, p) == (if open_tail(ls) {
            ls.update(ls.len() - 1, ls.last() + p)
        } else {
            ls.push(p)
        }),
    decreases p.len(),
{
    if p.len() == 1 {
        assert(p.drop_last() =~= Seq::<char>::empty());
        assert(feed(ls, p.drop_last()) == ls);
        assert(feed(ls, p) == feed_char(ls, p.last()));
        assert(seq![p.last()] =~= p);
        assert(ls.last().push(p.last()) =~= ls.last() + p);
    } else {
        let q = p.drop_last();
        lemma_feed_piece(ls, q);
        let c = p.last();
        assert(q.last() == p[p.len() - 2]);
        if open_tail(ls) {
            let f = ls.update(ls.len() - 1, ls.last() + q);
            assert(f.last() == ls.last() + q);
            assert((ls.last() + q).last() == q.last());
            assert(open_tail(f));
            assert((ls.last() + q).push(c) =~= ls.last() + p);
            assert(f.update(f.len() - 1, f.last().push(c)) =~= ls.update(ls.len() - 1, ls.last() + p));
        } else {
            let f = ls.push(q);
            assert(f.last() == q);
            assert(open_tail(f));
            assert(q.push(c) =~= p);
            assert(f.update(f.len() - 1, f.last().push(c)) =~= ls.push(p));
        }
    }
}

/// Dropping old lines before one character arrives keeps the same last `m` lines.
proof fn lemma_keep_last_feed_char(ls: Seq<Seq<char>>, c: char, m: nat)
    requires
        m >= 1,
    ensures
        keep_last(feed_char(keep_last(ls, m), c), m) == keep_last(feed_char(ls, c), m),
{
    if ls.len() > m {
        let k = ls.skip(ls.len() - m);
        assert(k.last() == ls.last());
        if open_tail(ls) {
            let x = ls.last().push(c);
            assert(k.update(k.len() - 1, x) =~= ls.update(ls.len() - 1, x).skip(ls.len() - m));
        } else {
            assert(k.push(seq![c]).skip(1) =~= ls.push(seq![c]).skip(ls.len() + 1 - m));
        }
    }
}

/// Dropping old lines early or late leaves the same last `m` lines: trimming the
/// buffer after every line gives what trimming once at the end would.
pub proof fn lemma_keep_last_feed(ls: Seq<Seq<char>>, s: Seq<char>, m: nat)
    requires
        m >= 1,
    ensures
        keep_last(feed(keep_last(ls, m), s), m) == keep_last(feed(ls, s), m),
    decreases s.len(),
{
    if s.len() > 0 {
        let k = keep_last(ls, m);
        lemma_keep_last_feed(ls, s.drop_last(), m);
        lemma_keep_last_feed_char(feed(k, s.drop_last()), s.last(), m);
        lemma_keep_last_feed_char(feed(ls, s.drop_last()), s.last(), m);
    }
}

/// Pushing text in two chunks leaves the same lines as pushing it at once: a line
/// split across chunks is joined again.
pub proof fn lemma_push_in_two_chunks(ls: Seq<Seq<char>>, a: Seq<char>, b: Seq<char>, m: nat)
    requires
        m >= 1,
    ensures
        keep_last(feed(keep_last(feed(ls, a), m), b), m) == keep_last(feed(ls, a + b), m),
{
    lemma_keep_last_feed(feed(ls, a), b, m);
    lemma_feed_append(ls, a, b);
}

/// The lines of a text as the buffer splits it: cut after every newline, with an
/// unterminated tail as one more line.
pub open spec fn text_lines_of(x: Seq<char>) -> Seq<Seq<char>> {
    feed(Seq::empty(), x)
}

/// The shape of lines that come from splitting text: none is empty, each holds a
/// newline only as its last character, and every one but the last ends with one.
pub open spec fn well_split(ls: Seq<Seq<char>>) -> bool {
    &&& forall|i: int| 0 <= i < ls.len() ==> (#[trigger] ls[i]).len() > 0
    &&& forall|i: int| 0 <= i < ls.len() - 1 ==> ends_line(#[trigger] ls[i])
    &&& forall|i: int, j: int|
        0 <= i < ls.len() && 0 <= j < ls[i].len() - 1 ==> (#[trigger] ls[i][j]) != '\n'
}

proof fn lemma_feed_char_well_split(ls: Seq<Seq<char>>, c: char)
    requires
        well_split(ls),
    ensures
        well_split(feed_char(ls, c)),
{
    let f = feed_char(ls, c);
    if open_tail(ls) {
        let n = ls.len() - 1;
        let x = ls.last().push(c);
        assert forall|i: int| 0 <= i < f.len() implies (#[trigger] f[i]).len() > 0 by {
            if i == n {
                assert(f[i] == x);
            } else {
                assert(f[i] == ls[i]);
            }
        }
        assert forall|i: int| 0 <= i < f.len() - 1 implies ends_line(#[trigger] f[i]) by {
            assert(f[i] == ls[i]);
        }
        assert forall|i: int, j: int|
            0 <= i < f.len() && 0 <= j < f[i].len() - 1 implies (#[trigger] f[i][j]) != '\n' by {
            if i == n {
                assert(f[i] == x);
                assert(x[j] == ls[n][j]);
                if j == ls[n].len() - 1 {
                    assert(ls[n][j] == ls.last().last());
                }
            } else {
                assert(f[i] == ls[i]);
            }
        }
    } else {
        let n = ls.len();
        assert forall|i: int| 0 <= i < f.len() implies (#[trigger] f[i]).len() > 0 by {
            if i == n {
                assert(f[i] == seq![c]);
            } else {
                assert(f[i] == ls[i]);
            }
        }
        assert forall|i: int| 0 <= i < f.len() - 1 implies ends_line(#[trigger] f[i]) by {
            assert(f[i] == ls[i]);
            if i == n - 1 {
                assert(ls[i] == ls.last());
            }
        }
        assert forall|i: int, j: int|
            0 <= i < f.len() && 0 <= j < f[i].len() - 1 implies (#[trigger] f[i][j]) != '\n' by {
            if i == n {
                assert(f[i] == seq![c]);
            } else {
                assert(f[i] == ls[i]);
            }
        }
    }
}

proof fn lemma_feed_well_split(ls: Seq<Seq<char>>, s: Seq<char>)
    requires
        well_split(ls),
    ensures
        well_split(feed(ls, s)),
    decreases s.len(),
{
    if s.len() > 0 {
        lemma_feed_well_split(ls, s.drop_last());
        lemma_feed_char_well_split(feed(ls, s.drop_last()), s.last());
    }
}

proof fn lemma_keep_last_well_split(ls: Seq<Seq<char>>, m: nat)
    requires
        well_split(ls),
    ensures
        well_split(keep_last(ls, m)),
{
    if ls.len() > m {
        let k = ls.skip(ls.len() - m);
        let d = ls.len() - m;
        assert forall|i: int| 0 <= i < k.len() implies (#[trigger] k[i]).len() > 0 by {
            assert(k[i] == ls[i + d]);
        }
        assert forall|i: int| 0 <= i < k.len() - 1 implies ends_line(#[trigger] k[i]) by {
            assert(k[i] == ls[i + d]);
        }
        assert forall|i: int, j: int|
            0 <= i < k.len() && 0 <= j < k[i].len() - 1 implies (#[trigger] k[i][j]) != '\n' by {
            assert(k[i] == ls[i + d]);
            assert(ls[i + d][j] != '\n');
        }
    }
}

/// Lines of the split shape are given back by splitting their text again.
pub proof fn lemma_well_split_lines_of_text(ls: Seq<Seq<char>>)
    requires
        well_split(ls),
    ensures
        text_lines_of(concat(ls)) == ls,
    decreases ls.len(),
{
    if ls.len() == 0 {
        assert(feed(Seq::<Seq<char>>::empty(), Seq::<char>::empty()) == Seq::<Seq<char>>::empty());
    } else {
        let dl = ls.drop_last();
        let last = ls.last();
        assert forall|i: int| 0 <= i < dl.len() implies (#[trigger] dl[i]).len() > 0 by {
            assert(dl[i] == ls[i]);
        }
        assert forall|i: int| 0 <= i < dl.len() - 1 implies ends_line(#[trigger] dl[i]) by {
            assert(dl[i] == ls[i]);
        }
        assert forall|i: int, j: int|
            0 <= i < dl.len() && 0 <= j < dl[i].len() - 1 implies (#[trigger] dl[i][j]) != '\n' by {
            assert(dl[i] == ls[i]);
            assert(ls[i][j] != '\n');
        }
        lemma_well_split_lines_of_text(dl);
        lemma_feed_append(Seq::empty(), concat(dl), last);
        assert forall|j: int| 0 <= j < last.len() - 1 implies last[j] != '\n' by {
            assert(ls[ls.len() - 1][j] != '\n');
        }
        assert(last.len() > 0) by {
            assert(ls[ls.len() - 1].len() > 0);
        }
        lemma_feed_piece(dl, last);
        if dl.len() > 0 {
            assert(ends_line(dl[dl.len() - 1])) by {
                assert(dl[dl.len() - 1] == ls[ls.len() - 2]);
            }
        }
        assert(dl.push(last) =~= ls);
    }
}

// ---------------------------------------------------------------------------
// Tail trimming of a text buffer
// ---------------------------------------------------------------------------

/// Number of bytes of `c` in UTF-8.
pub open spec fn utf8_width(c: char) -> nat {
    if (c as u32) < 0x80 {
        1
    } else if (c as u32) < 0x800 {
        2
    } else if (c as u32) < 0x10000 {
        3
    } else {
        4
    }
}

/// Number of bytes of `s` in UTF-8.
pub open spec fn utf8_len(s: Seq<char>) -> nat
    decreases s.len(),
{
    if s.len() == 0 {
        0
    } else {
        utf8_len(s.drop_last()) + utf8_width(s.last())
    }
}

/// Number of newlines in `s`.
pub open spec fn count_newlines(s: Seq<char>) -> nat
    decreases s.len(),
{
    if s.len() == 0 {
        0
    } else {
        count_newlines(s.drop_last()) + if s.last() == '\n' {
            1nat
        } else {
            0nat
        }
    }
}

/// Where the kept text starts when at most `m` newlines may be kept: just after
/// the newline that is the `m + 1`-th counted from the end, or 0 if there is none.
pub open spec fn line_cut(s: Seq<char>, m: nat) -> nat
    decreases s.len(),
{
    if s.len() == 0 {
        0
    } else if s.last() == '\n' {
        if m == 0 {
            s.len()
        } else {
            line_cut(s.drop_last(), (m - 1) as nat)
        }
    } else {
        line_cut(s.drop_last(), m)
    }
}

/// The first character index at which at least `target` bytes of `s` lie before it.
pub open spec fn byte_ceil(s: Seq<char>, target: int) -> nat
    decreases s.len(),
{
    if target <= 0 || s.len() == 0 {
        0
    } else {
        1 + byte_ceil(s.drop_first(), target - utf8_width(s[0]))
    }
}

/// Index of the first newline in `s`, if any.
pub open spec fn first_newline(s: Seq<char>) -> Option<nat>
    decreases s.len(),
{
    if s.len() == 0 {
        None
    } else if s[0] == '\n' {
        Some(0)
    } else {
        match first_newline(s.drop_first()) {
            Some(k) => Some(k + 1),
            None => None,
        }
    }
}

/// Where the kept tail of `s` starts: after the newest `max_lines` lines; and if
/// that is over `max_bytes` bytes, at the first character boundary that leaves no
/// more than `max_bytes`, moved on past the next newline when there is one.
pub open spec fn tail_start(s: Seq<char>, max_lines: nat, max_bytes: nat) -> nat {
    let k = line_cut(s, max_lines);
    if utf8_len(s.skip(k as int)) > max_bytes {
        let b = byte_ceil(s, utf8_len(s) - max_bytes);
        match first_newline(s.skip(b as int)) {
            Some(j) => b + j + 1,
            None => b,
        }
    } else {
        k
    }
}

proof fn lemma_utf8_len_split(s: Seq<char>, j: int)
    requires
        0 <= j <= s.len(),
    ensures
        utf8_len(s) == utf8_len(s.take(j)) + utf8_len(s.skip(j)),
    decreases s.len(),
{
    if j == s.len() {
        assert(s.take(j) =~= s);
        assert(s.skip(j) =~= Seq::<char>::empty());
    } else {
        let d = s.drop_last();
        lemma_utf8_len_split(d, j);
        assert(d.take(j) =~= s.take(j));
        assert(s.skip(j).drop_last() =~= d.skip(j));
        assert(s.skip(j).last() == s.last());
    }
}

proof fn lemma_count_newlines_split(s: Seq<char>, j: int)
    requires
        0 <= j <= s.len(),
    ensures
        count_newlines(s) == count_newlines(s.take(j)) + count_newlines(s.skip(j)),
    decreases s.len(),
{
    if j == s.len() {
        assert(s.take(j) =~= s);
        assert(s.skip(j) =~= Seq::<char>::empty());
    } else {
        let d = s.drop_last();
        lemma_count_newlines_split(d, j);
        assert(d.take(j) =~= s.take(j));
        assert(s.skip(j).drop_last() =~= d.skip(j));
        assert(s.skip(j).last() == s.last());
    }
}

proof fn lemma_line_cut(s: Seq<char>, m: nat)
    ensures
        line_cut(s, m) <= s.len(),
        count_newlines(s.skip(line_cut(s, m) as int)) <= m,
    decreases s.len(),
{
    if s.len() > 0 {
        let d = s.drop_last();
        let c = line_cut(s, m);
        if s.last() == '\n' && m == 0 {
            assert(s.skip(s.len() as int) =~= Seq::<char>::empty());
        } else {
            let m2: nat = if s.last() == '\n' { (m - 1) as nat } else { m };
            lemma_line_cut(d, m2);
            assert(c == line_cut(d, m2));
            assert(s.skip(c as int).drop_last() =~= d.skip(c as int));
            assert(s.skip(c as int).last() == s.last());
        }
    }
}

proof fn lemma_byte_ceil(s: Seq<char>, t: int)
    requires
        t <= utf8_len(s),
    ensures
        byte_ceil(s, t) <= s.len(),
        utf8_len(s.skip(byte_ceil(s, t) as int)) <= utf8_len(s) - t,
    decreases s.len(),
{
    if t <= 0 || s.len() == 0 {
        assert(s.skip(0) =~= s);
    } else {
        let d = s.drop_first();
        lemma_utf8_len_split(s, 1);
        assert(s.take(1).drop_last() =~= Seq::<char>::empty());
        assert(s.take(1).last() == s[0]);
        assert(utf8_len(s.take(1).drop_last()) == 0);
        assert(utf8_len(s.take(1)) == utf8_width(s[0]));
        assert(s.skip(1) =~= d);
        lemma_byte_ceil(d, t - utf8_width(s[0]));
        let b = byte_ceil(d, t - utf8_width(s[0]));
        assert(s.skip(1 + b as int) =~= d.skip(b as int));
    }
}

proof fn lemma_first_newline(s: Seq<char>, b: int, p: int)
    requires
        0 <= b <= p <= s.len(),
        forall|q: int| b <= q < p ==> s[q] != '\n',
    ensures
        p < s.len() && s[p] == '\n' ==> first_newline(s.skip(b)) == Some((p - b) as nat),
        p == s.len() ==> first_newline(s.skip(b)) is None,
    decreases p - b,
{
    if b < p {
        lemma_first_newline(s, b + 1, p);
        assert(s.skip(b).drop_first() =~= s.skip(b + 1));
        assert(s.skip(b)[0] == s[b]);
    } else if p < s.len() {
        assert(s.skip(b)[0] == s[b]);
    }
}

/// Number of bytes of `c` in UTF-8.
pub(crate) fn utf8_width_of(c: char) -> (w: u8)
    ensures
        w == utf8_width(c),
        1 <= w <= 4,
{
    let u = c as u32;
    if u < 0x80 {
        1
    } else if u < 0x800 {
        2
    } else if u < 0x10000 {
        3
    } else {
        4
    }
}

/// Number of UTF-8 bytes of the characters from `lo` to the end of `v`.
pub(crate) fn utf8_len_from(v: &Vec<char>, lo: usize) -> (r: u128)
    requires
        lo <= v@.len(),
    ensures
        r == utf8_len(v@.skip(lo as int)),
        r <= 4 * (v@.len() - lo),
{
    let n = v.len();
    let mut acc: u128 = 0;
    let mut j = lo;
    assert(v@.subrange(lo as int, lo as int) =~= Seq::<char>::empty());
    while j < n
        invariant
            n == v@.len(),
            lo <= j <= n,
            acc == utf8_len(v@.subrange(lo as int, j as int)),
            acc <= 4 * (j - lo),
        decreases n - j,
    {
        let w = utf8_width_of(v[j]);
        assert(v@.subrange(lo as int, j + 1).drop_last() =~= v@.subrange(lo as int, j as int));
        acc = acc + w as u128;
        j += 1;
    }
    assert(v@.subrange(lo as int, n as int) =~= v@.skip(lo as int));
    acc
}

/// Where the newest `max_lines` lines of `v` start.
fn line_cut_of(v: &Vec<char>, max_lines: usize) -> (k: usize)
    ensures
        k == line_cut(v@, max_lines as nat),
{
    let ghost s = v@;
    let n = v.len();
    let mut i = n;
    let mut left = max_lines;
    assert(s.take(n as int) =~= s);
    while i > 0
        invariant
            n == s.len(),
            v@ == s,
            i <= n,
            line_cut(s, max_lines as nat) == line_cut(s.take(i as int), left as nat),
        decreases i,
    {
        let ghost t = s.take(i as int);
        assert(t.drop_last() =~= s.take(i - 1));
        assert(t.last() == s[i - 1]);
        if v[i - 1] == '\n' {
            if left == 0 {
                assert(t.len() == i);
                return i;
            }
            left -= 1;
        }
        i -= 1;
    }
    assert(s.take(0) =~= Seq::<char>::empty());
    0
}

/// The first character index of `v` with at least `target` bytes before it.
fn byte_ceil_of(v: &Vec<char>, target: i128) -> (b: usize)
    requires
        target > 0,
    ensures
        b == byte_ceil(v@, target as int),
{
    let ghost s = v@;
    let n = v.len();
    let mut b: usize = 0;
    let mut t: i128 = target;
    assert(s.skip(0) =~= s);
    while t > 0 && b < n
        invariant
            n == s.len(),
            v@ == s,
            b <= n,
            -4 <= t <= target,
            byte_ceil(s, target as int) == b + byte_ceil(s.skip(b as int), t as int),
        decreases n - b,
    {
        let ghost r = s.skip(b as int);
        assert(r.drop_first() =~= s.skip(b + 1));
        assert(r[0] == s[b as int]);
        let w = utf8_width_of(v[b]);
        t = t - w as i128;
        b += 1;
    }
    assert(byte_ceil(s.skip(b as int), t as int) == 0);
    b
}

/// Just past the first newline at or after `b`, or `b` when there is none.
fn past_newline(v: &Vec<char>, b: usize) -> (k: usize)
    requires
        b <= v@.len(),
    ensures
        k == match first_newline(v@.skip(b as int)) {
            Some(j) => b + j + 1,
            None => b as int,
        },
        k <= v@.len(),
{
    let n = v.len();
    let mut p = b;
    while p < n && v[p] != '\n'
        invariant
            n == v@.len(),
            b <= p <= n,
            forall|q: int| b <= q < p ==> v@[q] != '\n',
        decreases n - p,
    {
        p += 1;
    }
    proof {
        lemma_first_newline(v@, b as int, p as int);
    }
    if p < n {
        p + 1
    } else {
        b
    }
}

/// Trims a text buffer to its most recent lines and at most `max_bytes` bytes,
/// cutting only at character boundaries.
pub fn trim_terminal_buffer(buf: &mut String, max_lines: usize, max_bytes: usize)
    ensures
        final(buf)@ == old(buf)@.skip(tail_start(old(buf)@, max_lines as nat, max_bytes as nat) as int),
        final(buf)@ == old(buf)@.skip(old(buf)@.len() - final(buf)@.len()),
        utf8_len(final(buf)@) <= max_bytes,
        count_newlines(final(buf)@) <= max_lines,
{
    let ghost s = buf@;
    let cs = chars_of(buf.as_str());
    let n = cs.len();
    if n == 0 {
        assert(s.skip(0) =~= s);
        return;
    }
    let k = line_cut_of(&cs, max_lines);
    proof {
        lemma_line_cut(s, max_lines as nat);
    }
    let mut keep = k;
    let tail_bytes = utf8_len_from(&cs, k);
    if tail_bytes > max_bytes as u128 {
        let total = utf8_len_from(&cs, 0);
        assert(s.skip(0) =~= s);
        proof {
            lemma_utf8_len_split(s, k as int);
        }
        let target: i128 = (total - max_bytes as u128) as i128;
        let b = byte_ceil_of(&cs, target);
        proof {
            lemma_byte_ceil(s, target as int);
            if b < k {
                lemma_utf8_len_split(s.skip(b as int), k - b);
                assert(s.skip(b as int).skip(k - b) =~= s.skip(k as int));
            }
        }
        keep = past_newline(&cs, b);
        proof {
            lemma_utf8_len_split(s.skip(b as int), keep - b);
            assert(s.skip(b as int).skip(keep - b) =~= s.skip(keep as int));
            lemma_count_newlines_split(s.skip(k as int), keep - k);
            assert(s.skip(k as int).skip(keep - k) =~= s.skip(keep as int));
        }
    }
    let r = string_between(&cs, keep, n);
    assert(s.subrange(keep as int, n as int) =~= s.skip(keep as int));
    *buf = r;
}

// ---------------------------------------------------------------------------
// Cleaning
// ---------------------------------------------------------------------------

proof fn lemma_replace_seq_keeps_absent(s: Seq<char>, p: Seq<char>, r: Seq<char>, d: char)
    requires
        !s.contains(d),
        !r.contains(d),
    ensures
        !replace_seq(s, p, r).contains(d),
    decreases s.len(),
{
    if s.len() > 0 {
        let out = replace_seq(s, p, r);
        if p.len() > 0 && starts_with(s, p) {
            let rest = s.skip(p.len() as int);
            assert(!rest.contains(d)) by {
                if rest.contains(d) {
                    let k = choose|k: int| 0 <= k < rest.len() && rest[k] == d;
                    assert(s[k + p.len()] == d);
                }
            }
            lemma_replace_seq_keeps_absent(rest, p, r, d);
            let tail = replace_seq(rest, p, r);
            assert(!out.contains(d)) by {
                if out.contains(d) {
                    let k = choose|k: int| 0 <= k < out.len() && out[k] == d;
                    if k < r.len() {
                        assert(r[k] == d);
                    } else {
                        assert(tail[k - r.len()] == d);
                    }
                }
            }
        } else {
            let rest = s.drop_first();
            assert(!rest.contains(d)) by {
                if rest.contains(d) {
                    let k = choose|k: int| 0 <= k < rest.len() && rest[k] == d;
                    assert(s[k + 1] == d);
                }
            }
            lemma_replace_seq_keeps_absent(rest, p, r, d);
            let tail = replace_seq(rest, p, r);
            assert(!out.contains(d)) by {
                if out.contains(d) {
                    let k = choose|k: int| 0 <= k < out.len() && out[k] == d;
                    if k == 0 {
                        assert(s[0] == d);
                    } else {
                        assert(tail[k - 1] == d);
                    }
                }
            }
        }
    }
}

proof fn lemma_strip_ansi_keeps_absent(s: Seq<char>, d: char)
    requires
        !s.contains(d),
    ensures
        !strip_ansi(s).contains(d),
    decreases s.len(),
{
    if s.len() > 0 {
        match crate::utils::ansi_match_len(s) {
            Some(n) => {
                if 0 < n <= s.len() {
                    let rest = s.skip(n as int);
                    assert(!rest.contains(d)) by {
                        if rest.contains(d) {
                            let k = choose|k: int| 0 <= k < rest.len() && rest[k] == d;
                            assert(s[k + n] == d);
                        }
                    }
                    lemma_strip_ansi_keeps_absent(rest, d);
                }
            },
            None => {
                let rest = s.drop_first();
                assert(!rest.contains(d)) by {
                    if rest.contains(d) {
                        let k = choose|k: int| 0 <= k < rest.len() && rest[k] == d;
                        assert(s[k + 1] == d);
                    }
                }
                lemma_strip_ansi_keeps_absent(rest, d);
                let tail = strip_ansi(rest);
                let out = strip_ansi(s);
                assert(!out.contains(d)) by {
                    if out.contains(d) {
                        let k = choose|k: int| 0 <= k < out.len() && out[k] == d;
                        if k == 0 {
                            assert(s[0] == d);
                        } else {
                            assert(tail[k - 1] == d);
                        }
                    }
                }
            },
        }
    }
}

/// A cleaned chunk holds no tab and no carriage return.
pub proof fn lemma_clean_chunk_plain(text: Seq<char>)
    ensures
        !clean_chunk(text).contains('\t'),
        !clean_chunk(text).contains('\r'),
{
    reveal_strlit("    ");
    reveal_strlit("\r\n");
    reveal_strlit("\n");
    let sp = "    "@;
    let nl = "\n"@;
    assert(!sp.contains('\t') && !sp.contains('\r'));
    assert(!nl.contains('\t') && !nl.contains('\r'));
    let t1 = replace_char(text, '\t', sp);
    crate::export::lemma_replace_char_removes(text, '\t', sp, '\t');
    let t2 = replace_seq(t1, "\r\n"@, nl);
    lemma_replace_seq_keeps_absent(t1, "\r\n"@, nl, '\t');
    let t3 = replace_char(t2, '\r', nl);
    crate::export::lemma_replace_char_removes(t2, '\r', nl, '\t');
    crate::export::lemma_replace_char_removes(t2, '\r', nl, '\r');
    lemma_strip_ansi_keeps_absent(t3, '\t');
    lemma_strip_ansi_keeps_absent(t3, '\r');
}

/// Sanitizes an incoming console chunk: tabs become four spaces, `\r\n` and `\r`
/// become `\n`, and ANSI colour and cursor codes are stripped.
pub fn clean_terminal_chunk(text: &str) -> (r: String)
    ensures
        r@ == clean_chunk(text@),
        !r@.contains('\t'),
        !r@.contains('\r'),
{
    proof {
        lemma_clean_chunk_plain(text@);
    }
    proof {
        reveal_strlit("    ");
        reveal_strlit("\r\n");
        reveal_strlit("\n");
    }
    let v = chars_of(text);
    let v1 = replace_char_chars(v.as_slice(), '\t', "    ");
    let v2 = replace_str_chars(v1.as_slice(), "\r\n", "\n");
    let v3 = replace_char_chars(v2.as_slice(), '\r', "\n");
    let s = string_of(v3.as_slice());
    strip_ansi_codes(s.as_str())
}

// ---------------------------------------------------------------------------
// The ring buffer
// ---------------------------------------------------------------------------

/// A line-based ring buffer holding at most `max_lines` lines of terminal text.
/// The last line may be partial; text pushed later continues it.
#[derive(Debug, Clone)]
pub struct TerminalRingBuffer {
    lines: VecDeque<String>,
    max_lines: usize,
    has_partial_line: bool,
}

impl View for TerminalRingBuffer {
    type V = Seq<Seq<char>>;

    /// The stored lines, oldest first.
    closed spec fn view(&self) -> Seq<Seq<char>> {
        self.lines@.map_values(|l: String| l@)
    }
}

/// The characters from `lo` up to (not including) `hi` as a string.
fn string_between(v: &Vec<char>, lo: usize, hi: usize) -> (s: String)
    requires
        lo <= hi <= v@.len(),
    ensures
        s@ == v@.subrange(lo as int, hi as int),
{
    let mut s = String::new();
    let mut k = lo;
    while k < hi
        invariant
            lo <= k <= hi,
            hi <= v@.len(),
            s@ == v@.subrange(lo as int, k as int),
        decreases hi - k,
    {
        push_char(&mut s, v[k]);
        assert(v@.subrange(lo as int, k + 1) =~= v@.subrange(lo as int, k as int).push(v@[k as int]));
        k += 1;
    }
    s
}

impl TerminalRingBuffer {
    /// The most lines the buffer keeps.
    pub closed spec fn capacity(&self) -> nat {
        self.max_lines as nat
    }

    /// The buffer's invariant: a positive capacity that the lines do not exceed,
    /// the partial-line flag telling whether the last line is unfinished, and the
    /// lines in the shape that splitting text gives.
    pub closed spec fn wf(&self) -> bool {
        &&& self.max_lines >= 1
        &&& self.lines@.len() <= self.max_lines
        &&& self.has_partial_line == open_tail(self@)
        &&& well_split(self@)
    }

    /// The buffer never holds more lines than its capacity, which is at least one.
    pub proof fn lemma_within_capacity(&self)
        requires
            self.wf(),
        ensures
            self@.len() <= self.capacity(),
            self.capacity() >= 1,
    {
    }

    /// The stored lines have the shape that splitting text gives, so they are
    /// exactly the lines of the buffered text.
    pub proof fn lemma_lines_are_text_lines(&self)
        requires
            self.wf(),
        ensures
            well_split(self@),
            text_lines_of(concat(self@)) == self@,
    {
        lemma_well_split_lines_of_text(self@);
    }

    /// An empty buffer keeping at most `max_lines` lines (at least one).
    pub fn new(max_lines: usize) -> (r: Self)
        ensures
            r.wf(),
            r@ == Seq::<Seq<char>>::empty(),
            r.capacity() == if max_lines >= 1 { max_lines as nat } else { 1 },
    {
        let m = if max_lines >= 1 { max_lines } else { 1 };
        let r = TerminalRingBuffer { lines: VecDeque::new(), max_lines: m, has_partial_line: false };
        assert(r@ =~= Seq::<Seq<char>>::empty());
        r
    }

    /// Changes the capacity (at least one line) and drops the oldest lines that no
    /// longer fit.
    pub fn set_max_lines(&mut self, max_lines: usize)
        requires
            old(self).wf(),
        ensures
            final(self).wf(),
            final(self).capacity() == if max_lines >= 1 { max_lines as nat } else { 1 },
            final(self)@ == keep_last(old(self)@, final(self).capacity()),
    {
        self.max_lines = if max_lines >= 1 { max_lines } else { 1 };
        self.trim();
    }

    /// The capacity.
    pub fn max_lines(&self) -> (r: usize)
        ensures
            r == self.capacity(),
    {
        self.max_lines
    }

    /// The number of stored lines.
    pub fn len(&self) -> (r: usize)
        ensures
            r == self@.len(),
    {
        self.lines.len()
    }

    /// Whether no line is stored.
    pub fn is_empty(&self) -> (r: bool)
        ensures
            r == (self@.len() == 0),
    {
        self.lines.len() == 0
    }

    /// Removes every line.
    pub fn clear(&mut self)
        requires
            old(self).wf(),
        ensures
            final(self).wf(),
            final(self).capacity() == old(self).capacity(),
            final(self)@ == Seq::<Seq<char>>::empty(),
    {
        self.lines.clear();
        self.has_partial_line = false;
        assert(self@ =~= Seq::<Seq<char>>::empty());
    }

    /// Appends incoming text, which may hold several lines or part of one: it is
    /// cleaned, split into lines (continuing a partial last line), and only the
    /// newest `capacity` lines are kept.
    pub fn push_str(&mut self, text: &str)
        requires
            old(self).wf(),
        ensures
            final(self).wf(),
            final(self).capacity() == old(self).capacity(),
            final(self)@ == keep_last(feed(old(self)@, clean_chunk(text@)), old(self).capacity()),
            final(self)@ == keep_last(
                text_lines_of(concat(old(self)@) + clean_chunk(text@)),
                old(self).capacity(),
            ),
    {
        proof {
            lemma_well_split_lines_of_text(self@);
            lemma_feed_append(Seq::empty(), concat(self@), clean_chunk(text@));
        }
        let ghost l0 = self@;
        let ghost m = self.capacity();
        let cleaned = clean_terminal_chunk(text);
        let cs = chars_of(cleaned.as_str());
        let ghost s = cs@;
        assert(keep_last(l0, m) == l0);
        assert(s.take(0) =~= Seq::<char>::empty());
        let n = cs.len();
        let mut start: usize = 0;
        let mut i: usize = 0;
        while i < n
            invariant
                n == s.len(),
                cs@ == s,
                s == clean_chunk(text@),
                start <= i <= n,
                m >= 1,
                self.wf(),
                self.capacity() == m,
                self@ == keep_last(feed(l0, s.take(start as int)), m),
                forall|j: int| start <= j < i ==> s[j] != '\n',
            decreases n - i,
        {
            if cs[i] == '\n' {
                let piece = string_between(&cs, start, i + 1);
                proof {
                    let p = piece@;
                    assert(p.last() == '\n');
                    assert forall|j: int| 0 <= j < p.len() - 1 implies p[j] != '\n' by {
                        assert(p[j] == s[start + j]);
                    }
                    lemma_keep_last_feed(feed(l0, s.take(start as int)), p, m);
                    lemma_feed_append(l0, s.take(start as int), p);
                    assert(s.take(start as int) + p =~= s.take(i + 1));
                }
                self.append_piece(piece, true);
                start = i + 1;
            }
            i += 1;
        }
        if start < n {
            let piece = string_between(&cs, start, n);
            proof {
                let p = piece@;
                assert(p.last() == s[n - 1]);
                assert forall|j: int| 0 <= j < p.len() implies p[j] != '\n' by {
                    assert(p[j] == s[start + j]);
                }
                lemma_keep_last_feed(feed(l0, s.take(start as int)), p, m);
                lemma_feed_append(l0, s.take(start as int), p);
                assert(s.take(start as int) + p =~= s.take(n as int));
            }
            self.append_piece(piece, false);
        }
        assert(s.take(n as int) =~= s);
    }

    /// Adds a piece of text that has no newline before its last character: it
    /// continues the partial last line or starts a new one; then the oldest lines
    /// beyond the capacity are dropped.
    fn append_piece(&mut self, piece: String, complete: bool)
        requires
            old(self).wf(),
            piece@.len() > 0,
            forall|j: int| 0 <= j < piece@.len() - 1 ==> piece@[j] != '\n',
            complete == (piece@.last() == '\n'),
        ensures
            final(self).wf(),
            final(self).capacity() == old(self).capacity(),
            final(self)@ == keep_last(feed(old(self)@, piece@), old(self).capacity()),
    {
        let ghost l0 = self@;
        let ghost p = piece@;
        proof {
            lemma_feed_piece(l0, p);
            lemma_feed_well_split(l0, p);
        }
        if self.has_partial_line {
            match self.lines.pop_back() {
                Some(mut last) => {
                    crate::text::push_str(&mut last, piece.as_str());
                    self.lines.push_back(last);
                    assert(self@ =~= l0.update(l0.len() - 1, l0.last() + p));
                },
                None => {},
            }
        } else {
            self.lines.push_back(piece);
            assert(self@ =~= l0.push(p));
        }
        assert(self@.last() == l0.last() + p || self@.last() == p);
        assert((l0.last() + p).last() == p.last());
        self.has_partial_line = !complete;
        self.trim();
    }

    /// Drops the oldest lines until no more than the capacity remain.
    fn trim(&mut self)
        requires
            old(self).max_lines >= 1,
            old(self).has_partial_line == open_tail(old(self)@),
            well_split(old(self)@),
        ensures
            final(self).wf(),
            final(self).max_lines == old(self).max_lines,
            final(self)@ == keep_last(old(self)@, old(self).capacity()),
    {
        let ghost l0 = self@;
        let ghost m = self.max_lines as nat;
        while self.lines.len() > self.max_lines
            invariant
                self.max_lines == m,
                m >= 1,
                self.has_partial_line == open_tail(l0),
                self@.len() <= l0.len(),
                self@.len() >= m || self@.len() == l0.len(),
                self@ == l0.skip(l0.len() - self@.len()),
            decreases self@.len(),
        {
            let ghost before = self@;
            let _ = self.lines.pop_front();
            assert(self@ =~= before.skip(1));
            assert(self@ =~= l0.skip(l0.len() - self@.len()));
        }
        assert(l0.skip(0) =~= l0);
        assert(l0.len() > 0 ==> self@.last() == l0.last());
        proof {
            lemma_keep_last_well_split(l0, m);
        }
    }

    /// The buffered text: the stored lines in order.
    pub fn to_string(&self) -> (r: String)
        ensures
            r@ == concat(self@),
    {
        let mut r = String::new();
        let n = self.lines.len();
        let mut i: usize = 0;
        assert(self@.take(0) =~= Seq::<Seq<char>>::empty());
        while i < n
            invariant
                n == self@.len(),
                i <= n,
                r@ == concat(self@.take(i as int)),
            decreases n - i,
        {
            crate::text::push_str(&mut r, self.lines[i].as_str());
            assert(self@.take(i + 1).drop_last() =~= self@.take(i as int));
            assert(self@[i as int] == self.lines@[i as int]@);
            i += 1;
        }
        assert(self@.take(n as int) =~= self@);
        r
    }
}

// ---------------------------------------------------------------------------
// Stored run logs
// ---------------------------------------------------------------------------

/// At most this many bytes of a run log are shown: its end.
pub const LOG_VIEW_LIMIT: usize = 65536;

/// The part of a run log that is shown: its last `LOG_VIEW_LIMIT` bytes.
pub open spec fn log_tail(bytes: Seq<u8>) -> Seq<u8> {
    if bytes.len() > LOG_VIEW_LIMIT {
        bytes.skip(bytes.len() - LOG_VIEW_LIMIT)
    } else {
        bytes
    }
}

/// What `String::from_utf8_lossy` gives for these bytes.
pub uninterp spec fn utf8_lossy(bytes: Seq<u8>) -> Seq<char>;

/// `String::from_utf8_lossy`: the text of the bytes with each invalid sequence
/// replaced by U+FFFD. The contract names the result, and states what std
/// documents of valid input: it is decoded as it is.
#[verifier::external_body]
fn decode_lossy(bytes: &[u8]) -> (r: String)
    ensures
        r@ == utf8_lossy(bytes@),
        vstd::utf8::valid_utf8(bytes@) ==> r@ == vstd::utf8::decode_utf8(bytes@),
{
    String::from_utf8_lossy(bytes).into_owned()
}

/// The text shown for a run log read as `bytes`: a note when it is empty, else
/// its last `LOG_VIEW_LIMIT` bytes decoded (invalid sequences replaced).
pub fn log_view_text(i18n: &I18n, bytes: &[u8]) -> (r: String)
    ensures
        r@ == if bytes@.len() == 0 {
            i18n.text_for("log_file_empty"@)
        } else {
            utf8_lossy(log_tail(bytes@))
        },
        bytes@.len() > 0 && vstd::utf8::valid_utf8(log_tail(bytes@)) ==> r@ == vstd::utf8::decode_utf8(
            log_tail(bytes@),
        ),
{
    if bytes.len() == 0 {
        return t(i18n, "log_file_empty");
    }
    let n = bytes.len();
    let start: usize = if n > LOG_VIEW_LIMIT {
        n - LOG_VIEW_LIMIT
    } else {
        0
    };
    let mut tail: Vec<u8> = Vec::new();
    let mut j: usize = start;
    while j < n
        invariant
            n == bytes@.len(),
            start <= j <= n,
            tail@ == bytes@.subrange(start as int, j as int),
        decreases n - j,
    {
        tail.push(bytes[j]);
        assert(bytes@.subrange(start as int, j + 1) =~= bytes@.subrange(start as int, j as int).push(
            bytes@[j as int],
        ));
        j += 1;
    }
    assert(tail@ =~= log_tail(bytes@));
    decode_lossy(tail.as_slice())
}

/// The places a stored log path is looked for, in order: the path itself, then
/// a file of the same name in the logs directory (none for an empty path).
pub fn log_candidates(logs_dir: &str, stored: &str) -> (r: Vec<String>)
    ensures
        r.deep_view() == if stored@.len() == 0 {
            Seq::<Seq<char>>::empty()
        } else {
            match file_name_of(stored@) {
                Some(n) => seq![stored@, path_join(logs_dir@, n)],
                None => seq![stored@],
            }
        },
{
    let mut r: Vec<String> = Vec::new();
    if stored.is_empty() {
        assert(r.deep_view() =~= Seq::<Seq<char>>::empty());
        return r;
    }
    r.push(string_from(stored));
    match file_name(stored) {
        Some(n) => {
            r.push(join_path(logs_dir, n.as_str()));
            assert(r.deep_view() =~= seq![stored@, path_join(logs_dir@, n@)]);
        },
        None => {
            assert(r.deep_view() =~= seq![stored@]);
        },
    }
    r
}

/// The text shown when a run log cannot be read: the error and the file.
pub fn log_read_error_text(i18n: &I18n, error: &str, path: &str) -> (r: String)
    ensures
        r@ == i18n.text_for("log_file_read_error"@) + " "@ + error@ + "\n"@ + i18n.text_for("file"@)
            + ": "@ + path@,
{
    let mut s = t(i18n, "log_file_read_error");
    push_str(&mut s, " ");
    push_str(&mut s, error);
    push_str(&mut s, "\n");
    let f = t(i18n, "file");
    push_str(&mut s, f.as_str());
    push_str(&mut s, ": ");
    push_str(&mut s, path);
    s
}

// ---------------------------------------------------------------------------
// Reading the end of the console log
// ---------------------------------------------------------------------------

/// The console log is read backwards in pieces of this many bytes...
pub const TAIL_CHUNK_BYTES: u64 = 65536;

/// ...and no more than this many bytes in all.
pub const TAIL_MAX_BYTES: u64 = 524288;

/// The size of the next piece to read backwards from `pos`: while something is
/// left before `pos`, no more than `max_lines` newlines were seen and less than
/// `TAIL_MAX_BYTES` were read, the piece ending at `pos` of at most
/// `TAIL_CHUNK_BYTES`; otherwise none.
pub fn tail_next_chunk(pos: u64, newlines: usize, total_read: u64, max_lines: usize) -> (r: Option<u64>)
    ensures
        r == if pos > 0 && newlines <= max_lines && total_read < TAIL_MAX_BYTES {
            Some(
                if pos < TAIL_CHUNK_BYTES {
                    pos
                } else {
                    TAIL_CHUNK_BYTES
                },
            )
        } else {
            None::<u64>
        },
{
    if pos > 0 && newlines <= max_lines && total_read < TAIL_MAX_BYTES {
        Some(
            if pos < TAIL_CHUNK_BYTES {
                pos
            } else {
                TAIL_CHUNK_BYTES
            },
        )
    } else {
        None
    }
}

/// The number of newline bytes.
pub open spec fn newline_bytes(b: Seq<u8>) -> nat
    decreases b.len(),
{
    if b.len() == 0 {
        0
    } else {
        newline_bytes(b.drop_last()) + if b.last() == 10u8 {
            1nat
        } else {
            0nat
        }
    }
}

proof fn lemma_newline_bytes_bound(b: Seq<u8>)
    ensures
        newline_bytes(b) <= b.len(),
    decreases b.len(),
{
    if b.len() > 0 {
        lemma_newline_bytes_bound(b.drop_last());
    }
}

/// How many newline bytes a piece holds.
pub fn count_newline_bytes(chunk: &[u8]) -> (r: usize)
    ensures
        r as nat == newline_bytes(chunk@),
{
    let mut n: usize = 0;
    let mut i: usize = 0;
    while i < chunk.len()
        invariant
            i <= chunk@.len(),
            n as nat == newline_bytes(chunk@.take(i as int)),
        decreases chunk@.len() - i,
    {
        assert(chunk@.take(i + 1).drop_last() =~= chunk@.take(i as int));
        proof {
            lemma_newline_bytes_bound(chunk@.take(i as int));
        }
        if chunk[i] == 10u8 {
            n = n + 1;
        }
        i += 1;
    }
    assert(chunk@.take(i as int) =~= chunk@);
    n
}

/// The text kept of the bytes read from the end of the console log: decoded
/// (invalid sequences replaced), cleaned as terminal output, and cut to its last
/// `max_lines` lines and `TAIL_MAX_BYTES` bytes.
pub fn console_tail_text(bytes: &[u8], max_lines: usize) -> (r: String)
    ensures
        ({
            let cleaned = clean_chunk(utf8_lossy(bytes@));
            r@ == cleaned.skip(tail_start(cleaned, max_lines as nat, TAIL_MAX_BYTES as nat) as int)
        }),
        utf8_len(r@) <= TAIL_MAX_BYTES,
        count_newlines(r@) <= max_lines,
{
    let raw = decode_lossy(bytes);
    let mut result = clean_terminal_chunk(raw.as_str());
    trim_terminal_buffer(&mut result, max_lines, TAIL_MAX_BYTES as usize);
    result
}

// ---------------------------------------------------------------------------
// Feeding the terminal view and the console log file
// ---------------------------------------------------------------------------

/// Text waiting for the console log file is written once it exceeds this many
/// bytes, and otherwise at the next tick.
pub const FILE_FLUSH_BYTES: u128 = 8192;

/// What the caller does after the terminal feeder took an event.
pub struct FlushEffects {
    /// Text to append to the console log file.
    pub write: Option<String>,
    /// Empty the console log file.
    pub truncate_file: bool,
    /// Text to show in the terminal view.
    pub show: Option<String>,
}

/// The text handed to the console log file.
pub open spec fn written(e: FlushEffects) -> Seq<char> {
    match e.write {
        Some(w) => w@,
        None => Seq::empty(),
    }
}

/// Keeps the terminal view and the console log file fed with console output:
/// the view shows the last lines, the file gets all of it in batches.
pub struct TerminalFlusher {
    buffer: TerminalRingBuffer,
    pending: String,
    pending_bytes: u128,
    dirty: bool,
}

/// An event of the terminal feeder, as its laws see it.
pub enum FeedEvent {
    Limit(usize),
    Append(Seq<char>),
    Clear,
    Tick,
}

/// The text handed to the file and the text left waiting after an event, from
/// the text waiting before it.
pub open spec fn feed_step(pending: Seq<char>, ev: FeedEvent) -> (Seq<char>, Seq<char>) {
    match ev {
        FeedEvent::Limit(_) => (Seq::empty(), pending),
        FeedEvent::Append(c) => if utf8_len(pending + c) > FILE_FLUSH_BYTES {
            (pending + c, Seq::empty())
        } else {
            (Seq::empty(), pending + c)
        },
        FeedEvent::Clear => (Seq::empty(), Seq::empty()),
        FeedEvent::Tick => (pending, Seq::empty()),
    }
}

/// The text handed to the file over a run of events, and the text left waiting.
pub open spec fn feed_run(pending: Seq<char>, evs: Seq<FeedEvent>) -> (Seq<char>, Seq<char>)
    decreases evs.len(),
{
    if evs.len() == 0 {
        (Seq::empty(), pending)
    } else {
        let (w, p) = feed_run(pending, evs.drop_last());
        let (w2, p2) = feed_step(p, evs.last());
        (w + w2, p2)
    }
}

/// The text appended over a run of events.
pub open spec fn appended(evs: Seq<FeedEvent>) -> Seq<char>
    decreases evs.len(),
{
    if evs.len() == 0 {
        Seq::empty()
    } else {
        appended(evs.drop_last()) + match evs.last() {
            FeedEvent::Append(c) => c,
            _ => Seq::empty(),
        }
    }
}

proof fn lemma_utf8_len_concat(a: Seq<char>, b: Seq<char>)
    ensures
        utf8_len(a + b) == utf8_len(a) + utf8_len(b),
{
    lemma_utf8_len_split(a + b, a.len() as int);
    assert((a + b).take(a.len() as int) =~= a);
    assert((a + b).skip(a.len() as int) =~= b);
}

impl TerminalFlusher {
    /// The lines the terminal view holds.
    pub closed spec fn lines(&self) -> Seq<Seq<char>> {
        self.buffer@
    }

    /// How many lines the terminal view keeps.
    pub closed spec fn capacity(&self) -> nat {
        self.buffer.capacity()
    }

    /// The text waiting for the console log file.
    pub closed spec fn pending(&self) -> Seq<char> {
        self.pending@
    }

    /// The terminal view is behind the buffered lines.
    pub closed spec fn dirty(&self) -> bool {
        self.dirty
    }

    /// The feeder's parts agree.
    pub closed spec fn wf(&self) -> bool {
        &&& self.buffer.wf()
        &&& self.pending_bytes == utf8_len(self.pending@)
        &&& self.pending_bytes <= FILE_FLUSH_BYTES
    }

    /// A feeder keeping `max_lines` lines, starting from the text of an earlier
    /// session.
    pub fn new(max_lines: usize, initial: &str) -> (r: Self)
        ensures
            r.wf(),
            r.capacity() == if max_lines >= 1 {
                max_lines as nat
            } else {
                1
            },
            r.lines() == if initial@.len() == 0 {
                Seq::<Seq<char>>::empty()
            } else {
                keep_last(feed(Seq::empty(), clean_chunk(initial@)), r.capacity())
            },
            r.pending() == Seq::<char>::empty(),
            !r.dirty(),
    {
        let mut buffer = TerminalRingBuffer::new(max_lines);
        if !initial.is_empty() {
            buffer.push_str(initial);
        }
        TerminalFlusher { buffer, pending: String::new(), pending_bytes: 0, dirty: false }
    }

    /// The line limit changed: the view keeps that many of its last lines.
    pub fn on_limit(&mut self, max_lines: usize) -> (e: FlushEffects)
        requires
            old(self).wf(),
        ensures
            final(self).wf(),
            final(self).capacity() == if max_lines >= 1 {
                max_lines as nat
            } else {
                1
            },
            final(self).lines() == keep_last(old(self).lines(), final(self).capacity()),
            final(self).dirty(),
            (written(e), final(self).pending()) == feed_step(
                old(self).pending(),
                FeedEvent::Limit(max_lines),
            ),
            !e.truncate_file,
            e.show is None,
    {
        self.buffer.set_max_lines(max_lines);
        self.dirty = true;
        FlushEffects { write: None, truncate_file: false, show: None }
    }

    /// Console output arrived: the view takes it, and the file gets the waiting
    /// text once it exceeds `FILE_FLUSH_BYTES`.
    pub fn on_append(&mut self, chunk: &str) -> (e: FlushEffects)
        requires
            old(self).wf(),
        ensures
            final(self).wf(),
            final(self).capacity() == old(self).capacity(),
            final(self).lines() == keep_last(
                feed(old(self).lines(), clean_chunk(chunk@)),
                old(self).capacity(),
            ),
            final(self).dirty(),
            (written(e), final(self).pending()) == feed_step(
                old(self).pending(),
                FeedEvent::Append(chunk@),
            ),
            !e.truncate_file,
            e.show is None,
    {
        let cv = chars_of(chunk);
        let n = utf8_len_from(&cv, 0);
        assert(cv@.skip(0) =~= cv@);
        assert(cv@.len() <= usize::MAX);
        assert(n <= 4 * (usize::MAX as int));
        assert(self.pending_bytes + n <= FILE_FLUSH_BYTES + 4 * (usize::MAX as int));
        proof {
            lemma_utf8_len_concat(self.pending@, chunk@);
        }
        push_str(&mut self.pending, chunk);
        self.buffer.push_str(chunk);
        self.dirty = true;
        if self.pending_bytes + n > FILE_FLUSH_BYTES {
            let mut w = String::new();
            std::mem::swap(&mut w, &mut self.pending);
            self.pending_bytes = 0;
            FlushEffects { write: Some(w), truncate_file: false, show: None }
        } else {
            self.pending_bytes = self.pending_bytes + n;
            FlushEffects { write: None, truncate_file: false, show: None }
        }
    }

    /// The output was cleared: the view and the file are emptied and nothing
    /// waits.
    pub fn on_clear(&mut self) -> (e: FlushEffects)
        requires
            old(self).wf(),
        ensures
            final(self).wf(),
            final(self).capacity() == old(self).capacity(),
            final(self).lines() == Seq::<Seq<char>>::empty(),
            !final(self).dirty(),
            (written(e), final(self).pending()) == feed_step(old(self).pending(), FeedEvent::Clear),
            e.truncate_file,
            e.show matches Some(t) && t@ == Seq::<char>::empty(),
    {
        self.pending = String::new();
        self.pending_bytes = 0;
        self.buffer.clear();
        self.dirty = false;
        FlushEffects { write: None, truncate_file: true, show: Some(String::new()) }
    }

    /// The periodic tick: the waiting text goes to the file, and the view is
    /// refreshed when it is behind.
    pub fn on_tick(&mut self) -> (e: FlushEffects)
        requires
            old(self).wf(),
        ensures
            final(self).wf(),
            final(self).capacity() == old(self).capacity(),
            final(self).lines() == old(self).lines(),
            !final(self).dirty(),
            (written(e), final(self).pending()) == feed_step(old(self).pending(), FeedEvent::Tick),
            e.write is Some <==> old(self).pending().len() > 0,
            !e.truncate_file,
            match e.show {
                Some(t) => old(self).dirty() && t@ == concat(old(self).lines()),
                None => !old(self).dirty(),
            },
    {
        let write = if self.pending.as_str().is_empty() {
            None
        } else {
            self.pending_bytes = 0;
            let mut w = String::new();
            std::mem::swap(&mut w, &mut self.pending);
            Some(w)
        };
        let show = if self.dirty {
            Some(self.buffer.to_string())
        } else {
            None
        };
        self.dirty = false;
        FlushEffects { write, truncate_file: false, show }
    }
}

/// Between two clears, the console log file gets every piece of output, in
/// order: what was handed to the file followed by what still waits is what was
/// waiting at the start followed by everything appended.
pub proof fn lemma_file_gets_all_output(pending: Seq<char>, evs: Seq<FeedEvent>)
    requires
        forall|i: int| 0 <= i < evs.len() ==> !(#[trigger] evs[i] is Clear),
    ensures
        feed_run(pending, evs).0 + feed_run(pending, evs).1 == pending + appended(evs),
    decreases evs.len(),
{
    if evs.len() > 0 {
        let prev = evs.drop_last();
        assert forall|i: int| 0 <= i < prev.len() implies !(#[trigger] prev[i] is Clear) by {
            assert(prev[i] == evs[i]);
        }
        lemma_file_gets_all_output(pending, prev);
        let (w, p) = feed_run(pending, prev);
        let last = evs.last();
        assert(!(evs[evs.len() - 1] is Clear));
        match last {
            FeedEvent::Append(c) => {
                assert(w + (p + c) =~= (w + p) + c);
                if utf8_len(p + c) > FILE_FLUSH_BYTES {
                    assert((w + (p + c)) + Seq::<char>::empty() =~= w + (p + c));
                } else {
                    assert((w + Seq::<char>::empty()) + (p + c) =~= w + (p + c));
                }
            },
            FeedEvent::Tick => {
                assert((w + p) + Seq::<char>::empty() =~= w + p);
                assert(appended(evs) =~= appended(prev));
            },
            FeedEvent::Limit(_) => {
                assert((w + Seq::<char>::empty()) + p =~= w + p);
                assert(appended(evs) =~= appended(prev));
            },
            FeedEvent::Clear => {},
        }
    }
}

} // verus!
