//! Character-sequence helpers shared by the library: views of `str` and
//! `String` as `Seq<char>`, searching, trimming, splitting, joining and
//! decimal formatting.

use vstd::prelude::*;

verus! {

// ---------------------------------------------------------------------------
// Specifications
// ---------------------------------------------------------------------------

/// `p` occurs in `s` starting at index `i`.
pub open spec fn occurs_at(s: Seq<char>, p: Seq<char>, i: int) -> bool {
    0 <= i && i + p.len() <= s.len() && s.subrange(i, i + p.len()) == p
}

/// `p` occurs somewhere in `s` (`str::contains` with a string pattern).
pub open spec fn contains(s: Seq<char>, p: Seq<char>) -> bool {
    exists|i: int| occurs_at(s, p, i)
}

/// `s` begins with `p` (`str::starts_with`).
pub open spec fn starts_with(s: Seq<char>, p: Seq<char>) -> bool {
    p.len() <= s.len() && s.take(p.len() as int) == p
}

/// `s` ends with `p` (`str::ends_with`).
pub open spec fn ends_with(s: Seq<char>, p: Seq<char>) -> bool {
    p.len() <= s.len() && s.skip(s.len() - p.len()) == p
}

/// Unicode `White_Space`, the set that `char::is_whitespace` tests.
pub open spec fn is_ws(c: char) -> bool {
    ||| ('\u{9}' <= c && c <= '\u{d}')
    ||| c == ' '
    ||| c == '\u{85}'
    ||| c == '\u{a0}'
    ||| c == '\u{1680}'
    ||| ('\u{2000}' <= c && c <= '\u{200a}')
    ||| c == '\u{2028}'
    ||| c == '\u{2029}'
    ||| c == '\u{202f}'
    ||| c == '\u{205f}'
    ||| c == '\u{3000}'
}

/// ASCII decimal digit (`char::is_ascii_digit`).
pub open spec fn is_digit(c: char) -> bool {
    '0' <= c && c <= '9'
}

/// `s` without its leading whitespace (`str::trim_start`).
pub open spec fn trim_start(s: Seq<char>) -> Seq<char>
    decreases s.len(),
{
    if s.len() > 0 && is_ws(s[0]) {
        trim_start(s.drop_first())
    } else {
        s
    }
}

/// `s` without its trailing whitespace (`str::trim_end`).
pub open spec fn trim_end(s: Seq<char>) -> Seq<char>
    decreases s.len(),
{
    if s.len() > 0 && is_ws(s.last()) {
        trim_end(s.drop_last())
    } else {
        s
    }
}

/// `s` without leading and trailing whitespace (`str::trim`).
pub open spec fn trim(s: Seq<char>) -> Seq<char> {
    trim_end(trim_start(s))
}

/// The longest prefix of `s` that holds no whitespace.
pub open spec fn word_prefix(s: Seq<char>) -> Seq<char>
    decreases s.len(),
{
    if s.len() == 0 || is_ws(s[0]) {
        Seq::empty()
    } else {
        seq![s[0]] + word_prefix(s.drop_first())
    }
}

/// The whitespace-separated words of `s`, in order (`str::split_whitespace`).
pub open spec fn words(s: Seq<char>) -> Seq<Seq<char>>
    decreases s.len(),
{
    let t = trim_start(s);
    if t.len() == 0 {
        Seq::empty()
    } else {
        if t.len() <= s.len() && 0 < word_prefix(t).len() <= t.len() {
            seq![word_prefix(t)] + words(t.skip(word_prefix(t).len() as int))
        } else {
            Seq::empty()
        }
    }
}

/// The elements of `list` separated by `sep` (`[..].join(sep)`).
pub open spec fn join(list: Seq<Seq<char>>, sep: Seq<char>) -> Seq<char>
    decreases list.len(),
{
    if list.len() == 0 {
        Seq::empty()
    } else if list.len() == 1 {
        list[0]
    } else {
        join(list.drop_last(), sep) + sep + list.last()
    }
}

/// The ASCII digit for `d < 10`.
pub open spec fn digit_char(d: nat) -> char {
    ((d + 48) as u32) as char
}

/// Decimal representation of `n` without leading zeros (`u64::to_string`).
pub open spec fn dec(n: nat) -> Seq<char>
    decreases n,
{
    if n < 10 {
        seq![digit_char(n)]
    } else {
        dec(n / 10).push(digit_char(n % 10))
    }
}

/// The number that a string of ASCII digits denotes.
pub open spec fn dec_value(ds: Seq<char>) -> nat
    decreases ds.len(),
{
    if ds.len() == 0 {
        0
    } else {
        dec_value(ds.drop_last()) * 10 + ((ds.last() as u32) - 48) as nat
    }
}

/// Every occurrence of the character `c` in `s` replaced by `r` (`str::replace`).
pub open spec fn replace_char(s: Seq<char>, c: char, r: Seq<char>) -> Seq<char>
    decreases s.len(),
{
    if s.len() == 0 {
        Seq::empty()
    } else {
        replace_char(s.drop_last(), c, r) + (if s.last() == c {
            r
        } else {
            seq![s.last()]
        })
    }
}

/// Every non-overlapping occurrence of `p`, scanned from the left, replaced by `r`
/// (`str::replace` with a string pattern).
pub open spec fn replace_seq(s: Seq<char>, p: Seq<char>, r: Seq<char>) -> Seq<char>
    decreases s.len(),
{
    if s.len() == 0 {
        Seq::empty()
    } else if p.len() > 0 && starts_with(s, p) {
        r + replace_seq(s.skip(p.len() as int), p, r)
    } else {
        seq![s[0]] + replace_seq(s.drop_first(), p, r)
    }
}

/// Unicode lower-case mapping of a string, as `str::to_lowercase` computes it.
pub uninterp spec fn lowercase(s: Seq<char>) -> Seq<char>;

// ---------------------------------------------------------------------------
// Conversions
// ---------------------------------------------------------------------------

/// Collects the characters of `s` into a vector.
pub fn chars_of(s: &str) -> (v: Vec<char>)
    ensures
        v@ == s@,
{
    let mut v: Vec<char> = Vec::new();
    for c in it: s.chars()
        invariant
            it.seq() == s@,
            v@ == it.seq().take(it.index() as int),
    {
        v.push(c);
    }
    v
}

/// Appends one character to a string (`String::push`).
#[verifier::external_body]
pub(crate) fn push_char(s: &mut String, c: char)
    ensures
        final(s)@ == old(s)@.push(c),
{
    s.push(c);
}

/// Appends a sequence of characters to a string.
pub fn push_chars(s: &mut String, v: &[char])
    ensures
        final(s)@ == old(s)@ + v@,
{
    let mut i: usize = 0;
    while i < v.len()
        invariant
            i <= v@.len(),
            s@ == old(s)@ + v@.take(i as int),
        decreases v@.len() - i,
    {
        push_char(s, v[i]);
        assert(v@.take(i + 1) == v@.take(i as int).push(v@[i as int]));
        i += 1;
    }
    assert(v@.take(v@.len() as int) == v@);
}

/// Builds a string from a slice of characters.
pub fn string_of(v: &[char]) -> (s: String)
    ensures
        s@ == v@,
{
    let mut s = String::new();
    push_chars(&mut s, v);
    s
}

/// Appends a string slice to a string.
pub fn push_str(s: &mut String, t: &str)
    ensures
        final(s)@ == old(s)@ + t@,
{
    s.append(t);
}

/// A string holding a copy of `t`.
pub fn string_from(t: &str) -> (s: String)
    ensures
        s@ == t@,
{
    String::from_str(t)
}

/// Unicode lower-case form of `s` (`str::to_lowercase`). Claimed: the result is the
/// named lower-case form of `s`, and an ASCII text has each of `A-Z` made `a-z` and
/// every other character kept, as Unicode's case mapping does for ASCII.
#[verifier::external_body]
pub(crate) fn to_lowercase(s: &str) -> (r: String)
    ensures
        r@ == lowercase(s@),
        (forall|i: int| 0 <= i < s@.len() ==> s@[i] <= '\u{7f}') ==> r@ == s@.map_values(
            |c: char| ascii_lower(c),
        ),
{
    s.to_lowercase()
}

/// Appends the decimal form of `n` to `s`.
pub fn push_dec(s: &mut String, n: u64)
    ensures
        final(s)@ == old(s)@ + dec(n as nat),
    decreases n,
{
    if n >= 10 {
        push_dec(s, n / 10);
    }
    let d: u64 = n % 10;
    let c: char = char_of_digit(d);
    push_char(s, c);
    proof {
        if n >= 10 {
            assert(old(s)@ + dec(n as nat) == old(s)@ + dec((n / 10) as nat) + seq![c]);
        } else {
            assert(dec(n as nat) == seq![c]);
        }
    }
}

/// The ASCII digit character of `d < 10`.
pub fn char_of_digit(d: u64) -> (c: char)
    requires
        d < 10,
    ensures
        c == digit_char(d as nat),
{
    if d == 0 { '0' }
    else if d == 1 { '1' }
    else if d == 2 { '2' }
    else if d == 3 { '3' }
    else if d == 4 { '4' }
    else if d == 5 { '5' }
    else if d == 6 { '6' }
    else if d == 7 { '7' }
    else if d == 8 { '8' }
    else { '9' }
}

/// Decimal form of `n` (`u64::to_string`).
pub fn dec_string(n: u64) -> (s: String)
    ensures
        s@ == dec(n as nat),
{
    let mut s = String::new();
    push_dec(&mut s, n);
    assert(s@ == Seq::<char>::empty() + dec(n as nat));
    s
}

// ---------------------------------------------------------------------------
// Searching
// ---------------------------------------------------------------------------

/// Whether `p` occurs in `s` at index `i`.
pub fn occurs_at_exec(s: &[char], p: &[char], i: usize) -> (r: bool)
    ensures
        r == occurs_at(s@, p@, i as int),
{
    if i > s.len() || p.len() > s.len() - i {
        return false;
    }
    let mut j: usize = 0;
    while j < p.len()
        invariant
            i + p@.len() <= s@.len(),
            s@.len() == s.len(),
            p@.len() == p.len(),
            j <= p@.len(),
            forall|k: int| 0 <= k < j ==> s@[i + k] == p@[k],
        decreases p@.len() - j,
    {
        if s[i + j] != p[j] {
            assert(s@.subrange(i as int, i + p@.len())[j as int] != p@[j as int]);
            return false;
        }
        j += 1;
    }
    assert(s@.subrange(i as int, i + p@.len()) =~= p@);
    true
}

/// Index of the first occurrence of `p` in `s`, if any (`str::find`).
pub fn find(s: &[char], p: &[char]) -> (r: Option<usize>)
    ensures
        match r {
            Some(i) => occurs_at(s@, p@, i as int) && forall|j: int|
                0 <= j < i ==> !occurs_at(s@, p@, j),
            None => !contains(s@, p@),
        },
{
    if p.len() > s.len() {
        return None;
    }
    if p.len() == 0 {
        assert(s@.subrange(0, 0) =~= p@);
        return Some(0);
    }
    let last: usize = s.len() - p.len();
    let mut i: usize = 0;
    while i <= last
        invariant
            last == s@.len() - p@.len(),
            s@.len() == s.len(),
            p@.len() >= 1,
            i <= last + 1,
            forall|j: int| 0 <= j < i ==> !occurs_at(s@, p@, j),
        decreases last + 1 - i,
    {
        if occurs_at_exec(s, p, i) {
            return Some(i);
        }
        i += 1;
    }
    None
}

/// `p` occurs in `s` when its characters stand at `i`.
pub proof fn lemma_contains_at(s: Seq<char>, p: Seq<char>, i: int)
    requires
        0 <= i,
        i + p.len() <= s.len(),
        forall|k: int| 0 <= k < p.len() ==> s[i + k] == p[k],
    ensures
        contains(s, p),
{
    assert(s.subrange(i, i + p.len()) =~= p);
    assert(occurs_at(s, p, i));
}

/// `p` does not occur in `s` when no position of `s` starts with the first
/// `n` (at most three) characters of `p`.
pub proof fn lemma_absent_prefix(s: Seq<char>, p: Seq<char>, n: int)
    requires
        1 <= n <= 3,
        n <= p.len(),
        forall|i: int|
            0 <= i && i + n <= s.len() ==> !(#[trigger] s[i] == p[0] && (n < 2 || s[i + 1] == p[1])
                && (n < 3 || s[i + 2] == p[2])),
    ensures
        !contains(s, p),
{
    assert forall|i: int| !occurs_at(s, p, i) by {
        if occurs_at(s, p, i) {
            assert(s.subrange(i, i + p.len())[0] == p[0]);
            if n >= 2 {
                assert(s.subrange(i, i + p.len())[1] == p[1]);
            }
            if n >= 3 {
                assert(s.subrange(i, i + p.len())[2] == p[2]);
            }
        }
    }
}

/// Index of the first occurrence of `p` in `s` at or after `i`.
pub open spec fn index_from(s: Seq<char>, p: Seq<char>, i: nat) -> Option<nat>
    decreases s.len() - i,
{
    if i + p.len() > s.len() {
        None
    } else if occurs_at(s, p, i as int) {
        Some(i)
    } else {
        proof {
            if p.len() == 0 {
                assert(s.subrange(i as int, i as int) =~= p);
            }
        }
        index_from(s, p, i + 1)
    }
}

/// Index of the first occurrence of `p` in `s` (`str::find`).
pub open spec fn index_of(s: Seq<char>, p: Seq<char>) -> Option<nat> {
    index_from(s, p, 0)
}

proof fn lemma_index_from_skip(s: Seq<char>, p: Seq<char>, i: nat, j: nat)
    requires
        i <= j,
        forall|k: int| i <= k < j ==> !occurs_at(s, p, k),
    ensures
        index_from(s, p, i) == index_from(s, p, j),
    decreases j - i,
{
    if i < j && i + p.len() <= s.len() {
        lemma_index_from_skip(s, p, i + 1, j);
    } else if i < j {
        lemma_index_from_none(s, p, j);
    }
}

/// A found index is an occurrence.
pub proof fn lemma_index_from_found(s: Seq<char>, p: Seq<char>, i: nat)
    ensures
        index_from(s, p, i) matches Some(k) ==> occurs_at(s, p, k as int) && i <= k,
    decreases s.len() - i,
{
    if i + p.len() <= s.len() && !occurs_at(s, p, i as int) {
        if p.len() == 0 {
            assert(s.subrange(i as int, i as int) =~= p);
        }
        lemma_index_from_found(s, p, i + 1);
    }
}

proof fn lemma_index_from_none(s: Seq<char>, p: Seq<char>, j: nat)
    requires
        j + p.len() > s.len(),
    ensures
        index_from(s, p, j) is None,
{
}

/// Index of the first occurrence of `lit` in `s`.
pub fn index_of_str(s: &[char], lit: &str) -> (r: Option<usize>)
    ensures
        match r {
            Some(i) => index_of(s@, lit@) == Some(i as nat) && occurs_at(s@, lit@, i as int),
            None => index_of(s@, lit@) is None,
        },
{
    let p = chars_of(lit);
    let r = find(s, p.as_slice());
    proof {
        lemma_index_from_found(s@, p@, 0);
        match r {
            Some(i) => {
                lemma_index_from_skip(s@, p@, 0, i as nat);
            },
            None => {
                assert forall|k: int| 0 <= k < s@.len() + 1 implies !occurs_at(s@, p@, k) by {
                    if occurs_at(s@, p@, k) {
                        assert(contains(s@, p@));
                    }
                }
                lemma_index_from_skip(s@, p@, 0, (s@.len() + 1) as nat);
            },
        }
    }
    r
}

/// ASCII lower-case form of a character (`char::to_ascii_lowercase`).
pub open spec fn ascii_lower(c: char) -> char {
    if 'A' <= c && c <= 'Z' {
        ((c as u32) + 32) as char
    } else {
        c
    }
}

/// ASCII case-insensitive equality (`str::eq_ignore_ascii_case`).
pub open spec fn eq_ignore_ascii_case(a: Seq<char>, b: Seq<char>) -> bool {
    a.len() == b.len() && forall|i: int| 0 <= i < a.len() ==> ascii_lower(a[i]) == ascii_lower(b[i])
}

fn ascii_lower_char(c: char) -> (r: char)
    ensures
        r == ascii_lower(c),
{
    if 'A' <= c && c <= 'Z' {
        let u = (c as u32) + 32;
        char_from_u32_lower(u)
    } else {
        c
    }
}

/// The lower-case letter whose code is `u`.
fn char_from_u32_lower(u: u32) -> (c: char)
    requires
        97 <= u <= 122,
    ensures
        c == u as char,
{
    let b = u as u8;
    b as char
}

/// Whether `s` equals `lit` ignoring ASCII case.
pub fn eq_ignore_ascii_case_str(s: &[char], lit: &str) -> (r: bool)
    ensures
        r == eq_ignore_ascii_case(s@, lit@),
{
    let p = chars_of(lit);
    if s.len() != p.len() {
        return false;
    }
    let mut i: usize = 0;
    while i < s.len()
        invariant
            s@.len() == p@.len(),
            p@ == lit@,
            i <= s@.len(),
            forall|k: int| 0 <= k < i ==> ascii_lower(s@[k]) == ascii_lower(p@[k]),
        decreases s@.len() - i,
    {
        if ascii_lower_char(s[i]) != ascii_lower_char(p[i]) {
            return false;
        }
        i += 1;
    }
    true
}

/// Whether `p` occurs in `s`.
pub fn contains_chars(s: &[char], p: &[char]) -> (r: bool)
    ensures
        r == contains(s@, p@),
{
    match find(s, p) {
        Some(i) => true,
        None => false,
    }
}

/// Whether the string slice `lit` occurs in `s`.
pub fn contains_str(s: &[char], lit: &str) -> (r: bool)
    ensures
        r == contains(s@, lit@),
{
    let p = chars_of(lit);
    contains_chars(s, p.as_slice())
}

/// Whether `s` begins with `p`.
pub fn starts_with_chars(s: &[char], p: &[char]) -> (r: bool)
    ensures
        r == starts_with(s@, p@),
{
    let r = occurs_at_exec(s, p, 0);
    proof {
        if p@.len() <= s@.len() {
            assert(s@.subrange(0, p@.len() as int) == s@.take(p@.len() as int));
        }
    }
    r
}

/// Whether `s` begins with the string slice `lit`.
pub fn starts_with_str(s: &[char], lit: &str) -> (r: bool)
    ensures
        r == starts_with(s@, lit@),
{
    let p = chars_of(lit);
    starts_with_chars(s, p.as_slice())
}

/// Whether `s` ends with the string slice `lit`.
pub fn ends_with_str(s: &[char], lit: &str) -> (r: bool)
    ensures
        r == ends_with(s@, lit@),
{
    let p = chars_of(lit);
    if p.len() > s.len() {
        return false;
    }
    let r = occurs_at_exec(s, p.as_slice(), s.len() - p.len());
    proof {
        assert(s@.subrange(s@.len() - p@.len(), s@.len() as int) == s@.skip(s@.len() - p@.len()));
    }
    r
}

/// Whether `s` is exactly the string slice `lit`.
pub fn eq_str(s: &[char], lit: &str) -> (r: bool)
    ensures
        r == (s@ == lit@),
{
    let p = chars_of(lit);
    if p.len() != s.len() {
        return false;
    }
    let r = starts_with_chars(s, p.as_slice());
    proof {
        assert(s@.take(s@.len() as int) == s@);
    }
    r
}

/// Whether the character `c` occurs in `s`.
pub fn contains_char(s: &[char], c: char) -> (r: bool)
    ensures
        r == s@.contains(c),
{
    let mut i: usize = 0;
    while i < s.len()
        invariant
            i <= s@.len(),
            forall|k: int| 0 <= k < i ==> s@[k] != c,
        decreases s@.len() - i,
    {
        if s[i] == c {
            assert(s@[i as int] == c);
            return true;
        }
        i += 1;
    }
    false
}


// ---------------------------------------------------------------------------
// Whitespace: trimming and splitting
// ---------------------------------------------------------------------------

/// Whether `c` is Unicode whitespace (`char::is_whitespace`).
pub fn is_ws_char(c: char) -> (r: bool)
    ensures
        r == is_ws(c),
{
    ('\u{9}' <= c && c <= '\u{d}') || c == ' ' || c == '\u{85}' || c == '\u{a0}' || c
        == '\u{1680}' || ('\u{2000}' <= c && c <= '\u{200a}') || c == '\u{2028}' || c
        == '\u{2029}' || c == '\u{202f}' || c == '\u{205f}' || c == '\u{3000}'
}

pub proof fn lemma_trim_start_len(s: Seq<char>)
    ensures
        trim_start(s).len() <= s.len(),
        trim_start(s).len() > 0 ==> !is_ws(trim_start(s)[0]),
    decreases s.len(),
{
    if s.len() > 0 && is_ws(s[0]) {
        lemma_trim_start_len(s.drop_first());
    }
}

pub proof fn lemma_word_prefix_len(s: Seq<char>)
    ensures
        word_prefix(s).len() <= s.len(),
        s.len() > 0 && !is_ws(s[0]) ==> word_prefix(s).len() > 0,
    decreases s.len(),
{
    if s.len() > 0 && !is_ws(s[0]) {
        lemma_word_prefix_len(s.drop_first());
    }
}

/// The word prefix of `s` is its first `k` characters when those hold no whitespace
/// and the next one, if any, is whitespace.
pub proof fn lemma_word_prefix_take(s: Seq<char>, k: int)
    requires
        0 <= k <= s.len(),
        forall|i: int| 0 <= i < k ==> !is_ws(#[trigger] s[i]),
        k < s.len() ==> is_ws(s[k]),
    ensures
        word_prefix(s) == s.take(k),
    decreases k,
{
    if k == 0 {
        assert(s.take(0) =~= Seq::<char>::empty());
    } else {
        let t = s.drop_first();
        assert forall|i: int| 0 <= i < k - 1 implies !is_ws(#[trigger] t[i]) by {
            assert(t[i] == s[i + 1]);
        }
        lemma_word_prefix_take(t, k - 1);
        assert(seq![s[0]] + t.take(k - 1) =~= s.take(k));
    }
}

/// Leading whitespace does not change the words of a sequence.
pub proof fn lemma_words_skip_ws(s: Seq<char>)
    requires
        s.len() > 0,
        is_ws(s[0]),
    ensures
        words(s) == words(s.drop_first()),
{
    lemma_trim_start_len(s);
    lemma_trim_start_len(s.drop_first());
    let t = trim_start(s);
    lemma_word_prefix_len(t);
}

/// A sequence that starts with a word of length `k` splits into that word and the
/// words of the rest.
pub proof fn lemma_words_word(s: Seq<char>, k: int)
    requires
        0 < k <= s.len(),
        forall|i: int| 0 <= i < k ==> !is_ws(#[trigger] s[i]),
        k < s.len() ==> is_ws(s[k]),
    ensures
        words(s) == seq![s.take(k)] + words(s.skip(k)),
{
    assert(trim_start(s) == s);
    lemma_word_prefix_take(s, k);
}

/// `s` without leading and trailing whitespace.
pub fn trim_chars(s: &[char]) -> (r: Vec<char>)
    ensures
        r@ == trim(s@),
{
    let n = s.len();
    let mut i: usize = 0;
    assert(s@.skip(0) =~= s@);
    while i < n && is_ws_char(s[i])
        invariant
            n == s@.len(),
            i <= n,
            trim_start(s@) == trim_start(s@.skip(i as int)),
        decreases n - i,
    {
        assert(s@.skip(i as int).drop_first() =~= s@.skip(i + 1));
        i += 1;
    }
    assert(trim_start(s@) == s@.subrange(i as int, n as int)) by {
        assert(s@.skip(i as int) =~= s@.subrange(i as int, n as int));
    }
    let mut j: usize = n;
    while j > i && is_ws_char(s[j - 1])
        invariant
            n == s@.len(),
            i <= j <= n,
            trim(s@) == trim_end(s@.subrange(i as int, j as int)),
        decreases j - i,
    {
        assert(s@.subrange(i as int, j as int).drop_last() =~= s@.subrange(i as int, j - 1));
        j -= 1;
    }
    let mut r: Vec<char> = Vec::new();
    let mut k: usize = i;
    while k < j
        invariant
            i <= k <= j <= n,
            n == s@.len(),
            r@ == s@.subrange(i as int, k as int),
        decreases j - k,
    {
        r.push(s[k]);
        assert(s@.subrange(i as int, k + 1) =~= s@.subrange(i as int, k as int).push(s@[k as int]));
        k += 1;
    }
    r
}

/// `s` without leading and trailing whitespace.
pub fn trim_str(s: &str) -> (r: Vec<char>)
    ensures
        r@ == trim(s@),
{
    let v = chars_of(s);
    trim_chars(v.as_slice())
}

/// The whitespace-separated words of `s` (`str::split_whitespace`).
pub fn split_whitespace_chars(s: &[char]) -> (r: Vec<String>)
    ensures
        r.deep_view() == words(s@),
{
    let n = s.len();
    let mut r: Vec<String> = Vec::new();
    let mut i: usize = 0;
    assert(s@.skip(0) =~= s@);
    while i < n
        invariant
            n == s@.len(),
            i <= n,
            words(s@) == r.deep_view() + words(s@.skip(i as int)),
        decreases n - i,
    {
        if is_ws_char(s[i]) {
            proof {
                lemma_words_skip_ws(s@.skip(i as int));
                assert(s@.skip(i as int).drop_first() =~= s@.skip(i + 1));
            }
            i += 1;
        } else {
            let mut j: usize = i;
            let mut w: Vec<char> = Vec::new();
            while j < n && !is_ws_char(s[j])
                invariant
                    n == s@.len(),
                    i <= j <= n,
                    w@ == s@.subrange(i as int, j as int),
                    forall|k: int| i <= k < j ==> !is_ws(#[trigger] s@[k]),
                decreases n - j,
            {
                w.push(s[j]);
                assert(s@.subrange(i as int, j + 1) =~= s@.subrange(i as int, j as int).push(
                    s@[j as int],
                ));
                j += 1;
            }
            proof {
                let x = s@.skip(i as int);
                let k = (j - i) as int;
                assert forall|m: int| 0 <= m < k implies !is_ws(#[trigger] x[m]) by {
                    assert(x[m] == s@[i + m]);
                }
                if k < x.len() {
                    assert(x[k] == s@[j as int]);
                }
                lemma_words_word(x, k);
                assert(x.take(k) =~= w@);
                assert(x.skip(k) =~= s@.skip(j as int));
            }
            let ws = string_of(w.as_slice());
            let ghost old_r = r.deep_view();
            r.push(ws);
            assert(r.deep_view() =~= old_r.push(w@));
            assert(old_r + (seq![w@] + words(s@.skip(j as int))) =~= old_r.push(w@) + words(
                s@.skip(j as int),
            ));
            i = j;
        }
    }
    proof {
        assert(s@.skip(n as int) =~= Seq::<char>::empty());
        assert(words(Seq::<char>::empty()) =~= Seq::<Seq<char>>::empty());
        assert(r.deep_view() + Seq::<Seq<char>>::empty() =~= r.deep_view());
    }
    r
}

/// The elements of `list` separated by `sep`.
pub fn join_strings(list: &Vec<String>, sep: &str) -> (r: String)
    ensures
        r@ == join(list.deep_view(), sep@),
{
    let ghost dv = list.deep_view();
    let mut r = String::new();
    let n = list.len();
    let mut i: usize = 0;
    while i < n
        invariant
            n == list@.len(),
            dv == list.deep_view(),
            dv.len() == n,
            i <= n,
            r@ == join(dv.take(i as int), sep@),
        decreases n - i,
    {
        assert(dv[i as int] == list@[i as int]@);
        if i != 0 {
            r.append(sep);
        }
        r.append(list[i].as_str());
        assert(dv.take(i + 1).drop_last() =~= dv.take(i as int));
        i += 1;
    }
    assert(dv.take(n as int) =~= dv);
    r
}

// ---------------------------------------------------------------------------
// Replacing
// ---------------------------------------------------------------------------

/// Every occurrence of `c` in `s` replaced by `rep`.
pub fn replace_char_chars(s: &[char], c: char, rep: &str) -> (r: Vec<char>)
    ensures
        r@ == replace_char(s@, c, rep@),
{
    let rv = chars_of(rep);
    let mut r: Vec<char> = Vec::new();
    let mut i: usize = 0;
    while i < s.len()
        invariant
            i <= s@.len(),
            rv@ == rep@,
            r@ == replace_char(s@.take(i as int), c, rep@),
        decreases s@.len() - i,
    {
        assert(s@.take(i + 1).drop_last() =~= s@.take(i as int));
        if s[i] == c {
            let mut k: usize = 0;
            let ghost r0 = r@;
            while k < rv.len()
                invariant
                    k <= rv@.len(),
                    r@ == r0 + rv@.take(k as int),
                decreases rv@.len() - k,
            {
                r.push(rv[k]);
                assert(rv@.take(k + 1) =~= rv@.take(k as int).push(rv@[k as int]));
                assert(r0 + rv@.take(k + 1) =~= (r0 + rv@.take(k as int)).push(rv@[k as int]));
                k += 1;
            }
            assert(rv@.take(rv@.len() as int) =~= rv@);
        } else {
            r.push(s[i]);
            assert(r@ =~= replace_char(s@.take(i as int), c, rep@) + seq![s@[i as int]]);
        }
        i += 1;
    }
    assert(s@.take(s@.len() as int) =~= s@);
    r
}

/// Every non-overlapping occurrence of `pat` (scanned from the left) replaced by `rep`.
pub fn replace_str_chars(s: &[char], pat: &str, rep: &str) -> (r: Vec<char>)
    ensures
        r@ == replace_seq(s@, pat@, rep@),
{
    let pv = chars_of(pat);
    let rv = chars_of(rep);
    let n = s.len();
    let mut r: Vec<char> = Vec::new();
    let mut i: usize = 0;
    assert(s@.skip(0) =~= s@);
    while i < n
        invariant
            n == s@.len(),
            i <= n,
            pv@ == pat@,
            rv@ == rep@,
            replace_seq(s@, pat@, rep@) == r@ + replace_seq(s@.skip(i as int), pat@, rep@),
        decreases n - i,
    {
        let ghost rest = s@.skip(i as int);
        if pv.len() > 0 && occurs_at_exec(s, pv.as_slice(), i) {
            proof {
                assert(rest.take(pat@.len() as int) =~= s@.subrange(i as int, i + pat@.len()));
                assert(rest.skip(pat@.len() as int) =~= s@.skip(i + pat@.len()));
            }
            let ghost r0 = r@;
            let mut k: usize = 0;
            while k < rv.len()
                invariant
                    k <= rv@.len(),
                    r@ == r0 + rv@.take(k as int),
                decreases rv@.len() - k,
            {
                r.push(rv[k]);
                assert(r0 + rv@.take(k + 1) =~= (r0 + rv@.take(k as int)).push(rv@[k as int]));
                k += 1;
            }
            assert(rv@.take(rv@.len() as int) =~= rv@);
            assert(r0 + (rep@ + replace_seq(s@.skip(i + pv@.len()), pat@, rep@)) =~= r@
                + replace_seq(s@.skip(i + pv@.len()), pat@, rep@));
            i = i + pv.len();
        } else {
            proof {
                if pat@.len() > 0 && starts_with(rest, pat@) {
                    assert(rest.take(pat@.len() as int) =~= s@.subrange(i as int, i + pat@.len()));
                }
                assert(rest.drop_first() =~= s@.skip(i + 1));
                assert(rest[0] == s@[i as int]);
            }
            let ghost r0 = r@;
            r.push(s[i]);
            assert(r0 + (seq![s@[i as int]] + replace_seq(s@.skip(i + 1), pat@, rep@)) =~= r@
                + replace_seq(s@.skip(i + 1), pat@, rep@));
            i += 1;
        }
    }
    assert(s@.skip(n as int) =~= Seq::<char>::empty());
    assert(r@ + Seq::<char>::empty() =~= r@);
    r
}


/// Whether the string slice `s` is exactly `lit`.
pub fn str_is(s: &str, lit: &str) -> (r: bool)
    ensures
        r == (s@ == lit@),
{
    let v = chars_of(s);
    eq_str(v.as_slice(), lit)
}

/// Whether the string slice `lit` occurs in the string slice `s`.
pub fn str_contains(s: &str, lit: &str) -> (r: bool)
    ensures
        r == contains(s@, lit@),
{
    let v = chars_of(s);
    contains_str(v.as_slice(), lit)
}

// ---------------------------------------------------------------------------
// Lines
// ---------------------------------------------------------------------------

/// A line without the `\r` of a `\r\n` ending.
pub open spec fn strip_cr(l: Seq<char>) -> Seq<char> {
    if l.len() > 0 && l.last() == '\r' {
        l.drop_last()
    } else {
        l
    }
}

/// The lines of a text (`str::lines`): split at `\n`, each `\r\n` ending counted as
/// one, and no empty line after a final newline.
pub open spec fn text_lines(s: Seq<char>) -> Seq<Seq<char>> {
    let p = crate::utils::split_on(s, '\n');
    let body = p.drop_last().map_values(|l: Seq<char>| strip_cr(l));
    if p.last().len() == 0 {
        body
    } else {
        body.push(p.last())
    }
}

/// The lines of `s` (`str::lines`).
pub fn lines_of(s: &str) -> (r: Vec<Vec<char>>)
    ensures
        r@.map_values(|l: Vec<char>| l@) == text_lines(s@),
{
    let v = chars_of(s);
    let pieces = crate::utils::split_chars(v.as_slice(), '\n');
    let ghost pv = pieces@.map_values(|l: Vec<char>| l@);
    proof {
        crate::utils::lemma_split_nonempty(s@, '\n');
    }
    let n = pieces.len();
    let mut r: Vec<Vec<char>> = Vec::new();
    let mut i: usize = 0;
    while i + 1 < n
        invariant
            n == pieces@.len(),
            n >= 1,
            pv == pieces@.map_values(|l: Vec<char>| l@),
            i + 1 <= n,
            r@.map_values(|l: Vec<char>| l@) == pv.take(i as int).map_values(|l: Seq<char>| strip_cr(l)),
        decreases n - i,
    {
        let piece = &pieces[i];
        let mut line: Vec<char> = Vec::new();
        let len = piece.len();
        let keep = if len > 0 && piece[len - 1] == '\r' {
            len - 1
        } else {
            len
        };
        let mut j: usize = 0;
        while j < keep
            invariant
                keep <= piece@.len(),
                j <= keep,
                line@ == piece@.take(j as int),
            decreases keep - j,
        {
            line.push(piece[j]);
            assert(piece@.take(j + 1) =~= piece@.take(j as int).push(piece@[j as int]));
            j += 1;
        }
        assert(pv[i as int] == piece@);
        assert(line@ =~= strip_cr(piece@));
        let ghost before = r@.map_values(|l: Vec<char>| l@);
        r.push(line);
        assert(pv.take(i + 1).map_values(|l: Seq<char>| strip_cr(l)) =~= pv.take(i as int).map_values(
            |l: Seq<char>| strip_cr(l),
        ).push(strip_cr(pv[i as int])));
        assert(r@.map_values(|l: Vec<char>| l@) =~= before.push(strip_cr(pv[i as int])));
        i += 1;
    }
    assert(pv.take(i as int) =~= pv.drop_last());
    let last = &pieces[n - 1];
    assert(pv.last() == last@);
    if last.len() > 0 {
        let ghost before = r@.map_values(|l: Vec<char>| l@);
        let mut copy: Vec<char> = Vec::new();
        let mut j: usize = 0;
        while j < last.len()
            invariant
                j <= last@.len(),
                copy@ == last@.take(j as int),
            decreases last@.len() - j,
        {
            copy.push(last[j]);
            assert(last@.take(j + 1) =~= last@.take(j as int).push(last@[j as int]));
            j += 1;
        }
        assert(copy@ =~= last@);
        r.push(copy);
        assert(r@.map_values(|l: Vec<char>| l@) =~= before.push(last@));
    }
    r
}

// ---------------------------------------------------------------------------
// Vectors of strings
// ---------------------------------------------------------------------------

/// Appends a copy of `lit` to `v`.
pub fn push_lit(v: &mut Vec<String>, lit: &str)
    ensures
        final(v).deep_view() == old(v).deep_view().push(lit@),
{
    let ghost d = v.deep_view();
    v.push(String::from_str(lit));
    assert(v.deep_view() =~= d.push(lit@));
}

/// Appends `s` to `v`.
pub fn push_string(v: &mut Vec<String>, s: String)
    ensures
        final(v).deep_view() == old(v).deep_view().push(s@),
{
    let ghost d = v.deep_view();
    let ghost sv = s@;
    v.push(s);
    assert(v.deep_view() =~= d.push(sv));
}

/// Appends the elements of `other` to `v`.
pub fn append_strings(v: &mut Vec<String>, other: Vec<String>)
    ensures
        final(v).deep_view() == old(v).deep_view() + other.deep_view(),
{
    let ghost d = v.deep_view();
    let ghost od = other.deep_view();
    let mut other = other;
    v.append(&mut other);
    assert(v.deep_view() =~= d + od);
}


// ---------------------------------------------------------------------------
// Copies
// ---------------------------------------------------------------------------

/// The view of an optional string.
pub open spec fn opt_view(o: Option<String>) -> Option<Seq<char>> {
    match o {
        Some(s) => Some(s@),
        None => None,
    }
}

/// The view of an optional list of strings.
pub open spec fn opt_strings_view(o: Option<Vec<String>>) -> Option<Seq<Seq<char>>> {
    match o {
        Some(v) => Some(v.deep_view()),
        None => None,
    }
}

/// A copy of an optional string.
pub fn clone_opt_string(o: &Option<String>) -> (r: Option<String>)
    ensures
        opt_view(r) == opt_view(*o),
{
    match o {
        Some(s) => Some(s.clone()),
        None => None,
    }
}

/// A copy of a list of strings.
pub fn clone_strings(v: &Vec<String>) -> (r: Vec<String>)
    ensures
        r.deep_view() == v.deep_view(),
{
    let mut r: Vec<String> = Vec::new();
    let mut i: usize = 0;
    while i < v.len()
        invariant
            i <= v@.len(),
            r.deep_view() == v.deep_view().take(i as int),
        decreases v@.len() - i,
    {
        push_string(&mut r, v[i].clone());
        assert(v.deep_view().take(i + 1) =~= v.deep_view().take(i as int).push(v@[i as int]@));
        i += 1;
    }
    assert(v.deep_view().take(v@.len() as int) =~= v.deep_view());
    r
}

/// A copy of an optional list of strings.
pub fn clone_opt_strings(o: &Option<Vec<String>>) -> (r: Option<Vec<String>>)
    ensures
        opt_strings_view(r) == opt_strings_view(*o),
{
    match o {
        Some(v) => Some(clone_strings(v)),
        None => None,
    }
}

// ---------------------------------------------------------------------------
// Debug rendering
// ---------------------------------------------------------------------------

/// What `format!("{:?}", list)` writes for a list of strings (std's `Debug` for
/// `Vec<String>`: each item quoted with Rust's escapes, inside brackets).
pub uninterp spec fn debug_string_list(list: Seq<Seq<char>>) -> Seq<char>;

/// std's `Debug` rendering of a list of strings (`format!("{:?}", list)`); the
/// contract names the result and states nothing more of it, since std leaves
/// that text unspecified.
#[verifier::external_body]
pub(crate) fn debug_list(list: &Vec<String>) -> (r: String)
    ensures
        r@ == debug_string_list(list.deep_view()),
{
    format!("{:?}", list)
}

} // verus!
