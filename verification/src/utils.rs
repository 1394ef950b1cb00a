//! Input sanitising (identifiers and file names), lexical path normalisation and
//! containment, and removal of ANSI escape sequences.

use vstd::prelude::*;
use crate::text::{
    chars_of, contains, contains_char, contains_str, eq_str, join, push_char, push_chars, push_str,
    string_from, string_of, trim, trim_chars,
};

verus! {

// ---------------------------------------------------------------------------
// Identifiers and file names
// ---------------------------------------------------------------------------

/// Why an identifier or a file name is refused.
#[derive(Debug, Clone, Copy, PartialEq, Eq, Structural)]
pub enum InputError {
    Empty,
    NullByte,
    PathSeparator,
    PathTraversal,
    ControlCharacter(char),
    ForbiddenCharacter(char),
}

/// Unicode general category `Cc` (`char::is_control`).
pub open spec fn is_control(c: char) -> bool {
    c <= '\u{1f}' || ('\u{7f}' <= c && c <= '\u{9f}')
}

/// ASCII letter or digit.
pub open spec fn is_ascii_alnum(c: char) -> bool {
    ('0' <= c && c <= '9') || ('a' <= c && c <= 'z') || ('A' <= c && c <= 'Z')
}

/// The punctuation that identifiers may hold besides ASCII letters and digits.
pub open spec fn is_identifier_punct(c: char) -> bool {
    c == '_' || c == '-' || c == '.' || c == '+' || c == ' ' || c == '(' || c == ')'
}

/// What is wrong with one character of an identifier, if anything.
pub open spec fn identifier_char_error(c: char) -> Option<InputError> {
    if is_control(c) {
        Some(InputError::ControlCharacter(c))
    } else if !is_ascii_alnum(c) && !is_identifier_punct(c) {
        Some(InputError::ForbiddenCharacter(c))
    } else {
        None
    }
}

/// The error of the first offending character of `s`, if any.
pub open spec fn first_char_error(s: Seq<char>, allow_any: bool) -> Option<InputError>
    decreases s.len(),
{
    if s.len() == 0 {
        None
    } else {
        let e = if allow_any {
            if is_control(s[0]) {
                Some(InputError::ControlCharacter(s[0]))
            } else {
                None
            }
        } else {
            identifier_char_error(s[0])
        };
        match e {
            Some(err) => Some(err),
            None => first_char_error(s.drop_first(), allow_any),
        }
    }
}

/// The structural checks shared by identifiers and file names.
pub open spec fn structure_error(s: Seq<char>) -> Option<InputError> {
    if s.contains('\0') {
        Some(InputError::NullByte)
    } else if s.contains('/') || s.contains('\\') {
        Some(InputError::PathSeparator)
    } else if s == "."@ || s == ".."@ || contains(s, ".."@) {
        Some(InputError::PathTraversal)
    } else {
        None
    }
}

/// The first rule that an identifier breaks, if any.
pub open spec fn identifier_error(s: Seq<char>) -> Option<InputError> {
    if s.len() == 0 {
        Some(InputError::Empty)
    } else if structure_error(s) is Some {
        structure_error(s)
    } else {
        first_char_error(s, false)
    }
}

proof fn lemma_first_char_error_none(s: Seq<char>, allow_any: bool)
    requires
        first_char_error(s, allow_any) is None,
    ensures
        forall|i: int| 0 <= i < s.len() ==> !is_control(#[trigger] s[i]),
        !allow_any ==> forall|i: int| 0 <= i < s.len() ==> identifier_char_error(#[trigger] s[i]) is None,
    decreases s.len(),
{
    if s.len() > 0 {
        lemma_first_char_error_none(s.drop_first(), allow_any);
        assert forall|i: int| 0 < i < s.len() implies s[i] == s.drop_first()[i - 1] by {}
    }
}

/// An identifier that `sanitize_identifier` accepts is a plain name: not empty,
/// without separators, null bytes, `..` or control characters, and made only of
/// ASCII letters and digits, `_ - . + ( )` and space.
pub proof fn lemma_accepted_identifier_is_plain(s: Seq<char>)
    requires
        identifier_error(s) is None,
    ensures
        s.len() > 0,
        !s.contains('/'),
        !s.contains('\\'),
        !s.contains('\0'),
        !contains(s, ".."@),
        s != "."@,
        forall|i: int|
            0 <= i < s.len() ==> !is_control(#[trigger] s[i]) && (is_ascii_alnum(s[i])
                || is_identifier_punct(s[i])),
{
    lemma_first_char_error_none(s, false);
}

/// The first rule that a file name breaks, if any.
pub open spec fn filename_error(s: Seq<char>) -> Option<InputError> {
    if trim(s).len() == 0 {
        Some(InputError::Empty)
    } else if structure_error(s) is Some {
        structure_error(s)
    } else {
        first_char_error(s, true)
    }
}

fn is_control_char(c: char) -> (r: bool)
    ensures
        r == is_control(c),
{
    c <= '\u{1f}' || ('\u{7f}' <= c && c <= '\u{9f}')
}

fn structure_error_exec(s: &[char]) -> (r: Option<InputError>)
    ensures
        r == structure_error(s@),
{
    if contains_char(s, '\0') {
        Some(InputError::NullByte)
    } else if contains_char(s, '/') || contains_char(s, '\\') {
        Some(InputError::PathSeparator)
    } else if eq_str(s, ".") || eq_str(s, "..") || contains_str(s, "..") {
        Some(InputError::PathTraversal)
    } else {
        None
    }
}

fn first_char_error_exec(s: &[char], allow_any: bool) -> (r: Option<InputError>)
    ensures
        r == first_char_error(s@, allow_any),
{
    let n = s.len();
    let mut i: usize = 0;
    assert(s@.skip(0) =~= s@);
    while i < n
        invariant
            n == s@.len(),
            i <= n,
            first_char_error(s@, allow_any) == first_char_error(s@.skip(i as int), allow_any),
        decreases n - i,
    {
        let c = s[i];
        let ghost rest = s@.skip(i as int);
        assert(rest[0] == c);
        assert(rest.drop_first() =~= s@.skip(i + 1));
        if is_control_char(c) {
            return Some(InputError::ControlCharacter(c));
        }
        if !allow_any {
            let alnum = ('0' <= c && c <= '9') || ('a' <= c && c <= 'z') || ('A' <= c && c <= 'Z');
            if !alnum && !(c == '_' || c == '-' || c == '.' || c == '+' || c == ' ' || c == '('
                || c == ')') {
                return Some(InputError::ForbiddenCharacter(c));
            }
        }
        i += 1;
    }
    None
}

/// Sanitizes a string intended to be an identifier (such as a benchmark ID, version, or category).
/// Rejects path traversal sequences (`..`), path separators (`/`, `\`), null bytes, control characters,
/// and characters other than ASCII letters and digits, `_ - . + ( )` and space.
pub fn sanitize_identifier(input: &str) -> (r: Result<String, InputError>)
    ensures
        match identifier_error(input@) {
            None => r is Ok && r->Ok_0@ == input@,
            Some(e) => r == Err::<String, InputError>(e),
        },
{
    let v = chars_of(input);
    let s = v.as_slice();
    if v.len() == 0 {
        return Err(InputError::Empty);
    }
    match structure_error_exec(s) {
        Some(e) => { return Err(e); },
        None => {},
    }
    match first_char_error_exec(s, false) {
        Some(e) => Err(e),
        None => Ok(string_from(input)),
    }
}

/// Sanitizes a filename (e.g. for log files, export CSV/PNG files).
/// Rejects path traversal sequences (`..`), path separators (`/`, `\`), null bytes, and control
/// characters; returns the name without surrounding whitespace.
pub fn sanitize_filename(input: &str) -> (r: Result<String, InputError>)
    ensures
        match filename_error(input@) {
            None => r is Ok && r->Ok_0@ == trim(input@),
            Some(e) => r == Err::<String, InputError>(e),
        },
{
    let v = chars_of(input);
    let s = v.as_slice();
    let t = trim_chars(s);
    if t.len() == 0 {
        return Err(InputError::Empty);
    }
    match structure_error_exec(s) {
        Some(e) => { return Err(e); },
        None => {},
    }
    match first_char_error_exec(s, true) {
        Some(e) => Err(e),
        None => Ok(string_of(t.as_slice())),
    }
}

// ---------------------------------------------------------------------------
// Paths (Unix, '/'-separated)
// ---------------------------------------------------------------------------

/// The pieces of `s` between the occurrences of `sep` (there is always at least one).
pub open spec fn split_on(s: Seq<char>, sep: char) -> Seq<Seq<char>>
    decreases s.len(),
{
    if s.len() == 0 {
        seq![Seq::empty()]
    } else {
        let p = split_on(s.drop_last(), sep);
        if s.last() == sep {
            p.push(Seq::empty())
        } else {
            p.update(p.len() - 1, p.last().push(s.last()))
        }
    }
}

/// Splitting always gives at least one piece.
pub proof fn lemma_split_nonempty(s: Seq<char>, sep: char)
    ensures
        split_on(s, sep).len() >= 1,
    decreases s.len(),
{
    if s.len() > 0 {
        lemma_split_nonempty(s.drop_last(), sep);
    }
}

/// Adds one path segment to the normalised components `acc`: empty and `.` segments
/// vanish, `..` removes the previous normal component, is dropped right after the
/// root, and is kept otherwise.
pub open spec fn norm_step(acc: Seq<Seq<char>>, seg: Seq<char>, rooted: bool) -> Seq<Seq<char>> {
    if seg.len() == 0 || seg == "."@ {
        acc
    } else if seg == ".."@ {
        if acc.len() > 0 && acc.last() != ".."@ {
            acc.drop_last()
        } else if rooted && acc.len() == 0 {
            acc
        } else {
            acc.push(seg)
        }
    } else {
        acc.push(seg)
    }
}

/// The normalised components of a list of segments.
pub open spec fn norm_segments(segs: Seq<Seq<char>>, rooted: bool) -> Seq<Seq<char>>
    decreases segs.len(),
{
    if segs.len() == 0 {
        Seq::empty()
    } else {
        norm_step(norm_segments(segs.drop_last(), rooted), segs.last(), rooted)
    }
}

/// Whether a path is absolute.
pub open spec fn is_rooted(p: Seq<char>) -> bool {
    p.len() > 0 && p[0] == '/'
}

/// The normal components of `p` after removing `.` and resolving `..` lexically.
pub open spec fn path_components(p: Seq<char>) -> Seq<Seq<char>> {
    norm_segments(split_on(p, '/'), is_rooted(p))
}

/// `p` with `.` removed and `..` resolved, without touching the filesystem.
pub open spec fn normalized_path(p: Seq<char>) -> Seq<char> {
    (if is_rooted(p) {
        "/"@
    } else {
        Seq::empty()
    }) + join(path_components(p), "/"@)
}

/// The `sep`-separated pieces of `s` (`str::split`).
pub fn split_chars(s: &[char], sep: char) -> (r: Vec<Vec<char>>)
    ensures
        r@.map_values(|v: Vec<char>| v@) == split_on(s@, sep),
{
    let mut done: Vec<Vec<char>> = Vec::new();
    let mut cur: Vec<char> = Vec::new();
    let mut i: usize = 0;
    assert(s@.take(0) =~= Seq::<char>::empty());
    while i < s.len()
        invariant
            i <= s@.len(),
            split_on(s@.take(i as int), sep) == done@.map_values(|v: Vec<char>| v@).push(cur@),
        decreases s@.len() - i,
    {
        let c = s[i];
        let ghost prev = done@.map_values(|v: Vec<char>| v@);
        assert(s@.take(i + 1).drop_last() =~= s@.take(i as int));
        assert(s@.take(i + 1).last() == c);
        if c == sep {
            let finished = cur;
            done.push(finished);
            cur = Vec::new();
            assert(done@.map_values(|v: Vec<char>| v@) =~= prev.push(finished@));
        } else {
            let ghost old_cur = cur@;
            cur.push(c);
            assert(cur@ =~= old_cur.push(c));
            assert(prev.push(old_cur).update(prev.len() as int, old_cur.push(c)) =~= prev.push(
                cur@,
            ));
        }
        i += 1;
    }
    assert(s@.take(s@.len() as int) =~= s@);
    let ghost prev = done@.map_values(|v: Vec<char>| v@);
    let last = cur;
    done.push(last);
    assert(done@.map_values(|v: Vec<char>| v@) =~= prev.push(last@));
    done
}

/// The `/`-separated segments of `s`.
pub fn split_path(s: &[char]) -> (r: Vec<Vec<char>>)
    ensures
        r@.map_values(|v: Vec<char>| v@) == split_on(s@, '/'),
{
    split_chars(s, '/')
}

fn chars_eq_str(v: &Vec<char>, lit: &str) -> (r: bool)
    ensures
        r == (v@ == lit@),
{
    eq_str(v.as_slice(), lit)
}

/// The normalised components of `p`.
pub fn components_of(p: &str) -> (r: Vec<String>)
    ensures
        r.deep_view() == path_components(p@),
{
    let v = chars_of(p);
    let rooted = v.len() > 0 && v[0] == '/';
    let segs = split_path(v.as_slice());
    let ghost sv = segs@.map_values(|x: Vec<char>| x@);
    let mut acc: Vec<String> = Vec::new();
    let mut i: usize = 0;
    while i < segs.len()
        invariant
            sv == segs@.map_values(|x: Vec<char>| x@),
            i <= segs@.len(),
            rooted == is_rooted(p@),
            acc.deep_view() == norm_segments(sv.take(i as int), rooted),
        decreases segs@.len() - i,
    {
        let seg = &segs[i];
        assert(sv[i as int] == seg@);
        assert(sv.take(i + 1).drop_last() =~= sv.take(i as int));
        let ghost before = acc.deep_view();
        if seg.len() == 0 || chars_eq_str(seg, ".") {
        } else if chars_eq_str(seg, "..") {
            let n = acc.len();
            if n > 0 && !crate::text::str_is(acc[n - 1].as_str(), "..") {
                assert(before.last() == acc@[n - 1]@);
                acc.pop();
                assert(acc.deep_view() =~= before.drop_last());
            } else if rooted && n == 0 {
            } else {
                let ghost d = acc.deep_view();
                acc.push(string_of(seg.as_slice()));
                assert(acc.deep_view() =~= d.push(seg@));
                proof {
                    if n > 0 {
                        assert(before.last() == acc@[n - 1]@);
                    }
                }
            }
        } else {
            let ghost d = acc.deep_view();
            acc.push(string_of(seg.as_slice()));
            assert(acc.deep_view() =~= d.push(seg@));
        }
        i += 1;
    }
    assert(sv.take(sv.len() as int) =~= sv);
    acc
}

/// Normalizes a path by removing redundant `.` and resolving `..` components logically
/// without touching the filesystem.
pub fn normalize_path(path: &str) -> (r: String)
    ensures
        r@ == normalized_path(path@),
{
    let comps = components_of(path);
    let joined = crate::text::join_strings(&comps, "/");
    let v = chars_of(path);
    if v.len() > 0 && v[0] == '/' {
        let mut r = string_from("/");
        push_str(&mut r, joined.as_str());
        r
    } else {
        assert(Seq::<char>::empty() + joined@ =~= joined@);
        joined
    }
}

/// Why a path is not strictly inside a base directory.
#[derive(Debug, Clone, Copy, PartialEq, Eq, Structural)]
pub enum PathError {
    OutsideBase,
    SameAsBase,
}

/// Whether `prefix` is an initial part of `s`.
pub open spec fn is_seq_prefix<T>(prefix: Seq<T>, s: Seq<T>) -> bool {
    prefix.len() <= s.len() && s.take(prefix.len() as int) == prefix
}

/// How `target` stands to `base`, comparing normalised components: inside it,
/// outside it, or the same directory.
pub open spec fn containment(base: Seq<char>, target: Seq<char>) -> Option<PathError> {
    let b = path_components(base);
    let t = path_components(target);
    if is_rooted(base) != is_rooted(target) || !is_seq_prefix(b, t) {
        Some(PathError::OutsideBase)
    } else if b.len() == t.len() {
        Some(PathError::SameAsBase)
    } else {
        None
    }
}

/// Checks that `target` lies strictly inside `base` once both are normalised; on
/// success returns the normalised target.
pub fn check_path_within(base: &str, target: &str) -> (r: Result<String, PathError>)
    ensures
        match containment(base@, target@) {
            None => r is Ok && r->Ok_0@ == normalized_path(target@),
            Some(e) => r == Err::<String, PathError>(e),
        },
{
    let b = components_of(base);
    let t = components_of(target);
    let bv = chars_of(base);
    let tv = chars_of(target);
    let b_root = bv.len() > 0 && bv[0] == '/';
    let t_root = tv.len() > 0 && tv[0] == '/';
    assert(b.deep_view().len() == b@.len());
    assert(t.deep_view().len() == t@.len());
    if b_root != t_root || b.len() > t.len() {
        return Err(PathError::OutsideBase);
    }
    let ghost bd = b.deep_view();
    let ghost td = t.deep_view();
    let mut i: usize = 0;
    while i < b.len()
        invariant
            bd == b.deep_view(),
            td == t.deep_view(),
            bd == path_components(base@),
            td == path_components(target@),
            bd.len() == b@.len(),
            td.len() == t@.len(),
            is_rooted(base@) == is_rooted(target@),
            b@.len() <= t@.len(),
            i <= b@.len(),
            forall|k: int| 0 <= k < i ==> bd[k] == td[k],
        decreases b@.len() - i,
    {
        if !crate::text::str_is(b[i].as_str(), t[i].as_str()) {
            proof {
                assert(bd[i as int] != td[i as int]);
                assert(td.take(bd.len() as int)[i as int] == td[i as int]);
            }
            return Err(PathError::OutsideBase);
        }
        i += 1;
    }
    assert(td.take(bd.len() as int) =~= bd);
    if b.len() == t.len() {
        return Err(PathError::SameAsBase);
    }
    Ok(normalize_path(target))
}

// ---------------------------------------------------------------------------
// ANSI escape sequences
// ---------------------------------------------------------------------------

/// The regular expression of an ANSI colour or erase-line sequence.
pub open spec fn ansi_pattern() -> Seq<char> {
    "\u{1b}\\[[0-9;]*[mK]"@
}

/// Number of leading characters of `s` in `0-9` or `;`.
pub open spec fn params_len(s: Seq<char>) -> nat
    decreases s.len(),
{
    if s.len() > 0 && (('0' <= s[0] && s[0] <= '9') || s[0] == ';') {
        1 + params_len(s.drop_first())
    } else {
        0
    }
}

/// Length of the ANSI sequence `ESC [ params (m|K)` that starts `s`, if one does.
pub open spec fn ansi_match_len(s: Seq<char>) -> Option<nat> {
    if s.len() >= 2 && s[0] == '\u{1b}' && s[1] == '[' {
        let k = params_len(s.skip(2)) as int;
        if 2 + k < s.len() && (s[2 + k] == 'm' || s[2 + k] == 'K') {
            Some((3 + k) as nat)
        } else {
            None
        }
    } else {
        None
    }
}

/// `s` with every ANSI sequence removed, scanning from the left.
pub open spec fn strip_ansi(s: Seq<char>) -> Seq<char>
    decreases s.len(),
{
    if s.len() == 0 {
        Seq::empty()
    } else {
        match ansi_match_len(s) {
            Some(n) => if 0 < n <= s.len() {
                strip_ansi(s.skip(n as int))
            } else {
                Seq::empty()
            },
            None => seq![s[0]] + strip_ansi(s.drop_first()),
        }
    }
}

/// Text without an escape character comes out of the stripping unchanged.
pub proof fn lemma_plain_text_unchanged(s: Seq<char>)
    requires
        !s.contains('\u{1b}'),
    ensures
        strip_ansi(s) == s,
    decreases s.len(),
{
    if s.len() > 0 {
        assert(s[0] != '\u{1b}');
        let rest = s.drop_first();
        assert(!rest.contains('\u{1b}')) by {
            if rest.contains('\u{1b}') {
                let i = choose|i: int| 0 <= i < rest.len() && rest[i] == '\u{1b}';
                assert(s[i + 1] == '\u{1b}');
            }
        }
        lemma_plain_text_unchanged(rest);
        assert(seq![s[0]] + rest =~= s);
    }
}

/// Stripping never lengthens a text, and keeps only characters of it.
pub proof fn lemma_strip_only_removes(s: Seq<char>)
    ensures
        strip_ansi(s).len() <= s.len(),
        forall|c: char| #[trigger] strip_ansi(s).contains(c) ==> s.contains(c),
    decreases s.len(),
{
    if s.len() > 0 {
        match ansi_match_len(s) {
            Some(n) => {
                if 0 < n <= s.len() {
                    lemma_strip_only_removes(s.skip(n as int));
                    assert forall|c: char| strip_ansi(s).contains(c) implies s.contains(c) by {
                        let t = s.skip(n as int);
                        assert(t.contains(c));
                        let i = choose|i: int| 0 <= i < t.len() && t[i] == c;
                        assert(s[i + n] == c);
                    }
                }
            },
            None => {
                let rest = s.drop_first();
                lemma_strip_only_removes(rest);
                assert(strip_ansi(s) == seq![s[0]] + strip_ansi(rest));
                assert forall|c: char| strip_ansi(s).contains(c) implies s.contains(c) by {
                    let r = strip_ansi(s);
                    let i = choose|i: int| 0 <= i < r.len() && r[i] == c;
                    if i == 0 {
                        assert(s[0] == c);
                    } else {
                        assert(strip_ansi(rest)[i - 1] == c);
                        assert(strip_ansi(rest).contains(c));
                        let j = choose|j: int| 0 <= j < rest.len() && rest[j] == c;
                        assert(s[j + 1] == c);
                    }
                }
            },
        }
    }
}

/// What `Regex::new(pattern)` followed by `replace_all(input, rep)` returns, or
/// `None` when the pattern does not compile.
pub uninterp spec fn regex_replace_all_result(
    pattern: Seq<char>,
    input: Seq<char>,
    rep: Seq<char>,
) -> Option<Seq<char>>;

/// `regex::Regex::new(pattern)` then `Regex::replace_all(input, rep)`.
/// Claimed: the result is the named function of the three arguments; and for the ANSI
/// pattern with an empty replacement, every non-overlapping leftmost match (which,
/// as `[0-9;]` excludes `m` and `K`, is unique where one starts) is deleted.
#[verifier::external_body]
pub(crate) fn regex_replace_all(pattern: &str, input: &str, rep: &str) -> (r: Option<String>)
    ensures
        crate::text::opt_view(r) == regex_replace_all_result(pattern@, input@, rep@),
        pattern@ == ansi_pattern() && rep@.len() == 0 ==> crate::text::opt_view(r) == Some(
            strip_ansi(input@),
        ),
{
    match regex::Regex::new(pattern) {
        Ok(re) => Some(re.replace_all(input, rep).into_owned()),
        Err(_) => None,
    }
}

/// Strips ANSI escape sequences (e.g. colors, formatting) from a line of text.
pub fn strip_ansi_codes(input: &str) -> (r: String)
    ensures
        r@ == strip_ansi(input@),
{
    proof {
        reveal_strlit("");
    }
    match regex_replace_all("\u{1b}\\[[0-9;]*[mK]", input, "") {
        Some(s) => s,
        None => {
            assert(false);
            String::new()
        },
    }
}

// ---------------------------------------------------------------------------
// Score captures
// ---------------------------------------------------------------------------

/// What `Regex::new(pattern)` then `Regex::captures(text)` give: `None` when the
/// pattern does not compile, `Some(None)` when it does not match, else the text of
/// each capture group after the whole match (`None` for a group that took no part).
pub uninterp spec fn regex_capture_groups(pattern: Seq<char>, text: Seq<char>) -> Option<
    Option<Seq<Option<Seq<char>>>>,
>;

/// The view of a list of optional strings.
pub open spec fn opt_strings(v: Seq<Option<String>>) -> Seq<Option<Seq<char>>> {
    v.map_values(|o: Option<String>| crate::text::opt_view(o))
}

/// The view of optional capture groups.
pub open spec fn groups_view(g: Option<Vec<Option<String>>>) -> Option<Seq<Option<Seq<char>>>> {
    match g {
        Some(v) => Some(opt_strings(v@)),
        None => None,
    }
}

/// `regex::Regex::new(pattern)` then `Regex::captures(text)`, the groups after
/// the whole match converted to strings. Claimed: the result is the named
/// function of the two arguments.
#[verifier::external_body]
fn regex_captures(pattern: &str, text: &str) -> (r: Option<Option<Vec<Option<String>>>>)
    ensures
        match r {
            Some(g) => regex_capture_groups(pattern@, text@) == Some(groups_view(g)),
            None => regex_capture_groups(pattern@, text@) is None,
        },
{
    match regex::Regex::new(pattern) {
        Ok(re) => Some(re.captures(text).map(|c| (1..c.len()).map(|i| c.get(i).map(|m| m.as_str().to_string())).collect())),
        Err(_) => None,
    }
}

/// The capture groups a line gives: matched without its ANSI sequences, or
/// else as written; `None` when neither matches (or the pattern is invalid).
pub open spec fn line_groups(pattern: Seq<char>, line: Seq<char>) -> Option<Seq<Option<Seq<char>>>> {
    match regex_capture_groups(pattern, strip_ansi(line)) {
        Some(Some(g)) => Some(g),
        _ => match regex_capture_groups(pattern, line) {
            Some(Some(g)) => Some(g),
            _ => None,
        },
    }
}

/// The capture groups of a line of output, as the score is looked for in it.
pub fn line_score_groups(pattern: &str, line: &str) -> (r: Option<Vec<Option<String>>>)
    ensures
        groups_view(r) == line_groups(pattern@, line@),
{
    let stripped = strip_ansi_codes(line);
    match regex_captures(pattern, stripped.as_str()) {
        Some(Some(g)) => Some(g),
        _ => match regex_captures(pattern, line) {
            Some(Some(g)) => Some(g),
            _ => None,
        },
    }
}

/// The capture groups of each line of a benchmark's output, in order; the score
/// is the first group of the last matching line that reads as a number.
pub fn score_groups(pattern: &str, output: &str) -> (r: Vec<Option<Vec<Option<String>>>>)
    ensures
        r@.len() == crate::text::text_lines(output@).len(),
        forall|i: int|
            0 <= i < r@.len() ==> groups_view(#[trigger] r@[i]) == line_groups(
                pattern@,
                crate::text::text_lines(output@)[i],
            ),
{
    let lines = crate::text::lines_of(output);
    let ghost lv = lines@.map_values(|l: Vec<char>| l@);
    assert(lv =~= crate::text::text_lines(output@));
    let mut r: Vec<Option<Vec<Option<String>>>> = Vec::new();
    let mut i: usize = 0;
    while i < lines.len()
        invariant
            i <= lines@.len(),
            lv == lines@.map_values(|l: Vec<char>| l@),
            lv == crate::text::text_lines(output@),
            r@.len() == i,
            forall|j: int| 0 <= j < i ==> groups_view(#[trigger] r@[j]) == line_groups(pattern@, lv[j]),
        decreases lines@.len() - i,
    {
        let line = crate::text::string_of(lines[i].as_slice());
        assert(line@ == lv[i as int]);
        let g = line_score_groups(pattern, line.as_str());
        r.push(g);
        i += 1;
    }
    r
}

} // verus!
