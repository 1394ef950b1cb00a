//! Finding a benchmark's executable in its runner directory: the paths tried
//! first, the words a recursive search looks for, how a found file is scored and
//! which one wins, and the message shown when nothing is found. Walking the
//! directory and testing files is left to the caller.
use vstd::prelude::*;
use crate::engine::{is_archive_name, join_path, path_join, ResolvedExecutable};
use crate::text::{
    chars_of, contains, contains_str, ends_with, ends_with_str, eq_str, lowercase, push_str, starts_with,
    starts_with_str, string_from, string_of, to_lowercase, words,
};
use crate::utils::{normalized_path, split_chars, split_on};

verus! {

// ---------------------------------------------------------------------------
// Path names
// ---------------------------------------------------------------------------

/// Whether a path segment names something (it is neither empty nor `.`).
pub open spec fn is_named(seg: Seq<char>) -> bool {
    seg.len() > 0 && seg != "."@
}

/// The segments of a list that name something, in order.
pub open spec fn named_segments(segs: Seq<Seq<char>>) -> Seq<Seq<char>>
    decreases segs.len(),
{
    if segs.len() == 0 {
        Seq::empty()
    } else if is_named(segs.last()) {
        named_segments(segs.drop_last()).push(segs.last())
    } else {
        named_segments(segs.drop_last())
    }
}

/// The final component of a path when it is a name (`Path::file_name`): repeated
/// separators and `.` segments are skipped, and `..` has no name.
pub open spec fn file_name_of(p: Seq<char>) -> Option<Seq<char>> {
    let ns = named_segments(split_on(p, '/'));
    if ns.len() == 0 || ns.last() == ".."@ {
        None
    } else {
        Some(ns.last())
    }
}

proof fn lemma_named_tail(segs: Seq<Seq<char>>, k: int)
    requires
        0 <= k <= segs.len(),
        forall|j: int| k <= j < segs.len() ==> !is_named(#[trigger] segs[j]),
    ensures
        named_segments(segs) == named_segments(segs.take(k)),
    decreases segs.len() - k,
{
    if k < segs.len() {
        assert forall|j: int| k <= j < segs.drop_last().len() implies !is_named(
            #[trigger] segs.drop_last()[j],
        ) by {
            assert(segs.drop_last()[j] == segs[j]);
        }
        assert(segs[segs.len() - 1] == segs.last());
        lemma_named_tail(segs.drop_last(), k);
        assert(segs.drop_last().take(k) =~= segs.take(k));
    } else {
        assert(segs.take(k) =~= segs);
    }
}

fn is_named_exec(seg: &Vec<char>) -> (r: bool)
    ensures
        r == is_named(seg@),
{
    proof {
        reveal_strlit(".");
    }
    if seg.len() == 0 {
        false
    } else if seg.len() == 1 && seg[0] == '.' {
        assert(seg@ =~= "."@);
        false
    } else {
        assert(seg@ != "."@) by {
            if seg@ == "."@ {
                assert(seg@.len() == 1 && seg@[0] == '.');
            }
        }
        true
    }
}

/// The final component of `p` when it is a name (`Path::file_name`).
pub fn file_name(p: &str) -> (r: Option<String>)
    ensures
        crate::text::opt_view(r) == file_name_of(p@),
{
    proof {
        reveal_strlit("..");
    }
    let v = chars_of(p);
    let segs = split_chars(v.as_slice(), '/');
    let ghost sv = segs@.map_values(|x: Vec<char>| x@);
    let mut k = segs.len();
    while k > 0 && !is_named_exec(&segs[k - 1])
        invariant
            k <= segs@.len(),
            sv == segs@.map_values(|x: Vec<char>| x@),
            forall|j: int| k <= j < sv.len() ==> !is_named(#[trigger] sv[j]),
        decreases k,
    {
        assert(sv[k - 1] == segs@[k - 1]@);
        k -= 1;
    }
    proof {
        lemma_named_tail(sv, k as int);
    }
    if k == 0 {
        assert(sv.take(0) =~= Seq::<Seq<char>>::empty());
        return None;
    }
    let seg = &segs[k - 1];
    assert(sv[k - 1] == seg@);
    proof {
        let t = sv.take(k as int);
        assert(t.drop_last() =~= sv.take(k - 1));
        assert(t.last() == seg@);
        assert(is_named(seg@));
    }
    if seg.len() == 2 && seg[0] == '.' && seg[1] == '.' {
        assert(seg@ =~= ".."@);
        None
    } else {
        assert(seg@ != ".."@) by {
            if seg@ == ".."@ {
                assert(seg@.len() == 2 && seg@[0] == '.' && seg@[1] == '.');
            }
        }
        Some(string_of(seg.as_slice()))
    }
}

/// `s` without any leading `./` (`str::trim_start_matches("./")`).
pub open spec fn without_dot_slash(s: Seq<char>) -> Seq<char>
    decreases s.len(),
{
    if s.len() >= 2 && s[0] == '.' && s[1] == '/' {
        without_dot_slash(s.skip(2))
    } else {
        s
    }
}

fn trim_dot_slash(s: &str) -> (r: String)
    ensures
        r@ == without_dot_slash(s@),
{
    let v = chars_of(s);
    let n = v.len();
    let mut i: usize = 0;
    assert(v@.skip(0) =~= v@);
    while n - i >= 2 && v[i] == '.' && v[i + 1] == '/'
        invariant
            n == v@.len(),
            i <= n,
            without_dot_slash(s@) == without_dot_slash(v@.skip(i as int)),
            v@ == s@,
        decreases n - i,
    {
        assert(v@.skip(i as int).skip(2) =~= v@.skip(i + 2));
        i += 2;
    }
    let mut r = String::new();
    let mut j = i;
    while j < n
        invariant
            n == v@.len(),
            i <= j <= n,
            r@ == v@.subrange(i as int, j as int),
        decreases n - j,
    {
        crate::text::push_char(&mut r, v[j]);
        assert(v@.subrange(i as int, j + 1) =~= v@.subrange(i as int, j as int).push(v@[j as int]));
        j += 1;
    }
    assert(v@.subrange(i as int, n as int) =~= v@.skip(i as int));
    r
}

// ---------------------------------------------------------------------------
// Direct candidates
// ---------------------------------------------------------------------------

/// The file name of `p`, or nothing.
pub open spec fn name_or_empty(p: Seq<char>) -> Seq<char> {
    match file_name_of(p) {
        Some(n) => n,
        None => Seq::empty(),
    }
}

/// The three places tried for a relative path `rel`: as given, its file name under
/// `extracted`, and its file name in the runner directory itself.
pub open spec fn places_for(dir: Seq<char>, rel: Seq<char>) -> Seq<Seq<char>> {
    seq![
        path_join(dir, rel),
        path_join(path_join(dir, "extracted"@), name_or_empty(rel)),
        path_join(dir, name_or_empty(rel)),
    ]
}

/// The paths tried first, in order: those of the profile's binary path, then those
/// of its run command without leading `./`.
pub open spec fn direct_candidates(dir: Seq<char>, rel: Option<Seq<char>>, run_cmd: Seq<char>) -> Seq<
    Seq<char>,
> {
    (match rel {
        Some(r) => places_for(dir, r),
        None => Seq::empty(),
    }) + if run_cmd.len() > 0 {
        places_for(dir, without_dot_slash(run_cmd))
    } else {
        Seq::empty()
    }
}

fn name_or_empty_exec(p: &str) -> (r: String)
    ensures
        r@ == name_or_empty(p@),
{
    match file_name(p) {
        Some(n) => n,
        None => String::new(),
    }
}

fn push_places(v: &mut Vec<String>, dir: &str, rel: &str)
    ensures
        final(v).deep_view() == old(v).deep_view() + places_for(dir@, rel@),
{
    let ghost d = v.deep_view();
    let name = name_or_empty_exec(rel);
    crate::text::push_string(v, join_path(dir, rel));
    let extracted = join_path(dir, "extracted");
    crate::text::push_string(v, join_path(extracted.as_str(), name.as_str()));
    crate::text::push_string(v, join_path(dir, name.as_str()));
    assert(v.deep_view() =~= d + places_for(dir@, rel@));
}

/// The paths to try first for a profile's executable, in order.
pub fn direct_candidate_paths(runner_dir: &str, binary_relative_path: &Option<String>, run_cmd: &str) -> (r:
    Vec<String>)
    ensures
        r.deep_view() == direct_candidates(
            runner_dir@,
            crate::text::opt_view(*binary_relative_path),
            run_cmd@,
        ),
{
    let mut r: Vec<String> = Vec::new();
    match binary_relative_path {
        Some(rel) => push_places(&mut r, runner_dir, rel.as_str()),
        None => {},
    }
    let ghost mid = r.deep_view();
    if !run_cmd.is_empty() {
        let clean = trim_dot_slash(run_cmd);
        push_places(&mut r, runner_dir, clean.as_str());
    } else {
        assert(mid + Seq::<Seq<char>>::empty() =~= mid);
    }
    assert(r.deep_view() =~= direct_candidates(
        runner_dir@,
        crate::text::opt_view(*binary_relative_path),
        run_cmd@,
    ));
    r
}

/// Whether a candidate is passed over because its name is an archive or installer.
pub open spec fn skipped_candidate(p: Seq<char>) -> bool {
    is_archive_name(lowercase(name_or_empty(p)))
}

/// Whether a candidate path is passed over: its file name is an archive or an
/// installer.
pub fn is_skipped_candidate(p: &str) -> (r: bool)
    ensures
        r == skipped_candidate(p@),
{
    let name = name_or_empty_exec(p);
    crate::engine::is_archive_or_installer(name.as_str())
}

/// The run command as a system command to look up in `PATH`: without leading
/// `./`, when it is not empty, has no `/` and is not an archive or installer.
pub open spec fn system_command_of(run_cmd: Seq<char>) -> Option<Seq<char>> {
    let clean = without_dot_slash(run_cmd);
    if run_cmd.len() > 0 && !clean.contains('/') && !is_archive_name(lowercase(clean)) {
        Some(clean)
    } else {
        None
    }
}

/// The run command to look up in `PATH`, if it may be one.
pub fn system_command_name(run_cmd: &str) -> (r: Option<String>)
    ensures
        crate::text::opt_view(r) == system_command_of(run_cmd@),
{
    if run_cmd.is_empty() {
        return None;
    }
    let clean = trim_dot_slash(run_cmd);
    let cv = chars_of(clean.as_str());
    if !crate::text::contains_char(cv.as_slice(), '/') && !crate::engine::is_archive_or_installer(
        clean.as_str(),
    ) {
        Some(clean)
    } else {
        None
    }
}

// ---------------------------------------------------------------------------
// Search terms
// ---------------------------------------------------------------------------

/// The words longer than three bytes, lower-cased, in order.
pub open spec fn long_words(ws: Seq<Seq<char>>) -> Seq<Seq<char>>
    decreases ws.len(),
{
    if ws.len() == 0 {
        Seq::empty()
    } else {
        long_words(ws.drop_last()) + if crate::logging::utf8_len(ws.last()) > 3 {
            seq![lowercase(ws.last())]
        } else {
            Seq::<Seq<char>>::empty()
        }
    }
}

/// The lower-cased file name of `p` as a one-element list, if it has one.
pub open spec fn name_term(p: Seq<char>) -> Seq<Seq<char>> {
    match file_name_of(p) {
        Some(n) => seq![lowercase(n)],
        None => Seq::empty(),
    }
}

/// The words that the recursive search looks for, in order: the file names of
/// the binary path and of the run command, the id, the id's `_`-separated parts
/// and the name's words that are longer than three bytes; all lower-cased.
pub open spec fn search_terms_of(
    id: Seq<char>,
    name: Seq<char>,
    rel: Option<Seq<char>>,
    run_cmd: Seq<char>,
) -> Seq<Seq<char>> {
    (match rel {
        Some(r) => name_term(r),
        None => Seq::empty(),
    }) + (if run_cmd.len() > 0 {
        name_term(without_dot_slash(run_cmd))
    } else {
        Seq::empty()
    }) + seq![lowercase(id)] + long_words(split_on(id, '_')) + long_words(words(name))
}

fn push_name_term(v: &mut Vec<String>, p: &str)
    ensures
        final(v).deep_view() == old(v).deep_view() + name_term(p@),
{
    let ghost d = v.deep_view();
    match file_name(p) {
        Some(n) => {
            crate::text::push_string(v, to_lowercase(n.as_str()));
            assert(v.deep_view() =~= d + name_term(p@));
        },
        None => {
            assert(d + Seq::<Seq<char>>::empty() =~= d);
        },
    }
}

fn push_long_word(v: &mut Vec<String>, w: &Vec<char>)
    ensures
        final(v).deep_view() == old(v).deep_view() + if crate::logging::utf8_len(w@) > 3 {
            seq![lowercase(w@)]
        } else {
            Seq::<Seq<char>>::empty()
        },
{
    let ghost d = v.deep_view();
    let bytes = crate::logging::utf8_len_from(w, 0);
    assert(w@.skip(0) =~= w@);
    if bytes > 3 {
        let s = string_of(w.as_slice());
        crate::text::push_string(v, to_lowercase(s.as_str()));
        assert(v.deep_view() =~= d + seq![lowercase(w@)]);
    } else {
        assert(d + Seq::<Seq<char>>::empty() =~= d);
    }
}

fn push_long_words(v: &mut Vec<String>, ws: &Vec<Vec<char>>)
    ensures
        final(v).deep_view() == old(v).deep_view() + long_words(ws@.map_values(|x: Vec<char>| x@)),
{
    let ghost d = v.deep_view();
    let ghost wv = ws@.map_values(|x: Vec<char>| x@);
    let mut i: usize = 0;
    assert(wv.take(0) =~= Seq::<Seq<char>>::empty());
    assert(d + long_words(wv.take(0)) =~= d);
    while i < ws.len()
        invariant
            i <= ws@.len(),
            wv == ws@.map_values(|x: Vec<char>| x@),
            v.deep_view() == d + long_words(wv.take(i as int)),
        decreases ws@.len() - i,
    {
        let ghost before = v.deep_view();
        push_long_word(v, &ws[i]);
        assert(wv.take(i + 1).drop_last() =~= wv.take(i as int));
        assert(wv.take(i + 1).last() == ws@[i as int]@);
        assert(v.deep_view() =~= d + long_words(wv.take(i + 1)));
        i += 1;
    }
    assert(wv.take(ws@.len() as int) =~= wv);
}

/// The words that the recursive search looks for (see `search_terms_of`).
pub fn search_terms(id: &str, name: &str, binary_relative_path: &Option<String>, run_cmd: &str) -> (r:
    Vec<String>)
    ensures
        r.deep_view() == search_terms_of(
            id@,
            name@,
            crate::text::opt_view(*binary_relative_path),
            run_cmd@,
        ),
{
    let mut r: Vec<String> = Vec::new();
    match binary_relative_path {
        Some(rel) => push_name_term(&mut r, rel.as_str()),
        None => {},
    }
    let ghost a = r.deep_view();
    if !run_cmd.is_empty() {
        let clean = trim_dot_slash(run_cmd);
        push_name_term(&mut r, clean.as_str());
    } else {
        assert(a + Seq::<Seq<char>>::empty() =~= a);
    }
    let ghost b = r.deep_view();
    crate::text::push_string(&mut r, to_lowercase(id));
    let ghost c = r.deep_view();
    let idv = chars_of(id);
    let parts = split_chars(idv.as_slice(), '_');
    push_long_words(&mut r, &parts);
    let ghost e = r.deep_view();
    let nv = chars_of(name);
    let ws = crate::text::split_whitespace_chars(nv.as_slice());
    let mut wvs: Vec<Vec<char>> = Vec::new();
    let mut i: usize = 0;
    while i < ws.len()
        invariant
            i <= ws@.len(),
            wvs@.map_values(|x: Vec<char>| x@) == ws.deep_view().take(i as int),
        decreases ws@.len() - i,
    {
        let ghost before = wvs@.map_values(|x: Vec<char>| x@);
        let w = chars_of(ws[i].as_str());
        wvs.push(w);
        assert(wvs@.map_values(|x: Vec<char>| x@) =~= before.push(ws@[i as int]@));
        assert(ws.deep_view().take(i + 1) =~= ws.deep_view().take(i as int).push(ws@[i as int]@));
        i += 1;
    }
    assert(ws.deep_view().take(ws@.len() as int) =~= ws.deep_view());
    push_long_words(&mut r, &wvs);
    assert(r.deep_view() =~= search_terms_of(
        id@,
        name@,
        crate::text::opt_view(*binary_relative_path),
        run_cmd@,
    ));
    r
}

// ---------------------------------------------------------------------------
// Scoring found files
// ---------------------------------------------------------------------------

/// How well a lower-cased file name matches one search word: exactly (or with
/// `.sh`) 100, at either end 80, anywhere 60, otherwise 0.
pub open spec fn term_score(f: Seq<char>, t: Seq<char>) -> int {
    if f == t || f == t + ".sh"@ {
        100
    } else if starts_with(f, t) || ends_with(f, t) {
        80
    } else if contains(f, t) {
        60
    } else {
        0
    }
}

/// The best match of a file name over all search words.
pub open spec fn best_term_score(f: Seq<char>, terms: Seq<Seq<char>>) -> int
    decreases terms.len(),
{
    if terms.len() == 0 {
        0
    } else {
        let a = best_term_score(f, terms.drop_last());
        let b = term_score(f, terms.last());
        if a >= b {
            a
        } else {
            b
        }
    }
}

/// The score of an executable file at `path` named `f` (lower-cased): its best
/// word match, 20 more under `extracted`, 15 less (when positive) under `bin` or `x64`.
pub open spec fn path_score(f: Seq<char>, path: Seq<char>, terms: Seq<Seq<char>>) -> int {
    let base = best_term_score(f, terms);
    let raised = if contains(path, "/extracted/"@) || contains(path, "/extracted"@) {
        base + 20
    } else {
        base
    };
    if (contains(path, "/bin/"@) || contains(path, "/x64/"@)) && raised > 0 {
        raised - 15
    } else {
        raised
    }
}

/// The score of a file found by the search, or `None` when it is no candidate:
/// an archive or installer, not a `.sh` script nor (by its header) an executable,
/// or scoring nothing.
pub open spec fn scan_score(file_name: Seq<char>, path: Seq<char>, terms: Seq<Seq<char>>, exec_header: bool)
    -> Option<int> {
    let f = lowercase(file_name);
    if is_archive_name(lowercase(f)) {
        None
    } else if !(ends_with(f, ".sh"@) || exec_header) {
        None
    } else if path_score(f, path, terms) > 0 {
        Some(path_score(f, path, terms))
    } else {
        None
    }
}

fn term_score_exec(f: &Vec<char>, t: &str) -> (r: i32)
    ensures
        r == term_score(f@, t@),
{
    proof {
        reveal_strlit(".sh");
    }
    let tv = chars_of(t);
    let mut tsh = crate::text::string_from(t);
    push_str(&mut tsh, ".sh");
    if crate::text::eq_str(f.as_slice(), t) || crate::text::eq_str(f.as_slice(), tsh.as_str()) {
        100
    } else if crate::text::starts_with_chars(f.as_slice(), tv.as_slice())
        || crate::text::ends_with_str(f.as_slice(), t) {
        80
    } else if crate::text::contains_chars(f.as_slice(), tv.as_slice()) {
        60
    } else {
        0
    }
}

/// The score of a file that the recursive search came across (see `scan_score`);
/// `exec_header` tells whether the file starts like an ELF binary or a script.
pub fn candidate_score(file_name: &str, path: &str, terms: &Vec<String>, exec_header: bool) -> (r:
    Option<i32>)
    ensures
        match r {
            Some(k) => scan_score(file_name@, path@, terms.deep_view(), exec_header) == Some(k as int),
            None => scan_score(file_name@, path@, terms.deep_view(), exec_header) is None,
        },
{
    let f = to_lowercase(file_name);
    if crate::engine::is_archive_or_installer(f.as_str()) {
        return None;
    }
    let fv = chars_of(f.as_str());
    if !(ends_with_str(fv.as_slice(), ".sh") || exec_header) {
        return None;
    }
    let ghost tv = terms.deep_view();
    let mut best: i32 = 0;
    let mut i: usize = 0;
    assert(tv.take(0) =~= Seq::<Seq<char>>::empty());
    while i < terms.len()
        invariant
            i <= terms@.len(),
            tv == terms.deep_view(),
            fv@ == lowercase(file_name@),
            best == best_term_score(fv@, tv.take(i as int)),
            0 <= best <= 100,
        decreases terms@.len() - i,
    {
        let sc = term_score_exec(&fv, terms[i].as_str());
        assert(tv.take(i + 1).drop_last() =~= tv.take(i as int));
        assert(tv.take(i + 1).last() == terms@[i as int]@);
        if sc > best {
            best = sc;
        }
        i += 1;
    }
    assert(tv.take(terms@.len() as int) =~= tv);
    let pv = chars_of(path);
    let p = pv.as_slice();
    let mut score = best;
    if contains_str(p, "/extracted/") || contains_str(p, "/extracted") {
        score = score + 20;
    }
    if (contains_str(p, "/bin/") || contains_str(p, "/x64/")) && score > 0 {
        score = score - 15;
    }
    if score > 0 {
        Some(score)
    } else {
        None
    }
}

/// Whether candidate `i` wins: the highest score, then the smallest depth, then
/// the earliest found (a stable sort by score, then depth).
pub open spec fn is_best_candidate(c: Seq<(i32, usize)>, i: int) -> bool {
    &&& 0 <= i < c.len()
    &&& forall|j: int|
        0 <= j < c.len() ==> (c[j].0 < c[i].0 || (c[j].0 == c[i].0 && (c[j].1 > c[i].1 || (c[j].1
            == c[i].1 && j >= i))))
}

/// The winning candidate among `(score, depth)` pairs in the order found.
pub fn best_candidate(candidates: &Vec<(i32, usize)>) -> (r: Option<usize>)
    ensures
        match r {
            Some(i) => is_best_candidate(candidates@, i as int),
            None => candidates@.len() == 0,
        },
{
    if candidates.len() == 0 {
        return None;
    }
    let mut best: usize = 0;
    let mut i: usize = 1;
    while i < candidates.len()
        invariant
            1 <= i <= candidates@.len(),
            best < i,
            forall|j: int|
                0 <= j < i ==> (candidates@[j].0 < candidates@[best as int].0 || (candidates@[j].0
                    == candidates@[best as int].0 && (candidates@[j].1 > candidates@[best as int].1
                    || (candidates@[j].1 == candidates@[best as int].1 && j >= best)))),
        decreases candidates@.len() - i,
    {
        let (s, d) = candidates[i];
        let (bs, bd) = candidates[best];
        if s > bs || (s == bs && d < bd) {
            best = i;
        }
        i += 1;
    }
    Some(best)
}

// ---------------------------------------------------------------------------
// The result and the diagnostics
// ---------------------------------------------------------------------------

/// The directory holding `p` (`Path::parent` of a normalised path): its components
/// but the last, or `None` when it has none.
pub open spec fn parent_of(p: Seq<char>) -> Option<Seq<char>> {
    let c = crate::utils::path_components(p);
    if c.len() == 0 {
        None
    } else {
        Some(
            (if crate::utils::is_rooted(p) {
                "/"@
            } else {
                Seq::<char>::empty()
            }) + crate::text::join(c.drop_last(), "/"@),
        )
    }
}

/// How to launch the file at `full_path` (a path as resolved on disk): from its
/// directory (or `runner_dir` when it has none), as `./` and its file name (or
/// `fallback_name` when it has none).
pub fn executable_for(runner_dir: &str, full_path: &str, fallback_name: &str) -> (r: ResolvedExecutable)
    ensures
        r.work_dir@ == match parent_of(full_path@) {
            Some(d) => d,
            None => runner_dir@,
        },
        r.executable@ == "./"@ + match file_name_of(full_path@) {
            Some(n) => n,
            None => fallback_name@,
        },
        r.full_path@ == full_path@,
{
    let mut comps = crate::utils::components_of(full_path);
    let work_dir = if comps.len() == 0 {
        string_from(runner_dir)
    } else {
        let ghost cv = comps.deep_view();
        let _ = comps.pop();
        assert(comps.deep_view() =~= cv.drop_last());
        let joined = crate::text::join_strings(&comps, "/");
        let pv = chars_of(full_path);
        if pv.len() > 0 && pv[0] == '/' {
            let mut d = string_from("/");
            push_str(&mut d, joined.as_str());
            d
        } else {
            joined
        }
    };
    let mut executable = string_from("./");
    match file_name(full_path) {
        Some(n) => push_str(&mut executable, n.as_str()),
        None => push_str(&mut executable, fallback_name),
    }
    ResolvedExecutable { work_dir, executable, full_path: string_from(full_path) }
}

/// The listing shown when nothing was found: one indented line per entry, or a
/// note that the directory is empty.
pub open spec fn listing_text(contents: Seq<Seq<char>>) -> Seq<char> {
    if contents.len() == 0 {
        "  (Dizin tamamen boş)"@
    } else {
        crate::text::join(contents.map_values(|s: Seq<char>| "  - "@ + s), "\n"@)
    }
}

/// The error text when no executable was found.
pub open spec fn not_found_text(name: Seq<char>, id: Seq<char>, runner_dir: Seq<char>, contents: Seq<Seq<char>>) -> Seq<char> {
    "Çalıştırılabilir dosya bulunamadı!\nAranan profil: "@ + name + " (id: "@ + id + ")\nÇalıştırma dizini: "@
        + runner_dir + "\nMevcut Dizin İçeriği:\n"@ + listing_text(contents)
}

/// The error text when no executable was found for the profile `name` (`id`) in
/// `runner_dir`, listing what the directory holds.
pub fn not_found_message(name: &str, id: &str, runner_dir: &str, contents: &Vec<String>) -> (r: String)
    ensures
        r@ == not_found_text(name@, id@, runner_dir@, contents.deep_view()),
{
    let mut r = string_from("Çalıştırılabilir dosya bulunamadı!\nAranan profil: ");
    push_str(&mut r, name);
    push_str(&mut r, " (id: ");
    push_str(&mut r, id);
    push_str(&mut r, ")\nÇalıştırma dizini: ");
    push_str(&mut r, runner_dir);
    push_str(&mut r, "\nMevcut Dizin İçeriği:\n");
    if contents.len() == 0 {
        push_str(&mut r, "  (Dizin tamamen boş)");
    } else {
        let mut lines: Vec<String> = Vec::new();
        let mut i: usize = 0;
        while i < contents.len()
            invariant
                i <= contents@.len(),
                lines.deep_view() == contents.deep_view().take(i as int).map_values(
                    |s: Seq<char>| "  - "@ + s,
                ),
            decreases contents@.len() - i,
        {
            let mut line = string_from("  - ");
            push_str(&mut line, contents[i].as_str());
            let ghost before = lines.deep_view();
            crate::text::push_string(&mut lines, line);
            assert(contents.deep_view().take(i + 1) =~= contents.deep_view().take(i as int).push(
                contents@[i as int]@,
            ));
            assert(lines.deep_view() =~= contents.deep_view().take(i + 1).map_values(
                |s: Seq<char>| "  - "@ + s,
            ));
            i += 1;
        }
        assert(contents.deep_view().take(contents@.len() as int) =~= contents.deep_view());
        let text = crate::text::join_strings(&lines, "\n");
        push_str(&mut r, text.as_str());
    }
    r
}

/// One line of the directory listing: a directory as `rel/ (dizin)`, a file as
/// `rel (N bayt)`.
pub fn listing_entry(rel: &str, size: Option<u64>) -> (r: String)
    ensures
        r@ == match size {
            None => rel@ + "/ (dizin)"@,
            Some(n) => rel@ + " ("@ + crate::text::dec(n as nat) + " bayt)"@,
        },
{
    let mut r = string_from(rel);
    match size {
        None => push_str(&mut r, "/ (dizin)"),
        Some(n) => {
            push_str(&mut r, " (");
            let d = crate::text::dec_string(n);
            push_str(&mut r, d.as_str());
            push_str(&mut r, " bayt)");
        },
    }
    r
}

/// Whether the first bytes of a file mark an ELF binary (`\x7fELF`) or a script
/// (`#!`); fewer than four bytes mark neither.
pub fn is_elf_or_script_header(header: &[u8]) -> (r: bool)
    ensures
        r == (header@.len() >= 4 && ((header@[0] == 0x7f && header@[1] == 0x45 && header@[2] == 0x4c
            && header@[3] == 0x46) || (header@[0] == 0x23 && header@[1] == 0x21))),
{
    header.len() >= 4 && ((header[0] == 0x7f && header[1] == 0x45 && header[2] == 0x4c && header[3]
        == 0x46) || (header[0] == 0x23 && header[1] == 0x21))
}

/// Whether a 4-byte file header is that of an ELF binary.
pub open spec fn is_elf_header(header: Seq<u8>) -> bool {
    header.len() >= 4 && header[0] == 0x7f && header[1] == 0x45 && header[2] == 0x4c && header[3]
        == 0x46
}

/// Whether an installed file is made executable: a script or self-extracting
/// package by its name, one of the known launchers, an ELF binary, or any file
/// under a `bin` or `extracted` directory.
pub open spec fn gets_exec_permission(path: Seq<char>, header: Seq<u8>) -> bool {
    let name = match file_name_of(path) {
        Some(n) => n,
        None => Seq::empty(),
    };
    ||| ends_with(name, ".sh"@)
    ||| ends_with(name, ".run"@)
    ||| name == "heaven"@
    ||| name == "Superposition"@
    ||| name == "main"@
    ||| is_elf_header(header)
    ||| contains(path, "/bin"@)
    ||| contains(path, "/extracted"@)
}

/// Whether the installed file at `path`, whose first bytes are `header` (fewer
/// when it is shorter or unreadable), is made executable.
pub fn needs_exec_permission(path: &str, header: &[u8]) -> (r: bool)
    ensures
        r == gets_exec_permission(path@, header@),
{
    let name = match file_name(path) {
        Some(n) => n,
        None => String::new(),
    };
    let nv = chars_of(name.as_str());
    let n = nv.as_slice();
    let pv = chars_of(path);
    let by_name = ends_with_str(n, ".sh") || ends_with_str(n, ".run") || eq_str(n, "heaven")
        || eq_str(n, "Superposition") || eq_str(n, "main");
    let elf = header.len() >= 4 && header[0] == 0x7f && header[1] == 0x45 && header[2] == 0x4c
        && header[3] == 0x46;
    let in_dir = contains_str(pv.as_slice(), "/bin") || contains_str(pv.as_slice(), "/extracted");
    by_name || elf || in_dir
}

} // verus!
