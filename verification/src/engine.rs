//! The benchmark engine's directory layout, its download-command safety rules and
//! the recognition of installer archives.

use vstd::prelude::*;
use crate::i18n::{t, I18n};
use crate::models::{BenchmarkProfile, BenchmarkProfileView};
use crate::text::{
    chars_of, contains, contains_char, contains_str, ends_with, ends_with_str, index_of,
    index_of_str, is_ws, is_ws_char, lowercase, push_char, push_chars, push_str, str_is,
    string_from, string_of, to_lowercase, trim, trim_str,
};
use crate::utils::{
    check_path_within, containment, identifier_error, is_rooted, norm_segments, norm_step,
    normalized_path, path_components, sanitize_identifier, split_chars, split_on,
    lemma_split_nonempty, InputError, PathError,
};

verus! {

// ---------------------------------------------------------------------------
// Paths
// ---------------------------------------------------------------------------

/// `Path::join` on text: a relative `rel` is appended after a separator, an absolute
/// one replaces `base`.
pub open spec fn path_join(base: Seq<char>, rel: Seq<char>) -> Seq<char> {
    if is_rooted(rel) || base.len() == 0 {
        rel
    } else if base.last() == '/' {
        base + rel
    } else {
        base + "/"@ + rel
    }
}

/// Joins `rel` onto `base` as `Path::join` does.
pub fn join_path(base: &str, rel: &str) -> (r: String)
    ensures
        r@ == path_join(base@, rel@),
{
    let bv = chars_of(base);
    let rv = chars_of(rel);
    if (rv.len() > 0 && rv[0] == '/') || bv.len() == 0 {
        string_from(rel)
    } else if bv[bv.len() - 1] == '/' {
        let mut r = string_from(base);
        push_str(&mut r, rel);
        r
    } else {
        let mut r = string_from(base);
        push_str(&mut r, "/");
        push_str(&mut r, rel);
        r
    }
}

/// Why the engine refuses to compute a directory.
#[derive(Debug, Clone, Copy, PartialEq, Eq, Structural)]
pub enum EngineError {
    InvalidIdentifier(InputError),
    UnsafePath(PathError),
}

/// The runner directory of a base directory.
pub open spec fn runners_dir_of(base: Seq<char>) -> Seq<char> {
    path_join(base, "runners"@)
}

/// The outcome of checking that `target` lies strictly inside `dir`.
pub open spec fn within_result(dir: Seq<char>, target: Seq<char>) -> Result<Seq<char>, EngineError> {
    match containment(dir, target) {
        None => Ok(normalized_path(target)),
        Some(e) => Err(EngineError::UnsafePath(e)),
    }
}

/// The directory that `get_runner_dir` gives for `id`.
pub open spec fn runner_dir_result(base: Seq<char>, id: Seq<char>) -> Result<Seq<char>, EngineError> {
    match identifier_error(id) {
        Some(e) => Err(EngineError::InvalidIdentifier(e)),
        None => within_result(runners_dir_of(base), path_join(runners_dir_of(base), id)),
    }
}

/// The directory that `get_version_runner_dir` gives for `id` and `version`.
pub open spec fn version_runner_dir_result(base: Seq<char>, id: Seq<char>, version: Seq<char>)
    -> Result<Seq<char>, EngineError> {
    let runners = runners_dir_of(base);
    match identifier_error(id) {
        Some(e) => Err(EngineError::InvalidIdentifier(e)),
        None => if version.len() == 0 {
            within_result(runners, path_join(runners, id))
        } else {
            match identifier_error(version) {
                Some(e) => Err(EngineError::InvalidIdentifier(e)),
                None => within_result(runners, path_join(path_join(runners, id), version)),
            }
        },
    }
}

/// The view of an engine result whose success value is a string.
pub open spec fn path_result_view(r: Result<String, EngineError>) -> Result<Seq<char>, EngineError> {
    match r {
        Ok(s) => Ok(s@),
        Err(e) => Err(e),
    }
}

fn within(dir: &str, target: &str) -> (r: Result<String, EngineError>)
    ensures
        path_result_view(r) == within_result(dir@, target@),
{
    match check_path_within(dir, target) {
        Ok(p) => Ok(p),
        Err(e) => Err(EngineError::UnsafePath(e)),
    }
}

/// Name of the file written into a runner directory once its install completed.
pub const INSTALLED_MARKER: &'static str = ".successfully-installed";

/// The part of a version before its first dot.
pub open spec fn major_of(v: Seq<char>) -> Seq<char> {
    match index_of(v, "."@) {
        Some(k) => v.take(k as int),
        None => v,
    }
}

/// The major-version runner directory of `id` and `version` (see
/// `suffixed_runner_dir`).
pub open spec fn suffixed_dir_of(base: Seq<char>, id: Seq<char>, version: Seq<char>) -> Option<
    Seq<char>,
> {
    if version.len() > 0 && identifier_error(major_of(version)) is None && identifier_error(id) is None {
        Some(path_join(runners_dir_of(base), id + major_of(version)))
    } else {
        None
    }
}

/// Installs and runs benchmarks below a base directory.
#[derive(Clone)]
pub struct BenchmarkEngine {
    base_dir: String,
}

impl BenchmarkEngine {
    /// The base directory.
    pub closed spec fn base(&self) -> Seq<char> {
        self.base_dir@
    }

    /// An engine rooted at `base_dir`.
    pub fn new(base_dir: String) -> (r: Self)
        ensures
            r.base() == base_dir@,
    {
        BenchmarkEngine { base_dir }
    }

    /// Directory holding every installed benchmark.
    pub fn get_runners_dir(&self) -> (r: String)
        ensures
            r@ == runners_dir_of(self.base()),
    {
        join_path(self.base_dir.as_str(), "runners")
    }

    /// Directory of benchmark `id`, strictly inside the runners directory. The
    /// containment is checked on the text of the paths (after normalising `.` and
    /// `..`); symbolic links are not followed here, so a caller that touches the
    /// disk resolves the existing part of the path and checks it again.
    pub fn get_runner_dir(&self, id: &str) -> (r: Result<String, EngineError>)
        ensures
            path_result_view(r) == runner_dir_result(self.base(), id@),
    {
        let safe_id = match sanitize_identifier(id) {
            Ok(s) => s,
            Err(e) => { return Err(EngineError::InvalidIdentifier(e)); },
        };
        let runners = self.get_runners_dir();
        let runner_dir = join_path(runners.as_str(), safe_id.as_str());
        within(runners.as_str(), runner_dir.as_str())
    }

    /// Directory of version `version` of benchmark `id` (the benchmark's own directory
    /// when no version is given), strictly inside the runners directory; checked on
    /// the text of the paths only, as `get_runner_dir` is.
    pub fn get_version_runner_dir(&self, id: &str, version: &str) -> (r: Result<String, EngineError>)
        ensures
            path_result_view(r) == version_runner_dir_result(self.base(), id@, version@),
    {
        let safe_id = match sanitize_identifier(id) {
            Ok(s) => s,
            Err(e) => { return Err(EngineError::InvalidIdentifier(e)); },
        };
        let runners = self.get_runners_dir();
        let target = if version.is_empty() {
            join_path(runners.as_str(), safe_id.as_str())
        } else {
            let safe_version = match sanitize_identifier(version) {
                Ok(s) => s,
                Err(e) => { return Err(EngineError::InvalidIdentifier(e)); },
            };
            let id_dir = join_path(runners.as_str(), safe_id.as_str());
            join_path(id_dir.as_str(), safe_version.as_str())
        };
        within(runners.as_str(), target.as_str())
    }

    /// Directory holding the run logs.
    pub fn get_logs_dir(&self) -> (r: String)
        ensures
            r@ == path_join(self.base(), "logs"@),
    {
        join_path(self.base_dir.as_str(), "logs")
    }

    /// The file whose presence marks benchmark `id` as installed.
    pub fn installed_marker(&self, id: &str) -> (r: Result<String, EngineError>)
        ensures
            path_result_view(r) == match runner_dir_result(self.base(), id@) {
                Ok(d) => Ok(path_join(d, INSTALLED_MARKER@)),
                Err(e) => Err(e),
            },
    {
        match self.get_runner_dir(id) {
            Ok(d) => Ok(join_path(d.as_str(), INSTALLED_MARKER)),
            Err(e) => Err(e),
        }
    }

    /// The directory that an install of `version` may have been given under the
    /// major-version naming (`<id><major>` in the runners directory), when `version`
    /// is given and both names are valid identifiers.
    pub fn suffixed_runner_dir(&self, id: &str, version: &str) -> (r: Option<String>)
        ensures
            crate::text::opt_view(r) == suffixed_dir_of(self.base(), id@, version@),
    {
        if version.is_empty() {
            return None;
        }
        let vv = chars_of(version);
        let major = match index_of_str(vv.as_slice(), ".") {
            Some(k) => {
                let mut m = String::new();
                let mut j: usize = 0;
                while j < k
                    invariant
                        k <= vv@.len(),
                        j <= k,
                        m@ == vv@.take(j as int),
                    decreases k - j,
                {
                    push_char(&mut m, vv[j]);
                    assert(vv@.take(j + 1) =~= vv@.take(j as int).push(vv@[j as int]));
                    j += 1;
                }
                m
            },
            None => string_from(version),
        };
        proof {
            reveal_strlit(".");
        }
        let safe_major = match sanitize_identifier(major.as_str()) {
            Ok(s) => s,
            Err(_) => { return None; },
        };
        let safe_id = match sanitize_identifier(id) {
            Ok(s) => s,
            Err(_) => { return None; },
        };
        let mut name = safe_id;
        push_str(&mut name, safe_major.as_str());
        let runners = self.get_runners_dir();
        Some(join_path(runners.as_str(), name.as_str()))
    }

    /// Validates a download command string for basic security and shell injection prevention.
    pub fn validate_download_command(cmd: &str) -> (r: Result<(), DownloadCommandError>)
        ensures
            verdict_of(r) == download_command_check(cmd@),
    {
        validate_download_command(cmd)
    }
}

/// Where an executable was found and how to launch it.
#[derive(Debug, Clone, PartialEq)]
pub struct ResolvedExecutable {
    pub work_dir: String,
    pub executable: String,
    pub full_path: String,
}

// ---------------------------------------------------------------------------
// Download command safety
// ---------------------------------------------------------------------------

/// Why a download command is refused.
#[derive(Debug, Clone, Copy, PartialEq, Eq)]
pub enum DownloadCommandError {
    Empty,
    NullByte,
    PrivilegeEscalation(&'static str),
    DangerousPattern(&'static str),
    ForbiddenPath(&'static str),
}

/// Characters that end a command word.
pub open spec fn is_cmd_sep(c: char) -> bool {
    c == ';' || c == '&' || c == '|' || c == '\n' || c == '(' || c == ')' || is_ws(c)
}

/// The pieces of `s` between separators, empty pieces included (`str::split`).
pub open spec fn cmd_pieces(s: Seq<char>) -> Seq<Seq<char>>
    decreases s.len(),
{
    if s.len() == 0 {
        seq![Seq::empty()]
    } else {
        let p = cmd_pieces(s.drop_last());
        if is_cmd_sep(s.last()) {
            p.push(Seq::empty())
        } else {
            p.update(p.len() - 1, p.last().push(s.last()))
        }
    }
}

/// Commands that raise privileges.
pub open spec fn is_escalation(w: Seq<char>) -> bool {
    w == "sudo"@ || w == "pkexec"@ || w == "doas"@ || w == "su"@
}

/// The first piece that raises privileges, if any.
pub open spec fn first_escalation(ps: Seq<Seq<char>>) -> Option<Seq<char>>
    decreases ps.len(),
{
    if ps.len() == 0 {
        None
    } else {
        match first_escalation(ps.drop_last()) {
            Some(w) => Some(w),
            None => if is_escalation(ps.last()) {
                Some(ps.last())
            } else {
                None
            },
        }
    }
}

/// Destructive commands and reverse-shell constructs, in the order they are checked.
pub open spec fn dangerous_patterns() -> Seq<Seq<char>> {
    seq![
        "rm -rf /"@,
        "rm -rf /*"@,
        "rm -r /"@,
        "rm -r /*"@,
        "mkfs"@,
        "dd if=/dev/zero"@,
        "dd if=/dev/urandom"@,
        ":(){ :|:& };:"@,
        "/dev/tcp/"@,
        "/dev/udp/"@,
        "| sh"@,
        "| bash"@,
        "| zsh"@,
    ]
}

/// Sensitive system paths, in the order they are checked.
pub open spec fn forbidden_targets() -> Seq<Seq<char>> {
    seq!["> /etc"@, "> /boot"@, "> /dev/sd"@, "> /dev/nvme"@, "/etc/shadow"@, "/etc/passwd"@, "/root/"@]
}

/// The first of `pats` that occurs in `s`, if any.
pub open spec fn first_contained(s: Seq<char>, pats: Seq<Seq<char>>) -> Option<Seq<char>>
    decreases pats.len(),
{
    if pats.len() == 0 {
        None
    } else if contains(s, pats[0]) {
        Some(pats[0])
    } else {
        first_contained(s, pats.drop_first())
    }
}

/// The outcome of checking a download command, with the offending text.
pub enum DownloadVerdict {
    Accepted,
    Empty,
    NullByte,
    PrivilegeEscalation(Seq<char>),
    DangerousPattern(Seq<char>),
    ForbiddenPath(Seq<char>),
}

/// The verdict that a result of `validate_download_command` reports.
pub open spec fn verdict_of(r: Result<(), DownloadCommandError>) -> DownloadVerdict {
    match r {
        Ok(()) => DownloadVerdict::Accepted,
        Err(DownloadCommandError::Empty) => DownloadVerdict::Empty,
        Err(DownloadCommandError::NullByte) => DownloadVerdict::NullByte,
        Err(DownloadCommandError::PrivilegeEscalation(w)) => DownloadVerdict::PrivilegeEscalation(w@),
        Err(DownloadCommandError::DangerousPattern(p)) => DownloadVerdict::DangerousPattern(p@),
        Err(DownloadCommandError::ForbiddenPath(p)) => DownloadVerdict::ForbiddenPath(p@),
    }
}

/// The verdict on a download command: every word of the lower-cased, trimmed command is
/// checked against privilege escalation, then the command against destructive patterns,
/// then against sensitive system paths; the first hit is reported.
pub open spec fn download_command_check(cmd: Seq<char>) -> DownloadVerdict {
    let t = trim(cmd);
    let lower = lowercase(t);
    if t.len() == 0 {
        DownloadVerdict::Empty
    } else if t.contains('\0') {
        DownloadVerdict::NullByte
    } else if first_escalation(cmd_pieces(lower)) is Some {
        DownloadVerdict::PrivilegeEscalation(first_escalation(cmd_pieces(lower))->0)
    } else if first_contained(lower, dangerous_patterns()) is Some {
        DownloadVerdict::DangerousPattern(first_contained(lower, dangerous_patterns())->0)
    } else if first_contained(lower, forbidden_targets()) is Some {
        DownloadVerdict::ForbiddenPath(first_contained(lower, forbidden_targets())->0)
    } else {
        DownloadVerdict::Accepted
    }
}

fn is_cmd_sep_char(c: char) -> (r: bool)
    ensures
        r == is_cmd_sep(c),
{
    c == ';' || c == '&' || c == '|' || c == '\n' || c == '(' || c == ')' || is_ws_char(c)
}

fn escalation_word(w: &Vec<char>) -> (r: Option<&'static str>)
    ensures
        r is Some <==> is_escalation(w@),
        r matches Some(x) ==> x@ == w@,
{
    let s = w.as_slice();
    if crate::text::eq_str(s, "sudo") {
        Some("sudo")
    } else if crate::text::eq_str(s, "pkexec") {
        Some("pkexec")
    } else if crate::text::eq_str(s, "doas") {
        Some("doas")
    } else if crate::text::eq_str(s, "su") {
        Some("su")
    } else {
        None
    }
}

fn find_escalation(lower: &[char]) -> (r: Option<&'static str>)
    ensures
        r is Some <==> first_escalation(cmd_pieces(lower@)) is Some,
        r matches Some(x) ==> first_escalation(cmd_pieces(lower@)) == Some(x@),
{
    let mut cur: Vec<char> = Vec::new();
    let mut i: usize = 0;
    let ghost mut done: Seq<Seq<char>> = Seq::empty();
    assert(lower@.take(0) =~= Seq::<char>::empty());
    while i < lower.len()
        invariant
            i <= lower@.len(),
            cmd_pieces(lower@.take(i as int)) == done.push(cur@),
            first_escalation(done) is None,
        decreases lower@.len() - i,
    {
        let c = lower[i];
        assert(lower@.take(i + 1).drop_last() =~= lower@.take(i as int));
        assert(lower@.take(i + 1).last() == c);
        if is_cmd_sep_char(c) {
            match escalation_word(&cur) {
                Some(w) => {
                    proof {
                        let whole = cmd_pieces(lower@);
                        lemma_pieces_prefix(lower@, (i + 1) as int);
                        assert(cmd_pieces(lower@.take(i + 1)) == done.push(cur@).push(
                            Seq::<char>::empty(),
                        ));
                        assert(done.push(cur@).drop_last() =~= done);
                        assert(first_escalation(done.push(cur@)) == Some(cur@));
                        lemma_first_escalation_extend(done.push(cur@), whole);
                    }
                    return Some(w);
                },
                None => {},
            }
            proof {
                assert(done.push(cur@).drop_last() =~= done);
                assert(first_escalation(done.push(cur@)) is None);
                done = done.push(cur@);
            }
            cur = Vec::new();
        } else {
            let ghost old_cur = cur@;
            cur.push(c);
            assert(cur@ =~= old_cur.push(c));
            assert(done.push(old_cur).update(done.len() as int, old_cur.push(c)) =~= done.push(
                cur@,
            ));
        }
        i += 1;
    }
    assert(lower@.take(lower@.len() as int) =~= lower@);
    assert(done.push(cur@).drop_last() =~= done);
    escalation_word(&cur)
}

/// The pieces of a prefix of `s` are a prefix of the pieces of `s`, except that the
/// last piece of the prefix may continue.
proof fn lemma_pieces_prefix(s: Seq<char>, k: int)
    requires
        0 <= k <= s.len(),
        k > 0 ==> is_cmd_sep(s[k - 1]),
    ensures
        cmd_pieces(s).len() >= cmd_pieces(s.take(k)).len(),
        forall|j: int|
            0 <= j < cmd_pieces(s.take(k)).len() - 1 ==> cmd_pieces(s)[j] == cmd_pieces(
                s.take(k),
            )[j],
    decreases s.len() - k,
{
    if k < s.len() {
        lemma_pieces_prefix_step(s, k);
    } else {
        assert(s.take(k) =~= s);
    }
}

proof fn lemma_pieces_prefix_step(s: Seq<char>, k: int)
    requires
        0 <= k <= s.len(),
    ensures
        cmd_pieces(s).len() >= cmd_pieces(s.take(k)).len(),
        forall|j: int|
            0 <= j < cmd_pieces(s.take(k)).len() - 1 ==> cmd_pieces(s)[j] == cmd_pieces(
                s.take(k),
            )[j],
    decreases s.len() - k,
{
    if k == s.len() {
        assert(s.take(k) =~= s);
    } else {
        lemma_pieces_prefix_step(s, k + 1);
        let a = s.take(k);
        let b = s.take(k + 1);
        assert(b.drop_last() =~= a);
    }
}

proof fn lemma_first_escalation_extend(pre: Seq<Seq<char>>, all: Seq<Seq<char>>)
    requires
        first_escalation(pre) is Some,
        pre.len() <= all.len(),
        forall|j: int| 0 <= j < pre.len() ==> all[j] == pre[j],
    ensures
        first_escalation(all) == first_escalation(pre),
    decreases all.len(),
{
    if all.len() > pre.len() {
        lemma_first_escalation_extend(pre, all.drop_last());
    } else {
        assert(all =~= pre);
    }
}

fn first_contained_exec(s: &[char], pats: &Vec<&'static str>) -> (r: Option<&'static str>)
    ensures
        first_contained(s@, pats@.map_values(|p: &'static str| p@)) == match r {
            Some(x) => Some(x@),
            None => None::<Seq<char>>,
        },
{
    let ghost pv = pats@.map_values(|p: &'static str| p@);
    let mut i: usize = 0;
    assert(pv.skip(0) =~= pv);
    while i < pats.len()
        invariant
            pv == pats@.map_values(|p: &'static str| p@),
            i <= pats@.len(),
            first_contained(s@, pv) == first_contained(s@, pv.skip(i as int)),
        decreases pats@.len() - i,
    {
        assert(pv.skip(i as int)[0] == pats@[i as int]@);
        assert(pv.skip(i as int).drop_first() =~= pv.skip(i + 1));
        if contains_str(s, pats[i]) {
            return Some(pats[i]);
        }
        i += 1;
    }
    assert(pv.skip(i as int).len() == 0);
    None
}

/// Validates a download command string for basic security and shell injection prevention.
pub fn validate_download_command(cmd: &str) -> (r: Result<(), DownloadCommandError>)
    ensures
        verdict_of(r) == download_command_check(cmd@),
{
    let t = trim_str(cmd);
    if t.len() == 0 {
        return Err(DownloadCommandError::Empty);
    }
    if crate::text::contains_char(t.as_slice(), '\0') {
        return Err(DownloadCommandError::NullByte);
    }
    let ts = crate::text::string_of(t.as_slice());
    let lower_s = to_lowercase(ts.as_str());
    let lower = chars_of(lower_s.as_str());
    match find_escalation(lower.as_slice()) {
        Some(w) => { return Err(DownloadCommandError::PrivilegeEscalation(w)); },
        None => {},
    }
    let dangerous: Vec<&'static str> = vec![
        "rm -rf /",
        "rm -rf /*",
        "rm -r /",
        "rm -r /*",
        "mkfs",
        "dd if=/dev/zero",
        "dd if=/dev/urandom",
        ":(){ :|:& };:",
        "/dev/tcp/",
        "/dev/udp/",
        "| sh",
        "| bash",
        "| zsh",
    ];
    assert(dangerous@.map_values(|p: &'static str| p@) =~= dangerous_patterns());
    match first_contained_exec(lower.as_slice(), &dangerous) {
        Some(p) => { return Err(DownloadCommandError::DangerousPattern(p)); },
        None => {},
    }
    let targets: Vec<&'static str> = vec![
        "> /etc",
        "> /boot",
        "> /dev/sd",
        "> /dev/nvme",
        "/etc/shadow",
        "/etc/passwd",
        "/root/",
    ];
    assert(targets@.map_values(|p: &'static str| p@) =~= forbidden_targets());
    match first_contained_exec(lower.as_slice(), &targets) {
        Some(p) => { return Err(DownloadCommandError::ForbiddenPath(p)); },
        None => {},
    }
    Ok(())
}

// ---------------------------------------------------------------------------
// Installer archives
// ---------------------------------------------------------------------------

/// Whether a lower-cased file name is an archive, an installer or a setup script.
pub open spec fn is_archive_name(lower: Seq<char>) -> bool {
    ||| ends_with(lower, ".run"@)
    ||| ends_with(lower, ".tar"@)
    ||| ends_with(lower, ".gz"@)
    ||| ends_with(lower, ".xz"@)
    ||| ends_with(lower, ".zip"@)
    ||| ends_with(lower, ".deb"@)
    ||| ends_with(lower, ".rpm"@)
    ||| ends_with(lower, ".iso"@)
    ||| ends_with(lower, ".7z"@)
    ||| ends_with(lower, ".bz2"@)
    ||| ends_with(lower, ".zst"@)
    ||| contains(lower, "installer"@)
    ||| contains(lower, "setup"@)
    ||| contains(lower, "makeself"@)
    ||| contains(lower, "extract"@)
}

/// Whether a file is an archive or an installer rather than a benchmark executable.
pub fn is_archive_or_installer(file_name: &str) -> (r: bool)
    ensures
        r == is_archive_name(lowercase(file_name@)),
{
    let lower_s = to_lowercase(file_name);
    let lv = chars_of(lower_s.as_str());
    let l = lv.as_slice();
    ends_with_str(l, ".run") || ends_with_str(l, ".tar") || ends_with_str(l, ".gz")
        || ends_with_str(l, ".xz") || ends_with_str(l, ".zip") || ends_with_str(l, ".deb")
        || ends_with_str(l, ".rpm") || ends_with_str(l, ".iso") || ends_with_str(l, ".7z")
        || ends_with_str(l, ".bz2") || ends_with_str(l, ".zst") || contains_str(l, "installer")
        || contains_str(l, "setup") || contains_str(l, "makeself") || contains_str(l, "extract")
}

// ---------------------------------------------------------------------------
// System certificates
// ---------------------------------------------------------------------------

/// Where a CA certificate bundle is looked for, in order.
pub open spec fn ca_bundle_candidates() -> Seq<Seq<char>> {
    seq![
        "/etc/ssl/ca-bundle.pem"@,
        "/etc/ssl/certs/ca-certificates.crt"@,
        "/var/lib/ca-certificates/ca-bundle.pem"@,
        "/etc/pki/tls/certs/ca-bundle.crt"@,
        "/etc/pki/tls/cert.pem"@,
    ]
}

/// Where a CA certificate directory is looked for, in order.
pub open spec fn ca_dir_candidates() -> Seq<Seq<char>> {
    seq!["/etc/ssl/certs"@, "/etc/pki/tls/certs"@]
}

/// The CA bundle locations, in the order they are tried.
pub fn ca_bundle_paths() -> (r: Vec<&'static str>)
    ensures
        r@.map_values(|p: &str| p@) == ca_bundle_candidates(),
{
    let r = vec![
        "/etc/ssl/ca-bundle.pem",
        "/etc/ssl/certs/ca-certificates.crt",
        "/var/lib/ca-certificates/ca-bundle.pem",
        "/etc/pki/tls/certs/ca-bundle.crt",
        "/etc/pki/tls/cert.pem",
    ];
    assert(r@.map_values(|p: &str| p@) =~= ca_bundle_candidates());
    r
}

/// The CA directory locations, in the order they are tried.
pub fn ca_dir_paths() -> (r: Vec<&'static str>)
    ensures
        r@.map_values(|p: &str| p@) == ca_dir_candidates(),
{
    let r = vec!["/etc/ssl/certs", "/etc/pki/tls/certs"];
    assert(r@.map_values(|p: &str| p@) =~= ca_dir_candidates());
    r
}

/// The first position whose candidate is present.
pub fn first_present(present: &[bool]) -> (r: Option<usize>)
    ensures
        match r {
            Some(i) => i < present@.len() && present@[i as int] && forall|j: int|
                0 <= j < i ==> !present@[j],
            None => forall|j: int| 0 <= j < present@.len() ==> !present@[j],
        },
{
    let mut i: usize = 0;
    while i < present.len()
        invariant
            i <= present@.len(),
            forall|j: int| 0 <= j < i ==> !present@[j],
        decreases present@.len() - i,
    {
        if present[i] {
            return Some(i);
        }
        i += 1;
    }
    None
}

// ---------------------------------------------------------------------------
// Runner directories of valid identifiers
// ---------------------------------------------------------------------------

/// Appending text without separators extends the last piece.
proof fn lemma_split_append_plain(a: Seq<char>, b: Seq<char>, sep: char)
    requires
        !b.contains(sep),
    ensures
        split_on(a + b, sep) == split_on(a, sep).update(
            split_on(a, sep).len() - 1,
            split_on(a, sep).last() + b,
        ),
    decreases b.len(),
{
    lemma_split_nonempty(a, sep);
    let sa = split_on(a, sep);
    if b.len() == 0 {
        assert(a + b =~= a);
        assert(sa.last() + b =~= sa.last());
        assert(sa.update(sa.len() - 1, sa.last()) =~= sa);
    } else {
        let b0 = b.drop_last();
        assert(!b0.contains(sep)) by {
            if b0.contains(sep) {
                let k = choose|k: int| 0 <= k < b0.len() && b0[k] == sep;
                assert(b[k] == sep);
            }
        }
        lemma_split_append_plain(a, b0, sep);
        assert((a + b).drop_last() =~= a + b0);
        assert((a + b).last() == b.last());
        assert(b.last() != sep) by {
            assert(b[b.len() - 1] == b.last());
        }
        let p = split_on(a + b0, sep);
        assert(p.last() == sa.last() + b0);
        assert((sa.last() + b0).push(b.last()) =~= sa.last() + b);
        assert(p.update(p.len() - 1, p.last().push(b.last())) =~= sa.update(
            sa.len() - 1,
            sa.last() + b,
        ));
    }
}

/// An identifier that passes `sanitize_identifier` is a plain name: not empty, no
/// separator, not `.` or `..`.
proof fn lemma_identifier_plain(id: Seq<char>)
    requires
        identifier_error(id) is None,
    ensures
        id.len() > 0,
        !id.contains('/'),
        id != "."@,
        id != ".."@,
{
}

/// A valid identifier always gets a runner directory: the runners directory with
/// the identifier as one more path component, strictly inside it.
pub proof fn lemma_valid_id_has_runner_dir(base: Seq<char>, id: Seq<char>)
    requires
        identifier_error(id) is None,
    ensures
        path_components(path_join(runners_dir_of(base), id)) == path_components(
            runners_dir_of(base),
        ).push(id),
        runner_dir_result(base, id) == Ok::<Seq<char>, EngineError>(
            normalized_path(path_join(runners_dir_of(base), id)),
        ),
{
    reveal_strlit("runners");
    reveal_strlit("/");
    lemma_identifier_plain(id);
    let runners = runners_dir_of(base);
    assert(runners.len() > 0) by {
        assert("runners"@.len() == 7);
    }
    assert(!is_rooted(id)) by {
        if is_rooted(id) {
            assert(id[0] == '/');
        }
    }
    assert(id != Seq::<char>::empty());
    let target = path_join(runners, id);
    let sr = split_on(runners, '/');
    lemma_split_nonempty(runners, '/');
    if runners.last() == '/' {
        assert(target == runners + id);
        lemma_split_append_plain(runners, id, '/');
        let d = runners.drop_last();
        assert(sr == split_on(d, '/').push(Seq::empty()));
        assert(sr.last() + id =~= id);
        assert(split_on(target, '/') =~= split_on(d, '/').push(id));
        assert(target[0] == runners[0]);
        let segs = split_on(d, '/');
        assert(split_on(target, '/').drop_last() =~= segs);
        assert(sr.drop_last() =~= segs);
        assert(norm_segments(split_on(target, '/'), is_rooted(runners)) == norm_step(
            norm_segments(segs, is_rooted(runners)),
            id,
            is_rooted(runners),
        ));
        assert(norm_segments(sr, is_rooted(runners)) == norm_step(
            norm_segments(segs, is_rooted(runners)),
            Seq::empty(),
            is_rooted(runners),
        ));
    } else {
        assert(target == runners + "/"@ + id);
        let r1 = runners + "/"@;
        assert(r1.drop_last() =~= runners);
        assert(r1.last() == '/');
        assert(split_on(r1, '/') == sr.push(Seq::empty()));
        lemma_split_append_plain(r1, id, '/');
        assert(split_on(r1, '/').last() + id =~= id);
        assert(split_on(target, '/') =~= sr.push(id));
        assert(target[0] == runners[0]);
        assert(split_on(target, '/').drop_last() =~= sr);
    }
    let b = path_components(runners);
    let t = path_components(target);
    assert(is_rooted(target) == is_rooted(runners));
    assert(t =~= b.push(id));
    assert(t.take(b.len() as int) =~= b);
    assert(containment(runners, target) is None);
}

// ---------------------------------------------------------------------------
// Installed versions and the directory a version runs from
// ---------------------------------------------------------------------------

/// What was found on disk about the install locations of a benchmark version.
pub struct InstallProbe {
    /// The version directory (`get_version_runner_dir`) holds the install marker.
    pub version_dir_marked: bool,
    /// The major-version directory (`suffixed_runner_dir`) lies inside the runners
    /// directory and holds the install marker.
    pub suffixed_dir_marked: bool,
    /// The benchmark's own directory (`get_runner_dir`) holds the install marker.
    pub base_dir_marked: bool,
    /// The first subdirectory of the benchmark's own directory, in listing order,
    /// that holds the install marker and lies inside the runners directory.
    pub marked_subdir: Option<String>,
}

/// The major-version directory checked to lie inside the runners directory.
pub open spec fn suffixed_within(base: Seq<char>, id: Seq<char>, version: Seq<char>) -> Option<
    Seq<char>,
> {
    match suffixed_dir_of(base, id, version) {
        Some(d) => match within_result(runners_dir_of(base), d) {
            Ok(safe) => Some(safe),
            Err(_) => None,
        },
        None => None,
    }
}

/// The directory a version runs from: the version directory when it is marked
/// installed; for a named version, else the marked major-version directory, else
/// the version directory; with no version, else the benchmark's own directory
/// when marked, else its first marked subdirectory, else its own directory.
pub open spec fn active_runner_dir_result(
    base: Seq<char>,
    id: Seq<char>,
    version: Seq<char>,
    p: InstallProbe,
) -> Result<Seq<char>, EngineError> {
    match version_runner_dir_result(base, id, version) {
        Err(e) => Err(e),
        Ok(ver) => if p.version_dir_marked {
            Ok(ver)
        } else if version.len() > 0 {
            match suffixed_within(base, id, version) {
                Some(safe) => if p.suffixed_dir_marked {
                    Ok(safe)
                } else {
                    Ok(ver)
                },
                None => Ok(ver),
            }
        } else if p.base_dir_marked {
            Ok(ver)
        } else {
            match p.marked_subdir {
                Some(d) => Ok(d@),
                None => Ok(ver),
            }
        },
    }
}

/// A version counts as installed when its directory is valid and a marker was
/// found where `active_runner_dir` looks for one.
pub open spec fn version_installed(base: Seq<char>, id: Seq<char>, version: Seq<char>, p: InstallProbe)
    -> bool {
    &&& version_runner_dir_result(base, id, version) is Ok
    &&& {
        ||| p.version_dir_marked
        ||| version.len() > 0 && suffixed_within(base, id, version) is Some && p.suffixed_dir_marked
        ||| version.len() == 0 && (p.base_dir_marked || p.marked_subdir is Some)
    }
}

impl BenchmarkEngine {
    /// The major-version directory of `id` and `version`, checked to lie inside
    /// the runners directory.
    pub fn safe_suffixed_runner_dir(&self, id: &str, version: &str) -> (r: Option<String>)
        ensures
            crate::text::opt_view(r) == suffixed_within(self.base(), id@, version@),
    {
        match self.suffixed_runner_dir(id, version) {
            Some(d) => {
                let runners = self.get_runners_dir();
                match within(runners.as_str(), d.as_str()) {
                    Ok(safe) => Some(safe),
                    Err(_) => None,
                }
            },
            None => None,
        }
    }

    /// The directory that version `version` of benchmark `id` runs from, given what
    /// was found on disk.
    pub fn get_active_runner_dir(&self, id: &str, version: &str, probe: &InstallProbe) -> (r: Result<
        String,
        EngineError,
    >)
        ensures
            path_result_view(r) == active_runner_dir_result(self.base(), id@, version@, *probe),
    {
        let ver_dir = match self.get_version_runner_dir(id, version) {
            Ok(d) => d,
            Err(e) => { return Err(e); },
        };
        if probe.version_dir_marked {
            return Ok(ver_dir);
        }
        if !version.is_empty() {
            if let Some(safe) = self.safe_suffixed_runner_dir(id, version) {
                if probe.suffixed_dir_marked {
                    return Ok(safe);
                }
            }
            return Ok(ver_dir);
        }
        if probe.base_dir_marked {
            return Ok(ver_dir);
        }
        match &probe.marked_subdir {
            Some(d) => Ok(d.clone()),
            None => Ok(ver_dir),
        }
    }

    /// Whether version `version` of benchmark `id` is installed, given what was
    /// found on disk.
    pub fn is_version_installed(&self, id: &str, version: &str, probe: &InstallProbe) -> (r: bool)
        ensures
            r == version_installed(self.base(), id@, version@, *probe),
    {
        if self.get_version_runner_dir(id, version).is_err() {
            return false;
        }
        if probe.version_dir_marked {
            return true;
        }
        if !version.is_empty() {
            return self.safe_suffixed_runner_dir(id, version).is_some() && probe.suffixed_dir_marked;
        }
        probe.base_dir_marked || probe.marked_subdir.is_some()
    }

    /// The directories that uninstalling version `version` of benchmark `id`
    /// removes where they exist, in order: the version directory, the major-version
    /// directory, and the benchmark's own directory when no version is named or
    /// that directory is marked installed (`base_dir_marked`).
    pub fn uninstall_targets(&self, id: &str, version: &str, base_dir_marked: bool) -> (r: Vec<
        String,
    >)
        ensures
            r.deep_view() == uninstall_targets_of(self.base(), id@, version@, base_dir_marked),
    {
        let mut r: Vec<String> = Vec::new();
        let ghost a = uninstall_targets_of(self.base(), id@, version@, base_dir_marked);
        if let Ok(d) = self.get_version_runner_dir(id, version) {
            r.push(d);
        }
        if let Some(d) = self.safe_suffixed_runner_dir(id, version) {
            r.push(d);
        }
        if let Ok(d) = self.get_runner_dir(id) {
            if version.is_empty() || base_dir_marked {
                r.push(d);
            }
        }
        assert(r.deep_view() =~= a);
        r
    }
}

/// The list `uninstall_targets` gives.
pub open spec fn uninstall_targets_of(base: Seq<char>, id: Seq<char>, version: Seq<char>, base_dir_marked: bool) -> Seq<Seq<char>> {
    let first: Seq<Seq<char>> = match version_runner_dir_result(base, id, version) {
        Ok(d) => seq![d],
        Err(_) => Seq::empty(),
    };
    let second: Seq<Seq<char>> = match suffixed_within(base, id, version) {
        Some(d) => seq![d],
        None => Seq::empty(),
    };
    let third: Seq<Seq<char>> = match runner_dir_result(base, id) {
        Ok(d) => if version.len() == 0 || base_dir_marked {
            seq![d]
        } else {
            Seq::empty()
        },
        Err(_) => Seq::empty(),
    };
    first + second + third
}

/// A version runs from a directory whose marker was found exactly when it counts
/// as installed; otherwise it falls back to its version directory.
pub proof fn lemma_active_dir_matches_installed(
    base: Seq<char>,
    id: Seq<char>,
    version: Seq<char>,
    p: InstallProbe,
)
    ensures
        version_installed(base, id, version, p) ==> (active_runner_dir_result(base, id, version, p)
            matches Ok(d) && ({
            ||| p.version_dir_marked && version_runner_dir_result(base, id, version) == Ok::<
                Seq<char>,
                EngineError,
            >(d)
            ||| p.suffixed_dir_marked && suffixed_within(base, id, version) == Some(d)
            ||| p.base_dir_marked && version_runner_dir_result(base, id, version) == Ok::<
                Seq<char>,
                EngineError,
            >(d)
            ||| (p.marked_subdir matches Some(s) && s@ == d)
        })),
        !version_installed(base, id, version, p) ==> active_runner_dir_result(base, id, version, p)
            == version_runner_dir_result(base, id, version),
{
}

// ---------------------------------------------------------------------------
// Installing a version
// ---------------------------------------------------------------------------

/// The position of the last `.` in `s`.
pub open spec fn last_dot(s: Seq<char>) -> Option<int>
    decreases s.len(),
{
    if s.len() == 0 {
        None
    } else if s.last() == '.' {
        Some(s.len() - 1)
    } else {
        last_dot(s.drop_last())
    }
}

/// Where a previous install is kept while a new one is made: the runner
/// directory with the extension of its last component replaced by `bak`, or
/// `.bak` appended when it has none (`Path::with_extension` on a normalised
/// path); unchanged when it ends in no name.
pub open spec fn backup_dir_of(dir: Seq<char>) -> Seq<char> {
    let name = split_on(dir, '/').last();
    let prefix = dir.take(dir.len() - name.len());
    if name.len() == 0 || name == ".."@ {
        dir
    } else {
        match last_dot(name) {
            Some(k) => if k > 0 {
                prefix + name.take(k) + ".bak"@
            } else {
                prefix + name + ".bak"@
            },
            None => prefix + name + ".bak"@,
        }
    }
}

proof fn lemma_split_last_suffix(s: Seq<char>, sep: char)
    ensures
        split_on(s, sep).len() > 0,
        split_on(s, sep).last().len() <= s.len(),
        s.skip(s.len() - split_on(s, sep).last().len()) == split_on(s, sep).last(),
    decreases s.len(),
{
    lemma_split_nonempty(s, sep);
    if s.len() > 0 {
        lemma_split_last_suffix(s.drop_last(), sep);
        let p = split_on(s.drop_last(), sep);
        if s.last() != sep {
            let l = p.last();
            assert(s.skip(s.len() - (l.len() + 1)) =~= s.drop_last().skip(
                s.drop_last().len() - l.len(),
            ).push(s.last()));
        } else {
            assert(s.skip(s.len() as int) =~= Seq::<char>::empty());
        }
    } else {
        assert(s.skip(0) =~= s);
    }
}

fn last_dot_of(s: &Vec<char>) -> (r: Option<usize>)
    ensures
        match r {
            Some(k) => last_dot(s@) == Some(k as int) && k < s@.len(),
            None => last_dot(s@) is None,
        },
{
    let mut n = s.len();
    assert(s@.take(n as int) =~= s@);
    while n > 0
        invariant
            n <= s@.len(),
            last_dot(s@) == last_dot(s@.take(n as int)),
        decreases n,
    {
        assert(s@.take(n as int).last() == s@[n - 1]);
        if s[n - 1] == '.' {
            return Some(n - 1);
        }
        assert(s@.take(n as int).drop_last() =~= s@.take(n - 1));
        n -= 1;
    }
    None
}

/// The directory a previous install of `dir` is moved to while a new one is made.
pub fn backup_dir(dir: &str) -> (r: String)
    ensures
        r@ == backup_dir_of(dir@),
{
    let v = chars_of(dir);
    let segs = split_chars(v.as_slice(), '/');
    proof {
        lemma_split_last_suffix(dir@, '/');
        lemma_split_nonempty(dir@, '/');
    }
    let ghost sv = segs@.map_values(|x: Vec<char>| x@);
    assert(sv.last() == segs@[segs@.len() - 1]@);
    let name = &segs[segs.len() - 1];
    let cut = v.len() - name.len();
    let mut prefix = String::new();
    let mut j: usize = 0;
    while j < cut
        invariant
            cut <= v@.len(),
            j <= cut,
            prefix@ == v@.take(j as int),
        decreases cut - j,
    {
        push_char(&mut prefix, v[j]);
        assert(v@.take(j + 1) =~= v@.take(j as int).push(v@[j as int]));
        j += 1;
    }
    proof {
        reveal_strlit("..");
    }
    if name.len() == 0 || (name.len() == 2 && name[0] == '.' && name[1] == '.') {
        assert(name@.len() == 0 || name@ =~= ".."@);
        return string_from(dir);
    }
    assert(name@ != ".."@) by {
        if name@ == ".."@ {
            assert(name@[0] == '.' && name@[1] == '.');
        }
    }
    let mut r = prefix;
    match last_dot_of(name) {
        Some(k) => {
            if k > 0 {
                let mut i: usize = 0;
                let ghost base = r@;
                while i < k
                    invariant
                        k < name@.len(),
                        i <= k,
                        r@ == base + name@.take(i as int),
                    decreases k - i,
                {
                    push_char(&mut r, name[i]);
                    assert(name@.take(i + 1) =~= name@.take(i as int).push(name@[i as int]));
                    i += 1;
                }
            } else {
                push_chars(&mut r, name.as_slice());
            }
        },
        None => {
            push_chars(&mut r, name.as_slice());
        },
    }
    push_str(&mut r, ".bak");
    r
}

/// Why an install cannot start.
#[derive(Debug, Clone, Copy, PartialEq, Eq)]
pub enum InstallError {
    /// The download command is refused.
    UnsafeCommand(DownloadCommandError),
    /// The download address holds a quote, space, `;` or `&`.
    InvalidUrl,
    /// The address names no usable file.
    InvalidFileName,
    /// The profile gives neither a command nor an address.
    NoSource,
}

/// How a version is obtained.
#[derive(Debug, Clone, PartialEq, Eq)]
pub enum InstallSource {
    /// Run this shell command in the runner directory.
    Command(String),
    /// Download the address to the file, and unpack it when it is a
    /// self-extracting `.run` package.
    Download { url: String, file_name: String, self_extracting: bool },
}

/// Characters refused in a download address.
pub open spec fn is_bad_url_char(c: char) -> bool {
    c == '\'' || c == '"' || c == ' ' || c == ';' || c == '&'
}

/// The file an address names: the last `/`-separated part of what comes before
/// its first `?`.
pub open spec fn url_file_name(url: Seq<char>) -> Seq<char> {
    split_on(split_on(url, '?')[0], '/').last()
}

/// How a version is obtained, or why it cannot be, as contracts see it.
pub enum InstallPlan {
    Command(Seq<char>),
    Download(Seq<char>, Seq<char>, bool),
    Refused(DownloadVerdict),
    InvalidUrl,
    InvalidFileName,
    NoSource,
}

/// The plan that a result of `install_source` reports.
pub open spec fn plan_of(r: Result<InstallSource, InstallError>) -> InstallPlan {
    match r {
        Ok(InstallSource::Command(c)) => InstallPlan::Command(c@),
        Ok(InstallSource::Download { url, file_name, self_extracting }) => InstallPlan::Download(
            url@,
            file_name@,
            self_extracting,
        ),
        Err(InstallError::UnsafeCommand(e)) => InstallPlan::Refused(verdict_of(Err(e))),
        Err(InstallError::InvalidUrl) => InstallPlan::InvalidUrl,
        Err(InstallError::InvalidFileName) => InstallPlan::InvalidFileName,
        Err(InstallError::NoSource) => InstallPlan::NoSource,
    }
}

/// How `p` (already resolved for its version) is installed: its download command
/// when it has one, refused when unsafe; else its download address, refused when
/// it holds a quote, space, `;` or `&` or names no usable file, and unpacked when
/// the archive type is "run" or the address ends in ".run"; else nothing.
pub open spec fn install_plan_of(p: BenchmarkProfileView) -> InstallPlan {
    match p.download_cmd {
        Some(cmd) => match download_command_check(cmd) {
            DownloadVerdict::Accepted => InstallPlan::Command(cmd),
            v => InstallPlan::Refused(v),
        },
        None => match p.download_url {
            Some(url) => download_plan(url, p.archive_type),
            None => InstallPlan::NoSource,
        },
    }
}

/// The plan for a download address (see `install_plan_of`).
pub open spec fn download_plan(url: Seq<char>, archive_type: Option<Seq<char>>) -> InstallPlan {
    if exists|i: int| 0 <= i < url.len() && is_bad_url_char(#[trigger] url[i]) {
        InstallPlan::InvalidUrl
    } else if url_file_name(url).len() == 0 || url_file_name(url).contains('\\') {
        InstallPlan::InvalidFileName
    } else {
        InstallPlan::Download(
            url,
            url_file_name(url),
            archive_type == Some("run"@) || ends_with(url, ".run"@),
        )
    }
}

/// How `profile` (already resolved for its version) is installed.
pub fn install_source(profile: &BenchmarkProfile) -> (r: Result<InstallSource, InstallError>)
    ensures
        plan_of(r) == install_plan_of(profile@),
{
    match &profile.download_cmd {
        Some(cmd) => match validate_download_command(cmd.as_str()) {
            Ok(()) => Ok(InstallSource::Command(cmd.clone())),
            Err(e) => Err(InstallError::UnsafeCommand(e)),
        },
        None => match &profile.download_url {
            Some(url) => {
                assert(profile@.download_url == Some(url@));
                assert(profile@.download_cmd is None);
                let v = chars_of(url.as_str());
                let mut i: usize = 0;
                while i < v.len()
                    invariant
                        v@ == url@,
                        profile@.download_cmd is None,
                        profile@.download_url == Some(url@),
                        i <= v@.len(),
                        forall|j: int| 0 <= j < i ==> !is_bad_url_char(v@[j]),
                    decreases v@.len() - i,
                {
                    let c = v[i];
                    if c == '\'' || c == '"' || c == ' ' || c == ';' || c == '&' {
                        assert(is_bad_url_char(url@[i as int]));
                        assert(download_plan(url@, profile@.archive_type) == InstallPlan::InvalidUrl);
                        return Err(InstallError::InvalidUrl);
                    }
                    i += 1;
                }
                let parts = split_chars(v.as_slice(), '?');
                proof {
                    lemma_split_nonempty(url@, '?');
                }
                assert(parts@.map_values(|x: Vec<char>| x@)[0] == parts@[0]@);
                let segs = split_chars(parts[0].as_slice(), '/');
                proof {
                    lemma_split_nonempty(parts@[0]@, '/');
                }
                let ghost sv = segs@.map_values(|x: Vec<char>| x@);
                assert(sv.last() == segs@[segs@.len() - 1]@);
                let name = &segs[segs.len() - 1];
                assert(name@ == url_file_name(url@));
                if name.len() == 0 || contains_char(name.as_slice(), '\\') {
                    return Err(InstallError::InvalidFileName);
                }
                let self_extracting = match &profile.archive_type {
                    Some(a) => str_is(a.as_str(), "run"),
                    None => false,
                } || ends_with_str(v.as_slice(), ".run");
                Ok(
                    InstallSource::Download {
                        url: url.clone(),
                        file_name: string_of(name.as_slice()),
                        self_extracting,
                    },
                )
            },
            None => Err(InstallError::NoSource),
        },
    }
}

impl DownloadCommandError {
    /// The message reported for a refused download command.
    pub fn message(&self) -> (r: String)
        ensures
            r@ == match *self {
                DownloadCommandError::Empty => "Download command cannot be empty"@,
                DownloadCommandError::NullByte => "Download command contains forbidden null byte"@,
                DownloadCommandError::PrivilegeEscalation(w) => "Download command contains forbidden privilege escalation: '"@
                    + w@ + "'"@,
                DownloadCommandError::DangerousPattern(p) => "Download command contains dangerous pattern: '"@
                    + p@ + "'"@,
                DownloadCommandError::ForbiddenPath(p) => "Download command references forbidden system path: '"@
                    + p@ + "'"@,
            },
    {
        let (mut s, quoted) = match self {
            DownloadCommandError::Empty => {
                return string_from("Download command cannot be empty");
            },
            DownloadCommandError::NullByte => {
                return string_from("Download command contains forbidden null byte");
            },
            DownloadCommandError::PrivilegeEscalation(w) => (
                string_from("Download command contains forbidden privilege escalation: '"),
                *w,
            ),
            DownloadCommandError::DangerousPattern(p) => (
                string_from("Download command contains dangerous pattern: '"),
                *p,
            ),
            DownloadCommandError::ForbiddenPath(p) => (
                string_from("Download command references forbidden system path: '"),
                *p,
            ),
        };
        push_str(&mut s, quoted);
        push_str(&mut s, "'");
        s
    }
}

impl InstallError {
    /// The message reported when the install of `name` cannot start; `url` is
    /// its download address and `file_name` the file that address names.
    pub fn message(&self, name: &str, url: &str, file_name: &str) -> (r: String)
        ensures
            r@ == match *self {
                InstallError::UnsafeCommand(e) => match e {
                    DownloadCommandError::Empty => "Download command cannot be empty"@,
                    DownloadCommandError::NullByte => "Download command contains forbidden null byte"@,
                    DownloadCommandError::PrivilegeEscalation(w) => "Download command contains forbidden privilege escalation: '"@
                        + w@ + "'"@,
                    DownloadCommandError::DangerousPattern(p) => "Download command contains dangerous pattern: '"@
                        + p@ + "'"@,
                    DownloadCommandError::ForbiddenPath(p) => "Download command references forbidden system path: '"@
                        + p@ + "'"@,
                },
                InstallError::InvalidUrl => "URL contains invalid characters: "@ + url@,
                InstallError::InvalidFileName => "Extracted filename from URL is invalid: "@
                    + file_name@,
                InstallError::NoSource => "Installation command or download link not defined: "@
                    + name@,
            },
    {
        match self {
            InstallError::UnsafeCommand(e) => e.message(),
            InstallError::InvalidUrl => {
                let mut s = string_from("URL contains invalid characters: ");
                push_str(&mut s, url);
                s
            },
            InstallError::InvalidFileName => {
                let mut s = string_from("Extracted filename from URL is invalid: ");
                push_str(&mut s, file_name);
                s
            },
            InstallError::NoSource => {
                let mut s = string_from("Installation command or download link not defined: ");
                push_str(&mut s, name);
                s
            },
        }
    }
}

/// A program to run and its arguments.
pub type ProgramCall = (String, Vec<String>);

/// The programs an install runs in the runner directory `runner_dir`, in order:
/// the shell for a download command; for a download, `wget` to fetch the file,
/// then, for a self-extracting package, `chmod` to make it executable and the
/// shell to unpack it into `extracted` inside the runner directory.
pub open spec fn install_steps(source: InstallPlan, runner_dir: Seq<char>) -> Seq<(Seq<char>, Seq<Seq<char>>)> {
    match source {
        InstallPlan::Command(cmd) => seq![("sh"@, seq!["-c"@, cmd])],
        InstallPlan::Download(url, file, unpack) => {
            let fetch = ("wget"@, seq!["-nv"@, "-c"@, url, "-O"@, file]);
            if unpack {
                seq![
                    fetch,
                    ("chmod"@, seq!["+x"@, file]),
                    (
                        "sh"@,
                        seq![
                            "./"@ + file,
                            "--accept"@,
                            "--noexec"@,
                            "--target"@,
                            path_join(runner_dir, "extracted"@),
                        ],
                    ),
                ]
            } else {
                seq![fetch]
            }
        },
        _ => Seq::empty(),
    }
}

/// The view of a list of program calls.
pub open spec fn calls_view(v: Seq<ProgramCall>) -> Seq<(Seq<char>, Seq<Seq<char>>)> {
    v.map_values(|c: ProgramCall| (c.0@, c.1.deep_view()))
}

/// The programs an install from `source` runs in `runner_dir`.
pub fn install_commands(source: &InstallSource, runner_dir: &str) -> (r: Vec<ProgramCall>)
    ensures
        calls_view(r@) == install_steps(plan_of(Ok(*source)), runner_dir@),
{
    let mut r: Vec<ProgramCall> = Vec::new();
    match source {
        InstallSource::Command(cmd) => {
            let mut args: Vec<String> = Vec::new();
            args.push(string_from("-c"));
            args.push(cmd.clone());
            assert(args.deep_view() =~= seq!["-c"@, cmd@]);
            r.push((string_from("sh"), args));
            assert(calls_view(r@) =~= seq![("sh"@, seq!["-c"@, cmd@])]);
        },
        InstallSource::Download { url, file_name, self_extracting } => {
            let mut fetch: Vec<String> = Vec::new();
            fetch.push(string_from("-nv"));
            fetch.push(string_from("-c"));
            fetch.push(url.clone());
            fetch.push(string_from("-O"));
            fetch.push(file_name.clone());
            let ghost fv = seq!["-nv"@, "-c"@, url@, "-O"@, file_name@];
            assert(fetch.deep_view() =~= fv);
            r.push((string_from("wget"), fetch));
            if *self_extracting {
                let mut chmod: Vec<String> = Vec::new();
                chmod.push(string_from("+x"));
                chmod.push(file_name.clone());
                assert(chmod.deep_view() =~= seq!["+x"@, file_name@]);
                r.push((string_from("chmod"), chmod));
                let mut script = string_from("./");
                push_str(&mut script, file_name.as_str());
                let mut unpack: Vec<String> = Vec::new();
                unpack.push(script);
                unpack.push(string_from("--accept"));
                unpack.push(string_from("--noexec"));
                unpack.push(string_from("--target"));
                unpack.push(join_path(runner_dir, "extracted"));
                let ghost uv = seq![
                    "./"@ + file_name@,
                    "--accept"@,
                    "--noexec"@,
                    "--target"@,
                    path_join(runner_dir@, "extracted"@),
                ];
                assert(unpack.deep_view() =~= uv);
                r.push((string_from("sh"), unpack));
                assert(calls_view(r@) =~= seq![
                    ("wget"@, fv),
                    ("chmod"@, seq!["+x"@, file_name@]),
                    ("sh"@, uv),
                ]);
            } else {
                assert(calls_view(r@) =~= seq![("wget"@, fv)]);
            }
        },
    }
    r
}

/// A file left in the runner directory by a self-extracting package, removed
/// once it is unpacked.
pub open spec fn is_installer_leftover(name: Seq<char>) -> bool {
    ends_with(name, ".run"@) || ends_with(name, ".run.download"@)
}

/// Whether a file in the runner directory is a leftover package.
pub fn installer_leftover(name: &str) -> (r: bool)
    ensures
        r == is_installer_leftover(name@),
{
    let v = chars_of(name);
    ends_with_str(v.as_slice(), ".run") || ends_with_str(v.as_slice(), ".run.download")
}

/// The log line "[BenchHub] <text of key>: <name>" an install writes.
pub fn install_log_line(i18n: &I18n, key: &str, name: &str) -> (r: String)
    ensures
        r@ == "[BenchHub] "@ + i18n.text_for(key@) + ": "@ + name@ + "\n"@,
{
    let mut s = string_from("[BenchHub] ");
    let k = t(i18n, key);
    push_str(&mut s, k.as_str());
    push_str(&mut s, ": ");
    push_str(&mut s, name);
    push_str(&mut s, "\n");
    s
}

} // verus!
