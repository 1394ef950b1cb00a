//! Decisions around a benchmark run: its stored settings, time limit, log file
//! name and environment; what to do on each event while the process runs; its
//! final status, whether it is kept in the history, and the lines and messages
//! shown for it. Starting the process, waiting on it and writing files are left
//! to the caller.
use vstd::prelude::*;
use crate::bench_config::BenchmarkCustomConfig;
use crate::i18n::{localize_status, status_text, t, I18n, Language};
use crate::models::GpuMode;
use crate::settings_dialog::named_status;
use crate::text::{
    chars_of, clone_opt_strings, contains, contains_str, debug_list, debug_string_list, dec,
    dec_string, lowercase, opt_strings_view, push_str, replace_seq, str_is, string_from,
    to_lowercase,
};

verus! {

// ---------------------------------------------------------------------------
// Before the run
// ---------------------------------------------------------------------------

/// The time limit of a run: a per-benchmark limit wins (0 meaning none); without
/// one, the global limit applies when it is positive.
pub open spec fn effective_timeout(custom: Option<u64>, global: u64) -> Option<u64> {
    match custom {
        Some(secs) => if secs == 0 {
            None
        } else {
            Some(secs)
        },
        None => if global > 0 {
            Some(global)
        } else {
            None
        },
    }
}

/// The time limit of a run in seconds, if any.
pub fn effective_timeout_secs(custom: Option<u64>, global: u64) -> (r: Option<u64>)
    ensures
        r == effective_timeout(custom, global),
{
    match custom {
        Some(secs) => if secs == 0 {
            None
        } else {
            Some(secs)
        },
        None => if global > 0 {
            Some(global)
        } else {
            None
        },
    }
}

/// Decimal text of an integer, with a minus sign when negative.
pub open spec fn int_text(x: int) -> Seq<char> {
    if x < 0 {
        "-"@ + dec((-x) as nat)
    } else {
        dec(x as nat)
    }
}

/// The log file name of a run: start time, id, and `_version` when a version is given.
pub open spec fn log_file_name(start_ts: i64, id: Seq<char>, version: Seq<char>) -> Seq<char> {
    int_text(start_ts as int) + "_"@ + id + (if version.len() == 0 {
        Seq::<char>::empty()
    } else {
        "_"@ + version
    }) + ".log"@
}

/// Decimal text of an integer, with a minus sign when negative.
pub fn int_string(x: i64) -> (r: String)
    ensures
        r@ == int_text(x as int),
{
    if x < 0 {
        let mut m = string_from("-");
        let magnitude: u64 = if x == i64::MIN {
            9223372036854775808u64
        } else {
            (-x) as u64
        };
        let d = dec_string(magnitude);
        push_str(&mut m, d.as_str());
        m
    } else {
        dec_string(x as u64)
    }
}

/// The log file name of a run started at `start_ts` (seconds since the epoch).
pub fn run_log_file_name(start_ts: i64, id: &str, version: &str) -> (r: String)
    ensures
        r@ == log_file_name(start_ts, id@, version@),
{
    let mut r = int_string(start_ts);
    push_str(&mut r, "_");
    push_str(&mut r, id);
    if !version.is_empty() {
        push_str(&mut r, "_");
        push_str(&mut r, version);
    } else {
        proof {
            reveal_strlit("");
        }
    }
    push_str(&mut r, ".log");
    proof {
        if version@.len() == 0 {
            assert(r@ =~= log_file_name(start_ts, id@, version@));
        }
    }
    r
}

/// The id a run is recorded under: the benchmark id, and `-version` when given.
pub fn benchmark_id_with_version(id: &str, version: &str) -> (r: String)
    ensures
        r@ == if version@.len() == 0 {
            id@
        } else {
            id@ + "-"@ + version@
        },
{
    let mut r = string_from(id);
    if !version.is_empty() {
        push_str(&mut r, "-");
        push_str(&mut r, version);
    }
    r
}

/// Whether a run is of Unigine Superposition, whose results are also written to
/// automation files.
pub open spec fn is_superposition_run(id: Seq<char>, name: Seq<char>, version: Seq<char>) -> bool {
    contains(id, "superposition"@) || contains(lowercase(name), "superposition"@) || contains(
        lowercase(version),
        "superposition"@,
    ) || (contains(id, "unigine"@) && version.len() == 0)
}

/// Whether a run is of Unigine Superposition.
pub fn is_superposition(id: &str, name: &str, version: &str) -> (r: bool)
    ensures
        r == is_superposition_run(id@, name@, version@),
{
    let idv = chars_of(id);
    let ln = to_lowercase(name);
    let lnv = chars_of(ln.as_str());
    let lv = to_lowercase(version);
    let lvv = chars_of(lv.as_str());
    contains_str(idv.as_slice(), "superposition") || contains_str(lnv.as_slice(), "superposition")
        || contains_str(lvv.as_slice(), "superposition") || (contains_str(
        idv.as_slice(),
        "unigine",
    ) && version.is_empty())
}

/// The bundled library directories of a benchmark in `w`, then relative to it.
pub open spec fn bundled_library_dirs(w: Seq<char>) -> Seq<char> {
    w + "/bin/qt/lib:"@ + w + "/qt/lib:"@ + w + "/bin:"@ + w + "/lib:"@ + w + "/lib64:"@ + w
        + "/bin/x64:"@ + w + "/lib/x64:"@ + w
        + ":./bin/qt/lib:./qt/lib:./bin:./lib:./lib64:./bin/x64:./lib/x64:."@
}

/// The library search path for a run in `work_dir`: the bundled directories,
/// ahead of the existing search path when one is set and not empty.
pub fn library_search_path(work_dir: &str, existing: Option<&str>) -> (r: String)
    ensures
        r@ == match existing {
            Some(e) => if e@.len() > 0 {
                bundled_library_dirs(work_dir@) + ":"@ + e@
            } else {
                bundled_library_dirs(work_dir@)
            },
            None => bundled_library_dirs(work_dir@),
        },
{
    let mut r = string_from(work_dir);
    push_str(&mut r, "/bin/qt/lib:");
    push_str(&mut r, work_dir);
    push_str(&mut r, "/qt/lib:");
    push_str(&mut r, work_dir);
    push_str(&mut r, "/bin:");
    push_str(&mut r, work_dir);
    push_str(&mut r, "/lib:");
    push_str(&mut r, work_dir);
    push_str(&mut r, "/lib64:");
    push_str(&mut r, work_dir);
    push_str(&mut r, "/bin/x64:");
    push_str(&mut r, work_dir);
    push_str(&mut r, "/lib/x64:");
    push_str(&mut r, work_dir);
    push_str(&mut r, ":./bin/qt/lib:./qt/lib:./bin:./lib:./lib64:./bin/x64:./lib/x64:.");
    match existing {
        Some(e) => {
            if !e.is_empty() {
                push_str(&mut r, ":");
                push_str(&mut r, e);
            }
        },
        None => {},
    }
    r
}

/// The environment that steers a benchmark to the GPU of a mode.
pub open spec fn gpu_env(mode: GpuMode) -> Seq<(Seq<char>, Seq<char>)> {
    match mode {
        GpuMode::NvidiaDgpu => seq![
            ("__NV_PRIME_RENDER_OFFLOAD"@, "1"@),
            ("__GLX_VENDOR_LIBRARY_NAME"@, "nvidia"@),
            ("__VK_LAYER_NV_optimus"@, "NVIDIA_only"@),
            ("DRI_PRIME"@, "1"@),
        ],
        GpuMode::Integrated => seq![("__NV_PRIME_RENDER_OFFLOAD"@, "0"@), ("DRI_PRIME"@, "0"@)],
        GpuMode::Auto => Seq::empty(),
    }
}

/// The environment variables (name, value) that steer a benchmark to the GPU of `mode`.
pub fn gpu_env_vars(mode: GpuMode) -> (r: Vec<(&'static str, &'static str)>)
    ensures
        r@.map_values(|p: (&str, &str)| (p.0@, p.1@)) == gpu_env(mode),
{
    let r = match mode {
        GpuMode::NvidiaDgpu => vec![
            ("__NV_PRIME_RENDER_OFFLOAD", "1"),
            ("__GLX_VENDOR_LIBRARY_NAME", "nvidia"),
            ("__VK_LAYER_NV_optimus", "NVIDIA_only"),
            ("DRI_PRIME", "1"),
        ],
        GpuMode::Integrated => vec![("__NV_PRIME_RENDER_OFFLOAD", "0"), ("DRI_PRIME", "0")],
        GpuMode::Auto => Vec::new(),
    };
    assert(r@.map_values(|p: (&str, &str)| (p.0@, p.1@)) =~= gpu_env(mode));
    r
}

/// The graphics-session variables handed on to benchmarks when they are set.
pub fn graphics_env_names() -> (r: Vec<&'static str>)
    ensures
        r@.map_values(|n: &str| n@) == seq![
            "DISPLAY"@,
            "WAYLAND_DISPLAY"@,
            "XAUTHORITY"@,
            "HOME"@,
            "XDG_RUNTIME_DIR"@,
            "XDG_SESSION_TYPE"@,
        ],
{
    let r = vec!["DISPLAY", "WAYLAND_DISPLAY", "XAUTHORITY", "HOME", "XDG_RUNTIME_DIR", "XDG_SESSION_TYPE"];
    assert(r@.map_values(|n: &str| n@) =~= seq![
        "DISPLAY"@,
        "WAYLAND_DISPLAY"@,
        "XAUTHORITY"@,
        "HOME"@,
        "XDG_RUNTIME_DIR"@,
        "XDG_SESSION_TYPE"@,
    ]);
    r
}

// ---------------------------------------------------------------------------
// After the run
// ---------------------------------------------------------------------------

/// The status of a finished run: stopped by the user; timed out (with or without
/// a score); exited with code 0 (with or without a score); or otherwise.
pub open spec fn run_status_text(stopped: bool, timed_out: bool, exit_code: Option<i32>, scored: bool) -> Seq<char> {
    if stopped {
        "Stopped"@
    } else if timed_out {
        if scored {
            "Timeout (Scored)"@
        } else {
            "Timeout"@
        }
    } else if exit_code == Some(0i32) && scored {
        "Success"@
    } else if exit_code == Some(0i32) {
        "Completed"@
    } else if scored {
        "Scored"@
    } else {
        "Completed (Log Saved)"@
    }
}

/// The status recorded for a finished run.
pub fn run_status(stopped: bool, timed_out: bool, exit_code: Option<i32>, scored: bool) -> (r: &'static str)
    ensures
        r@ == run_status_text(stopped, timed_out, exit_code, scored),
{
    let exited_ok = match exit_code {
        Some(c) => c == 0,
        None => false,
    };
    if stopped {
        "Stopped"
    } else if timed_out {
        if scored {
            "Timeout (Scored)"
        } else {
            "Timeout"
        }
    } else if exited_ok && scored {
        "Success"
    } else if exited_ok {
        "Completed"
    } else if scored {
        "Scored"
    } else {
        "Completed (Log Saved)"
    }
}

/// Whether a finished run is kept in the history: always, unless its status is
/// "Durduruldu" and stopped runs are not saved.
pub fn should_record_run(status: &str, save_stopped_runs: bool) -> (r: bool)
    ensures
        r == (status@ != "Durduruldu"@ || save_stopped_runs),
{
    !str_is(status, "Durduruldu") || save_stopped_runs
}

/// What to do with a run's history row when it finishes.
#[derive(Debug, Clone, Copy, PartialEq, Eq, Structural)]
pub enum RunRecordAction {
    /// Update the row made when the run started.
    Update,
    /// Insert a new row.
    Insert,
    /// Delete the row made when the run started.
    Delete,
    /// Nothing to store or remove.
    Nothing,
}

/// What to do with a finished run's history row, given whether it is kept and the
/// id of the row made when it started (0 when none was made).
pub fn record_action(keep: bool, run_id: i64) -> (r: RunRecordAction)
    ensures
        r == if keep {
            if run_id > 0 {
                RunRecordAction::Update
            } else {
                RunRecordAction::Insert
            }
        } else if run_id > 0 {
            RunRecordAction::Delete
        } else {
            RunRecordAction::Nothing
        },
{
    if keep {
        if run_id > 0 {
            RunRecordAction::Update
        } else {
            RunRecordAction::Insert
        }
    } else if run_id > 0 {
        RunRecordAction::Delete
    } else {
        RunRecordAction::Nothing
    }
}

// ---------------------------------------------------------------------------
// While the process runs
// ---------------------------------------------------------------------------

/// What happens while a benchmark process runs.
#[derive(Debug, Clone, Copy, PartialEq, Eq, Structural)]
pub enum RunEvent {
    /// The stop signal changed to this value.
    StopSignal(bool),
    /// The time limit elapsed.
    TimeLimit,
    /// The process exited, with its exit code when it has one.
    Exited(Option<i32>),
    /// A line of output was read; whether a score was found in it.
    Line(bool),
    /// Standard output and standard error both closed.
    OutputClosed,
    /// The pause after the exit passed; whether a score was found in the lines
    /// still buffered, which are read then.
    Drained(bool),
}

/// What the caller does after an event.
#[derive(Debug, Clone, Copy, PartialEq, Eq, Structural)]
pub enum RunAction {
    /// Keep waiting for events.
    Continue,
    /// Kill the process group, report that the user stopped the run, and stop.
    KillStopped,
    /// Kill the process group, report that the time limit was exceeded, and stop.
    KillTimedOut,
    /// Stop waiting: the output is complete.
    Finish,
}

/// What is known about a running benchmark process.
#[derive(Debug, Clone, Copy, PartialEq, Eq, Structural)]
pub struct RunMonitor {
    pub stopped_by_user: bool,
    pub timed_out: bool,
    /// The exit, once the process exited, with its code when it has one.
    pub exit: Option<Option<i32>>,
    pub scored: bool,
    pub done: bool,
}

/// The monitor of a process that just started.
pub open spec fn monitor_start() -> RunMonitor {
    RunMonitor { stopped_by_user: false, timed_out: false, exit: None, scored: false, done: false }
}

/// The monitor after an event, and what the caller does then.
pub open spec fn monitor_step(m: RunMonitor, ev: RunEvent) -> (RunMonitor, RunAction) {
    match ev {
        RunEvent::StopSignal(on) => if on {
            (RunMonitor { stopped_by_user: true, done: true, ..m }, RunAction::KillStopped)
        } else {
            (m, RunAction::Continue)
        },
        RunEvent::TimeLimit => (RunMonitor { timed_out: true, done: true, ..m }, RunAction::KillTimedOut),
        RunEvent::Exited(code) => if m.exit is None {
            (RunMonitor { exit: Some(code), ..m }, RunAction::Continue)
        } else {
            (m, RunAction::Continue)
        },
        RunEvent::Line(found) => (RunMonitor { scored: m.scored || found, ..m }, RunAction::Continue),
        RunEvent::OutputClosed => (RunMonitor { done: true, ..m }, RunAction::Finish),
        RunEvent::Drained(found) => (
            RunMonitor { scored: m.scored || found, done: true, ..m },
            RunAction::Finish,
        ),
    }
}

/// The exit code a finished run reports: none when the user stopped it; the
/// code seen when the process exited; otherwise the code of the final wait.
pub open spec fn final_exit_code(m: RunMonitor, waited: Option<i32>) -> Option<i32> {
    if m.stopped_by_user {
        None
    } else {
        match m.exit {
            Some(code) => code,
            None => waited,
        }
    }
}

impl RunMonitor {
    /// The monitor of a process that just started.
    pub fn new() -> (r: Self)
        ensures
            r == monitor_start(),
    {
        RunMonitor { stopped_by_user: false, timed_out: false, exit: None, scored: false, done: false }
    }

    /// Takes an event into account and says what to do next.
    pub fn on_event(&mut self, ev: RunEvent) -> (r: RunAction)
        requires
            !old(self).done,
        ensures
            (*final(self), r) == monitor_step(*old(self), ev),
    {
        match ev {
            RunEvent::StopSignal(on) => {
                if on {
                    self.stopped_by_user = true;
                    self.done = true;
                    RunAction::KillStopped
                } else {
                    RunAction::Continue
                }
            },
            RunEvent::TimeLimit => {
                self.timed_out = true;
                self.done = true;
                RunAction::KillTimedOut
            },
            RunEvent::Exited(code) => {
                if self.exit.is_none() {
                    self.exit = Some(code);
                }
                RunAction::Continue
            },
            RunEvent::Line(found) => {
                self.scored = self.scored || found;
                RunAction::Continue
            },
            RunEvent::OutputClosed => {
                self.done = true;
                RunAction::Finish
            },
            RunEvent::Drained(found) => {
                self.scored = self.scored || found;
                self.done = true;
                RunAction::Finish
            },
        }
    }

    /// Whether the caller must wait on the process for its exit code.
    pub fn needs_final_wait(&self) -> (r: bool)
        ensures
            r == (!self.stopped_by_user && self.exit is None),
    {
        !self.stopped_by_user && self.exit.is_none()
    }

    /// The exit code the finished run reports, given the code of the final wait
    /// (used only when `needs_final_wait`).
    pub fn exit_code(&self, waited: Option<i32>) -> (r: Option<i32>)
        ensures
            r == final_exit_code(*self, waited),
    {
        if self.stopped_by_user {
            None
        } else {
            match self.exit {
                Some(code) => code,
                None => waited,
            }
        }
    }

    /// The status recorded for the finished run.
    pub fn status(&self, waited: Option<i32>) -> (r: &'static str)
        ensures
            r@ == run_status_text(
                self.stopped_by_user,
                self.timed_out,
                final_exit_code(*self, waited),
                self.scored,
            ),
    {
        run_status(self.stopped_by_user, self.timed_out, self.exit_code(waited), self.scored)
    }
}

/// The events of a run, applied in order from the start while it is not done.
pub open spec fn monitor_after(evs: Seq<RunEvent>) -> RunMonitor
    decreases evs.len(),
{
    if evs.len() == 0 {
        monitor_start()
    } else {
        let m = monitor_after(evs.drop_last());
        if m.done {
            m
        } else {
            monitor_step(m, evs.last()).0
        }
    }
}

/// Whatever happens during a run, it is never both stopped by the user and
/// stopped for its time limit; it is done exactly when one of the stopping events
/// (stop signal on, time limit, output closed, drained) occurred; and a score,
/// once found, stays found.
pub proof fn lemma_monitor_outcomes(evs: Seq<RunEvent>)
    ensures
        !(monitor_after(evs).stopped_by_user && monitor_after(evs).timed_out),
        monitor_after(evs).stopped_by_user || monitor_after(evs).timed_out ==> monitor_after(evs).done,
        monitor_after(evs).done <==> exists|i: int|
            0 <= i < evs.len() && #[trigger] ends_run(evs[i]),
        forall|k: int| 0 <= k <= evs.len() ==> (#[trigger] monitor_after(evs.take(k))).scored ==> monitor_after(evs).scored,
    decreases evs.len(),
{
    if evs.len() > 0 {
        let prev = evs.drop_last();
        lemma_monitor_outcomes(prev);
        assert(evs.take(evs.len() as int) =~= evs);
        assert forall|k: int| 0 <= k < evs.len() implies evs.take(k) =~= prev.take(k) by {}
        assert forall|i: int| 0 <= i < prev.len() implies prev[i] == evs[i] by {}
        if exists|i: int| 0 <= i < prev.len() && #[trigger] ends_run(prev[i]) {
            let i = choose|i: int| 0 <= i < prev.len() && #[trigger] ends_run(prev[i]);
            assert(ends_run(evs[i]));
        }
        if ends_run(evs.last()) {
            assert(ends_run(evs[evs.len() - 1]));
        }
    }
}

/// The events that end the waiting.
pub open spec fn ends_run(ev: RunEvent) -> bool {
    match ev {
        RunEvent::StopSignal(on) => on,
        RunEvent::TimeLimit => true,
        RunEvent::OutputClosed => true,
        RunEvent::Drained(_) => true,
        _ => false,
    }
}

// ---------------------------------------------------------------------------
// The run as the application drives it
// ---------------------------------------------------------------------------

/// What a stored configuration sets for a run of `version`: its arguments (the
/// profile's when none are stored), the preset label recorded (the version when
/// none is stored) and its own time limit.
pub fn stored_run_settings(cfg: Option<&BenchmarkCustomConfig>, version: &str) -> (r: (
    Option<Vec<String>>,
    String,
    Option<u64>,
))
    ensures
        match cfg {
            Some(c) => opt_strings_view(r.0) == opt_strings_view(c.effective_run_args) && r.1@ == (
            match c.custom_preset_name {
                Some(n) => n@,
                None => version@,
            }) && r.2 == c.timeout_secs,
            None => r.0 is None && r.1@ == version@ && r.2 is None,
        },
{
    match cfg {
        Some(c) => (
            clone_opt_strings(&c.effective_run_args),
            match &c.custom_preset_name {
                Some(n) => n.clone(),
                None => string_from(version),
            },
            c.timeout_secs,
        ),
        None => (None, string_from(version), None),
    }
}

/// Whether the queue goes on after a run with this status: not after a run the
/// user stopped or cancelled.
pub fn run_allows_next(status: &str) -> (r: bool)
    ensures
        r == (status@ != "Durduruldu"@ && status@ != "İptal Edildi"@),
{
    !str_is(status, "Durduruldu") && !str_is(status, "İptal Edildi")
}

/// The status line shown when a run ends: for a stopped run whether it was
/// recorded; else its score (`score_text`, as the caller writes it) when it has
/// one; else its status in the current language.
pub open spec fn finish_text(i: I18n, status: Seq<char>, recorded: bool, score_text: Option<Seq<char>>)
    -> Seq<char> {
    if status == "Durduruldu"@ {
        if recorded {
            i.text_for("status_test_stopped_recorded"@)
        } else {
            i.text_for("status_test_stopped_not_recorded"@)
        }
    } else {
        match score_text {
            Some(sc) => replace_seq(i.text_for("status_test_completed_score"@), "{}"@, sc),
            None => replace_seq(
                i.text_for("status_test_completed_no_score"@),
                "{}"@,
                status_text(i, status),
            ),
        }
    }
}

/// The status line shown when a run ends.
pub fn finish_message(i18n: &I18n, status: &str, recorded: bool, score_text: Option<&str>) -> (r:
    String)
    ensures
        r@ == finish_text(
            *i18n,
            status@,
            recorded,
            match score_text {
                Some(s) => Some(s@),
                None => None,
            },
        ),
{
    if str_is(status, "Durduruldu") {
        if recorded {
            t(i18n, "status_test_stopped_recorded")
        } else {
            t(i18n, "status_test_stopped_not_recorded")
        }
    } else {
        match score_text {
            Some(sc) => named_status(i18n, "status_test_completed_score", sc),
            None => {
                let shown = localize_status(i18n, status);
                named_status(i18n, "status_test_completed_no_score", shown.as_str())
            },
        }
    }
}

/// The first line of the terminal for a run of the benchmark named `name`.
pub fn run_banner(name: &str) -> (r: String)
    ensures
        r@ == "=== [BenchHub] Test: "@ + name@ + " ===\n"@,
{
    let mut s = string_from("=== [BenchHub] Test: ");
    push_str(&mut s, name);
    push_str(&mut s, " ===\n");
    s
}

/// The line written when a run exceeds its time limit of `secs` seconds and is
/// stopped.
pub fn time_limit_notice(secs: u64) -> (r: String)
    ensures
        r@ == "\n[BenchHub] ⏱️ Test belirlenen maksimum süreyi ("@ + dec(secs as nat)
            + " sn) aştı ve zaman aşımı korumasıyla durduruldu.\n"@,
{
    let mut s = string_from("\n[BenchHub] ⏱️ Test belirlenen maksimum süreyi (");
    let d = dec_string(secs);
    push_str(&mut s, d.as_str());
    push_str(&mut s, " sn) aştı ve zaman aşımı korumasıyla durduruldu.\n");
    s
}

/// The line the engine writes when it kills a run for exceeding `secs` seconds
/// (0 when no limit was given).
pub fn engine_timeout_notice(secs: Option<u64>) -> (r: String)
    ensures
        r@ == "\n[BenchHub] ⏱ Timeout: Benchmark exceeded maximum duration ("@ + dec(
            match secs {
                Some(n) => n as nat,
                None => 0,
            },
        ) + " s) and was terminated.\n"@,
{
    let n: u64 = match secs {
        Some(n) => n,
        None => 0,
    };
    let mut s = string_from("\n[BenchHub] ⏱ Timeout: Benchmark exceeded maximum duration (");
    let d = dec_string(n);
    push_str(&mut s, d.as_str());
    push_str(&mut s, " s) and was terminated.\n");
    s
}

/// The line the engine writes when the user stops a run.
pub const STOPPED_BY_USER_NOTICE: &'static str = "\n[BenchHub] ⏹ Benchmark stopped by user.\n";

/// The line written before a benchmark starts: the executable, its arguments as
/// `Debug` renders them, and its directory, in English or Turkish.
pub open spec fn launch_text(english: bool, exe: Seq<char>, rendered_args: Seq<char>, dir: Seq<char>)
    -> Seq<char> {
    if english {
        "[BenchHub] Running: "@ + exe + " "@ + rendered_args + " (Directory: "@ + dir + ")\n"@
    } else {
        "[BenchHub] Çalıştırılıyor: "@ + exe + " "@ + rendered_args + " (Dizin: "@ + dir + ")\n"@
    }
}

/// The line written before a benchmark starts, from the rendered arguments.
pub fn launch_line_from(english: bool, exe: &str, rendered_args: &str, dir: &str) -> (r: String)
    ensures
        r@ == launch_text(english, exe@, rendered_args@, dir@),
{
    let mut s = if english {
        string_from("[BenchHub] Running: ")
    } else {
        string_from("[BenchHub] Çalıştırılıyor: ")
    };
    push_str(&mut s, exe);
    push_str(&mut s, " ");
    push_str(&mut s, rendered_args);
    if english {
        push_str(&mut s, " (Directory: ");
    } else {
        push_str(&mut s, " (Dizin: ");
    }
    push_str(&mut s, dir);
    push_str(&mut s, ")\n");
    s
}

/// The line written before a benchmark starts with arguments `args`, in the
/// current language.
pub fn launch_line(i18n: &I18n, exe: &str, args: &Vec<String>, dir: &str) -> (r: String)
    ensures
        r@ == launch_text(
            i18n.language() == Language::En,
            exe@,
            debug_string_list(args.deep_view()),
            dir@,
        ),
{
    let rendered = debug_list(args);
    launch_line_from(i18n.is_english(), exe, rendered.as_str(), dir)
}

} // verus!
