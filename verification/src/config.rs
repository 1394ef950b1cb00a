//! Application settings: defaults, the rules that keep them within bounds, and
//! the labels of the test-duration limit.

use vstd::prelude::*;
use crate::models::{gpu_mode_label, gpu_mode_of, GpuMode};
use crate::text::{
    chars_of, contains, contains_str, dec_value, is_digit, lemma_absent_prefix, lemma_contains_at,
    str_is, string_from,
};

verus! {

pub const DEFAULT_TELEMETRY_INTERVAL_MS: u64 = 500;

pub const DEFAULT_TERMINAL_BUFFER_LINES: usize = 150;

pub const DEFAULT_SAVE_STOPPED_RUNS: bool = true;

pub const DEFAULT_SELECTED_GPU_MODE: &'static str = "Harici GPU (NVIDIA)";

pub const DEFAULT_MAX_TEST_DURATION_SECS: u64 = 600;

pub const MIN_TERMINAL_BUFFER_LINES: usize = 50;

pub const MAX_TERMINAL_BUFFER_LINES: usize = 1000;

/// The telemetry sampling intervals the settings accept.
pub open spec fn is_valid_telemetry_interval(ms: u64) -> bool {
    ms == 250 || ms == 500 || ms == 1000 || ms == 2000
}

/// The test-duration limits the settings accept (0 is unlimited).
pub open spec fn is_valid_max_test_duration(secs: u64) -> bool {
    secs == 0 || secs == 60 || secs == 120 || secs == 180 || secs == 300 || secs == 600
}

/// The label that a GPU mode is stored under after sanitising.
pub open spec fn normalized_gpu_label(m: GpuMode) -> Seq<char> {
    match m {
        GpuMode::Auto => "System Default"@,
        _ => gpu_mode_label(m),
    }
}

/// The language code that a stored language becomes after sanitising.
pub open spec fn normalized_language(lang: Seq<char>) -> Seq<char> {
    if lang == "tr"@ || lang == "en"@ {
        lang
    } else if lang == "English"@ {
        "en"@
    } else {
        "tr"@
    }
}

/// `x` limited to `[lo, hi]`.
pub open spec fn clamp(x: int, lo: int, hi: int) -> int {
    if x < lo {
        lo
    } else if x > hi {
        hi
    } else {
        x
    }
}

/// The persisted application settings.
#[derive(Debug, Clone, PartialEq, Eq)]
pub struct AppSettings {
    pub telemetry_interval_ms: u64,
    pub terminal_buffer_lines: usize,
    pub save_stopped_runs: bool,
    pub selected_gpu_mode: String,
    pub language: String,
    pub max_test_duration_secs: u64,
}

/// Settings that `sanitize` leaves as they are.
pub open spec fn settings_valid(s: AppSettings) -> bool {
    &&& is_valid_telemetry_interval(s.telemetry_interval_ms)
    &&& is_valid_max_test_duration(s.max_test_duration_secs)
    &&& MIN_TERMINAL_BUFFER_LINES <= s.terminal_buffer_lines <= MAX_TERMINAL_BUFFER_LINES
    &&& (s.selected_gpu_mode@ == "Harici GPU (NVIDIA)"@ || s.selected_gpu_mode@
        == "Dahili GPU (iGPU)"@ || s.selected_gpu_mode@ == "System Default"@)
    &&& (s.language@ == "tr"@ || s.language@ == "en"@)
}

pub(crate) fn default_telemetry_interval_ms() -> (r: u64)
    ensures
        r == DEFAULT_TELEMETRY_INTERVAL_MS,
{
    DEFAULT_TELEMETRY_INTERVAL_MS
}

pub(crate) fn default_terminal_buffer_lines() -> (r: usize)
    ensures
        r == DEFAULT_TERMINAL_BUFFER_LINES,
{
    DEFAULT_TERMINAL_BUFFER_LINES
}

pub(crate) fn default_save_stopped_runs() -> (r: bool)
    ensures
        r == DEFAULT_SAVE_STOPPED_RUNS,
{
    DEFAULT_SAVE_STOPPED_RUNS
}

pub(crate) fn default_selected_gpu_mode() -> (r: String)
    ensures
        r@ == "Harici GPU (NVIDIA)"@,
{
    string_from("Harici GPU (NVIDIA)")
}

pub(crate) fn default_language() -> (r: String)
    ensures
        r@ == "tr"@,
{
    string_from("tr")
}

pub(crate) fn default_max_test_duration_secs() -> (r: u64)
    ensures
        r == DEFAULT_MAX_TEST_DURATION_SECS,
{
    DEFAULT_MAX_TEST_DURATION_SECS
}

impl Default for AppSettings {
    fn default() -> (r: Self)
        ensures
            r.telemetry_interval_ms == 500,
            r.terminal_buffer_lines == 150,
            r.save_stopped_runs,
            r.selected_gpu_mode@ == "Harici GPU (NVIDIA)"@,
            r.language@ == "tr"@,
            r.max_test_duration_secs == 600,
    {
        AppSettings {
            telemetry_interval_ms: default_telemetry_interval_ms(),
            terminal_buffer_lines: default_terminal_buffer_lines(),
            save_stopped_runs: default_save_stopped_runs(),
            selected_gpu_mode: default_selected_gpu_mode(),
            language: default_language(),
            max_test_duration_secs: default_max_test_duration_secs(),
        }
    }
}

impl AppSettings {
    /// Validates and sanitizes settings values within allowed boundaries.
    pub fn sanitize(&mut self)
        ensures
            final(self).telemetry_interval_ms == (if is_valid_telemetry_interval(
                old(self).telemetry_interval_ms,
            ) {
                old(self).telemetry_interval_ms
            } else {
                DEFAULT_TELEMETRY_INTERVAL_MS
            }),
            final(self).max_test_duration_secs == (if is_valid_max_test_duration(
                old(self).max_test_duration_secs,
            ) {
                old(self).max_test_duration_secs
            } else {
                DEFAULT_MAX_TEST_DURATION_SECS
            }),
            final(self).terminal_buffer_lines == clamp(
                old(self).terminal_buffer_lines as int,
                MIN_TERMINAL_BUFFER_LINES as int,
                MAX_TERMINAL_BUFFER_LINES as int,
            ),
            final(self).save_stopped_runs == old(self).save_stopped_runs,
            final(self).selected_gpu_mode@ == normalized_gpu_label(
                gpu_mode_of(old(self).selected_gpu_mode@),
            ),
            final(self).language@ == normalized_language(old(self).language@),
            settings_valid(*final(self)),
    {
        let t = self.telemetry_interval_ms;
        if !(t == 250 || t == 500 || t == 1000 || t == 2000) {
            self.telemetry_interval_ms = DEFAULT_TELEMETRY_INTERVAL_MS;
        }
        let d = self.max_test_duration_secs;
        if !(d == 0 || d == 60 || d == 120 || d == 180 || d == 300 || d == 600) {
            self.max_test_duration_secs = DEFAULT_MAX_TEST_DURATION_SECS;
        }
        if self.terminal_buffer_lines < MIN_TERMINAL_BUFFER_LINES {
            self.terminal_buffer_lines = MIN_TERMINAL_BUFFER_LINES;
        } else if self.terminal_buffer_lines > MAX_TERMINAL_BUFFER_LINES {
            self.terminal_buffer_lines = MAX_TERMINAL_BUFFER_LINES;
        }
        let mode = GpuMode::from_display_str(self.selected_gpu_mode.as_str());
        let normalized = match mode {
            GpuMode::Auto => string_from("System Default"),
            _ => string_from(mode.to_display_str()),
        };
        self.selected_gpu_mode = normalized;
        let lang = self.language.as_str();
        if str_is(lang, "tr") || str_is(lang, "en") {
        } else if str_is(lang, "English") {
            self.language = string_from("en");
        } else {
            self.language = string_from("tr");
        }
    }
}

// ---------------------------------------------------------------------------
// Test-duration limit labels
// ---------------------------------------------------------------------------

/// The longest prefix of `s` made of ASCII digits.
pub open spec fn digit_prefix(s: Seq<char>) -> Seq<char>
    decreases s.len(),
{
    if s.len() == 0 || !is_digit(s[0]) {
        Seq::empty()
    } else {
        seq![s[0]] + digit_prefix(s.drop_first())
    }
}

/// The first run of ASCII digits in `s` (empty when `s` holds none).
pub open spec fn first_digit_run(s: Seq<char>) -> Seq<char>
    decreases s.len(),
{
    if s.len() == 0 {
        Seq::empty()
    } else if is_digit(s[0]) {
        digit_prefix(s)
    } else {
        first_digit_run(s.drop_first())
    }
}

/// Whether a label says that there is no limit.
pub open spec fn says_unlimited(s: Seq<char>) -> bool {
    contains(s, "Sınırsız"@) || contains(s, "Unlimited"@) || contains(s, "Süresiz"@) || contains(
        s,
        "Limit Yok"@,
    ) || contains(s, "No Limit"@)
}

/// The limit (in seconds, 0 for none) that a label selects: a known limit when the
/// label names one, else the first number in it when that fits in a `u64`, else 0.
pub open spec fn max_test_duration_of(s: Seq<char>) -> u64 {
    if contains(s, "600"@) {
        600
    } else if contains(s, "300"@) {
        300
    } else if contains(s, "180"@) {
        180
    } else if contains(s, "120"@) {
        120
    } else if contains(s, "60"@) {
        60
    } else if says_unlimited(s) {
        0
    } else {
        let ds = first_digit_run(s);
        if ds.len() == 0 || dec_value(ds) > u64::MAX {
            0
        } else {
            dec_value(ds) as u64
        }
    }
}

/// The label of a limit, in English when `is_en`, else in Turkish.
pub open spec fn max_test_duration_label(secs: u64, is_en: bool) -> Seq<char> {
    if secs == 60 {
        if is_en {
            "60 seconds (1 min)"@
        } else {
            "60 saniye (1 dk)"@
        }
    } else if secs == 120 {
        if is_en {
            "120 seconds (2 min)"@
        } else {
            "120 saniye (2 dk)"@
        }
    } else if secs == 180 {
        if is_en {
            "180 seconds (3 min)"@
        } else {
            "180 saniye (3 dk)"@
        }
    } else if secs == 300 {
        if is_en {
            "300 seconds (5 min - Recommended)"@
        } else {
            "300 saniye (5 dk - Önerilen)"@
        }
    } else if secs == 600 {
        if is_en {
            "600 seconds (10 min)"@
        } else {
            "600 saniye (10 dk)"@
        }
    } else if is_en {
        "Unlimited (No Limit)"@
    } else {
        "Sınırsız (Limit Yok)"@
    }
}

proof fn lemma_first_digit_run_skip(s: Seq<char>, i: int)
    requires
        0 <= i <= s.len(),
        forall|k: int| 0 <= k < i ==> !is_digit(#[trigger] s[k]),
    ensures
        first_digit_run(s) == first_digit_run(s.skip(i)),
    decreases i,
{
    if i > 0 {
        assert(!is_digit(s[0]));
        let t = s.drop_first();
        assert forall|k: int| 0 <= k < i - 1 implies !is_digit(#[trigger] t[k]) by {
            assert(t[k] == s[k + 1]);
        }
        lemma_first_digit_run_skip(t, i - 1);
        assert(t.skip(i - 1) =~= s.skip(i));
    } else {
        assert(s.skip(0) =~= s);
    }
}

pub(crate) proof fn lemma_digit_prefix_take(s: Seq<char>, k: int)
    requires
        0 <= k <= s.len(),
        forall|i: int| 0 <= i < k ==> is_digit(#[trigger] s[i]),
        k < s.len() ==> !is_digit(s[k]),
    ensures
        digit_prefix(s) == s.take(k),
    decreases k,
{
    if k == 0 {
        assert(s.take(0) =~= Seq::<char>::empty());
    } else {
        let t = s.drop_first();
        assert forall|i: int| 0 <= i < k - 1 implies is_digit(#[trigger] t[i]) by {
            assert(t[i] == s[i + 1]);
        }
        lemma_digit_prefix_take(t, k - 1);
        assert(seq![s[0]] + t.take(k - 1) =~= s.take(k));
    }
}

/// The number that the first run of digits in `s` denotes, or 0 when there is none or
/// it does not fit in a `u64`.
fn first_number(s: &[char]) -> (r: u64)
    ensures
        r == (if first_digit_run(s@).len() == 0 || dec_value(first_digit_run(s@)) > u64::MAX {
            0
        } else {
            dec_value(first_digit_run(s@)) as u64
        }),
{
    let n = s.len();
    let mut i: usize = 0;
    while i < n && !('0' <= s[i] && s[i] <= '9')
        invariant
            n == s@.len(),
            i <= n,
            forall|k: int| 0 <= k < i ==> !is_digit(#[trigger] s@[k]),
        decreases n - i,
    {
        i += 1;
    }
    proof {
        lemma_first_digit_run_skip(s@, i as int);
    }
    if i == n {
        assert(s@.skip(i as int).len() == 0);
        return 0;
    }
    let start = i;
    let mut value: u64 = 0;
    let mut overflow = false;
    let mut j: usize = i;
    while j < n && '0' <= s[j] && s[j] <= '9'
        invariant
            n == s@.len(),
            start <= j <= n,
            forall|k: int| start <= k < j ==> is_digit(#[trigger] s@[k]),
            !overflow ==> value as nat == dec_value(s@.subrange(start as int, j as int)),
            overflow ==> dec_value(s@.subrange(start as int, j as int)) > u64::MAX,
        decreases n - j,
    {
        let d: u64 = (s[j] as u32 - 48) as u64;
        let ghost prev = s@.subrange(start as int, j as int);
        assert(s@.subrange(start as int, j + 1).drop_last() =~= prev);
        assert(s@.subrange(start as int, j + 1).last() == s@[j as int]);
        if !overflow {
            if value > (u64::MAX - d) / 10 {
                overflow = true;
                assert(value * 10 + d > u64::MAX) by (nonlinear_arith)
                    requires
                        value > (u64::MAX - d) / 10,
                        d < 10,
                ;
            } else {
                assert(value * 10 + d <= u64::MAX) by (nonlinear_arith)
                    requires
                        value <= (u64::MAX - d) / 10,
                        d < 10,
                ;
                value = value * 10 + d;
            }
        } else {
            assert(dec_value(prev) * 10 + d >= dec_value(prev)) by (nonlinear_arith);
        }
        j += 1;
    }
    proof {
        let x = s@.skip(start as int);
        let k = (j - start) as int;
        assert forall|m: int| 0 <= m < k implies is_digit(#[trigger] x[m]) by {
            assert(x[m] == s@[start + m]);
        }
        if k < x.len() {
            assert(x[k] == s@[j as int]);
        }
        assert(is_digit(x[0]));
        lemma_digit_prefix_take(x, k);
        assert(x.take(k) =~= s@.subrange(start as int, j as int));
        assert(first_digit_run(x) == digit_prefix(x));
    }
    if overflow {
        0
    } else {
        value
    }
}

/// Reads a test-duration label back into a limit in seconds (0 for none).
pub fn parse_max_test_duration(s: &str) -> (r: u64)
    ensures
        r == max_test_duration_of(s@),
{
    let v = chars_of(s);
    let c = v.as_slice();
    if contains_str(c, "600") {
        600
    } else if contains_str(c, "300") {
        300
    } else if contains_str(c, "180") {
        180
    } else if contains_str(c, "120") {
        120
    } else if contains_str(c, "60") {
        60
    } else if contains_str(c, "Sınırsız") || contains_str(c, "Unlimited") || contains_str(
        c,
        "Süresiz",
    ) || contains_str(c, "Limit Yok") || contains_str(c, "No Limit") {
        0
    } else {
        first_number(c)
    }
}

/// The label of a test-duration limit in the language `lang` (`"en"` for English,
/// else Turkish).
pub fn format_max_test_duration(secs: u64, lang: &str) -> (r: String)
    ensures
        r@ == max_test_duration_label(secs, lang@ == "en"@),
{
    let is_en = str_is(lang, "en");
    if secs == 60 {
        if is_en {
            string_from("60 seconds (1 min)")
        } else {
            string_from("60 saniye (1 dk)")
        }
    } else if secs == 120 {
        if is_en {
            string_from("120 seconds (2 min)")
        } else {
            string_from("120 saniye (2 dk)")
        }
    } else if secs == 180 {
        if is_en {
            string_from("180 seconds (3 min)")
        } else {
            string_from("180 saniye (3 dk)")
        }
    } else if secs == 300 {
        if is_en {
            string_from("300 seconds (5 min - Recommended)")
        } else {
            string_from("300 saniye (5 dk - Önerilen)")
        }
    } else if secs == 600 {
        if is_en {
            string_from("600 seconds (10 min)")
        } else {
            string_from("600 saniye (10 dk)")
        }
    } else if is_en {
        string_from("Unlimited (No Limit)")
    } else {
        string_from("Sınırsız (Limit Yok)")
    }
}

// ---------------------------------------------------------------------------
// Laws
// ---------------------------------------------------------------------------

/// Reading back the label of an accepted test-duration limit, in either language,
/// gives the same limit.
pub proof fn lemma_max_test_duration_round_trip(secs: u64, is_en: bool)
    requires
        is_valid_max_test_duration(secs),
    ensures
        max_test_duration_of(max_test_duration_label(secs, is_en)) == secs,
{
    reveal_strlit("600");
    reveal_strlit("300");
    reveal_strlit("180");
    reveal_strlit("120");
    reveal_strlit("60");
    reveal_strlit("Unlimited");
    reveal_strlit("Sınırsız");
    let l = max_test_duration_label(secs, is_en);
    if secs == 600 {
        reveal_strlit("600 seconds (10 min)");
        reveal_strlit("600 saniye (10 dk)");
        lemma_contains_at(l, "600"@, 0);
    } else if secs == 300 {
        reveal_strlit("300 seconds (5 min - Recommended)");
        reveal_strlit("300 saniye (5 dk - Önerilen)");
        lemma_absent_prefix(l, "600"@, 1);
        lemma_contains_at(l, "300"@, 0);
    } else if secs == 180 {
        reveal_strlit("180 seconds (3 min)");
        reveal_strlit("180 saniye (3 dk)");
        lemma_absent_prefix(l, "600"@, 1);
        lemma_absent_prefix(l, "300"@, 2);
        lemma_contains_at(l, "180"@, 0);
    } else if secs == 120 {
        reveal_strlit("120 seconds (2 min)");
        reveal_strlit("120 saniye (2 dk)");
        lemma_absent_prefix(l, "600"@, 1);
        lemma_absent_prefix(l, "300"@, 1);
        lemma_absent_prefix(l, "180"@, 2);
        lemma_contains_at(l, "120"@, 0);
    } else if secs == 60 {
        reveal_strlit("60 seconds (1 min)");
        reveal_strlit("60 saniye (1 dk)");
        lemma_absent_prefix(l, "600"@, 3);
        lemma_absent_prefix(l, "300"@, 1);
        lemma_absent_prefix(l, "180"@, 2);
        lemma_absent_prefix(l, "120"@, 2);
        lemma_contains_at(l, "60"@, 0);
    } else {
        reveal_strlit("Unlimited (No Limit)");
        reveal_strlit("Sınırsız (Limit Yok)");
        lemma_absent_prefix(l, "600"@, 1);
        lemma_absent_prefix(l, "300"@, 1);
        lemma_absent_prefix(l, "180"@, 1);
        lemma_absent_prefix(l, "120"@, 1);
        lemma_absent_prefix(l, "60"@, 1);
        if is_en {
            lemma_contains_at(l, "Unlimited"@, 0);
        } else {
            lemma_contains_at(l, "Sınırsız"@, 0);
        }
    }
}

/// Sanitizing settings that are already valid changes none of their fields.
pub proof fn lemma_sanitize_keeps_valid(s: AppSettings)
    requires
        settings_valid(s),
    ensures
        is_valid_telemetry_interval(s.telemetry_interval_ms),
        is_valid_max_test_duration(s.max_test_duration_secs),
        clamp(
            s.terminal_buffer_lines as int,
            MIN_TERMINAL_BUFFER_LINES as int,
            MAX_TERMINAL_BUFFER_LINES as int,
        ) == s.terminal_buffer_lines,
        normalized_gpu_label(gpu_mode_of(s.selected_gpu_mode@)) == s.selected_gpu_mode@,
        normalized_language(s.language@) == s.language@,
{
    crate::models::lemma_gpu_mode_label_round_trip(GpuMode::NvidiaDgpu);
    crate::models::lemma_gpu_mode_label_round_trip(GpuMode::Integrated);
}

} // verus!
