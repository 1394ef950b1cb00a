//! The application settings as menus show them: the options each menu offers,
//! which value a chosen label selects, where that value stands in its menu, the
//! label a stored value is shown with, and the status line confirming a change.
use vstd::prelude::*;
use crate::bench_config::{
    bench_duration_label, bench_duration_of, format_bench_duration, lemma_bench_duration_round_trip,
};
use crate::config::{
    format_max_test_duration, is_valid_telemetry_interval, lemma_max_test_duration_round_trip,
    max_test_duration_label, max_test_duration_of, settings_valid, AppSettings,
};
use crate::i18n::{t, I18n, Language};
use crate::models::{gpu_mode_of, GpuMode};
use crate::settings_dialog::named_status;
use crate::text::{contains, dec, dec_string, push_str, replace_seq, str_contains, string_from};

verus! {

// ---------------------------------------------------------------------------
// Telemetry interval
// ---------------------------------------------------------------------------

/// The sampling interval (ms) a label selects: 250, 1000 or 2000 when the label
/// names it, else 500.
pub open spec fn interval_of(label: Seq<char>) -> u64 {
    if contains(label, "250"@) {
        250
    } else if contains(label, "1000"@) || contains(label, "1 "@) || contains(label, "1s"@) {
        1000
    } else if contains(label, "2000"@) || contains(label, "2 "@) || contains(label, "2s"@) {
        2000
    } else {
        500
    }
}

/// The position of a sampling interval in its menu.
pub open spec fn interval_index(ms: u64) -> u32 {
    if ms == 250 {
        0
    } else if ms == 1000 {
        2
    } else if ms == 2000 {
        3
    } else {
        1
    }
}

/// The dictionary key of the label of a sampling interval.
pub open spec fn interval_key(ms: u64) -> Seq<char> {
    if ms == 250 {
        "interval_250"@
    } else if ms == 1000 {
        "interval_1000"@
    } else if ms == 2000 {
        "interval_2000"@
    } else {
        "interval_500"@
    }
}

/// The sampling interval a menu label selects, and its position in the menu.
pub fn interval_choice(label: &str) -> (r: (u64, u32))
    ensures
        r.0 == interval_of(label@),
        r.1 == interval_index(r.0),
{
    let ms: u64 = if str_contains(label, "250") {
        250
    } else if str_contains(label, "1000") || str_contains(label, "1 ") || str_contains(label, "1s") {
        1000
    } else if str_contains(label, "2000") || str_contains(label, "2 ") || str_contains(label, "2s") {
        2000
    } else {
        500
    };
    let idx: u32 = if ms == 250 {
        0
    } else if ms == 1000 {
        2
    } else if ms == 2000 {
        3
    } else {
        1
    };
    (ms, idx)
}

/// The label a stored sampling interval is shown with, and its position.
pub fn interval_display(i18n: &I18n, ms: u64) -> (r: (String, u32))
    ensures
        r.0@ == i18n.text_for(interval_key(ms)),
        r.1 == interval_index(ms),
{
    if ms == 250 {
        (t(i18n, "interval_250"), 0)
    } else if ms == 1000 {
        (t(i18n, "interval_1000"), 2)
    } else if ms == 2000 {
        (t(i18n, "interval_2000"), 3)
    } else {
        (t(i18n, "interval_500"), 1)
    }
}

// ---------------------------------------------------------------------------
// Terminal buffer
// ---------------------------------------------------------------------------

/// The number of terminal lines kept that a label selects: 80, 300 or 500 when
/// the label names it, else 150.
pub open spec fn line_limit_of(label: Seq<char>) -> usize {
    if contains(label, "80"@) {
        80
    } else if contains(label, "300"@) {
        300
    } else if contains(label, "500"@) {
        500
    } else {
        150
    }
}

/// The position of a terminal line limit in its menu.
pub open spec fn line_limit_index(lines: usize) -> u32 {
    if lines == 80 {
        0
    } else if lines == 300 {
        2
    } else if lines == 500 {
        3
    } else {
        1
    }
}

/// The dictionary key of the label of a terminal line limit.
pub open spec fn line_limit_key(lines: usize) -> Seq<char> {
    if lines == 80 {
        "limit_80"@
    } else if lines == 300 {
        "limit_300"@
    } else if lines == 500 {
        "limit_500"@
    } else {
        "limit_150"@
    }
}

/// The terminal line limit a menu label selects, and its position in the menu.
pub fn line_limit_choice(label: &str) -> (r: (usize, u32))
    ensures
        r.0 == line_limit_of(label@),
        r.1 == line_limit_index(r.0),
{
    if str_contains(label, "80") {
        (80, 0)
    } else if str_contains(label, "300") {
        (300, 2)
    } else if str_contains(label, "500") {
        (500, 3)
    } else {
        (150, 1)
    }
}

/// The label a stored terminal line limit is shown with, and its position.
pub fn line_limit_display(i18n: &I18n, lines: usize) -> (r: (String, u32))
    ensures
        r.0@ == i18n.text_for(line_limit_key(lines)),
        r.1 == line_limit_index(lines),
{
    if lines == 80 {
        (t(i18n, "limit_80"), 0)
    } else if lines == 300 {
        (t(i18n, "limit_300"), 2)
    } else if lines == 500 {
        (t(i18n, "limit_500"), 3)
    } else {
        (t(i18n, "limit_150"), 1)
    }
}

// ---------------------------------------------------------------------------
// Stopped runs
// ---------------------------------------------------------------------------

/// Whether a label chooses to keep stopped runs: unless it says not to.
pub open spec fn keeps_stopped_runs(label: Seq<char>) -> bool {
    !contains(label, "Kaydetme"@) && !contains(label, "Do Not Save"@) && !contains(label, "Ignore"@)
}

/// Whether stopped runs are kept, as a menu label chooses, and its position.
pub fn save_stopped_choice(label: &str) -> (r: (bool, u32))
    ensures
        r.0 == keeps_stopped_runs(label@),
        r.1 == (if r.0 {
            0u32
        } else {
            1u32
        }),
{
    let keep = !str_contains(label, "Kaydetme") && !str_contains(label, "Do Not Save")
        && !str_contains(label, "Ignore");
    (keep, if keep {
        0
    } else {
        1
    })
}

/// The label the stopped-runs setting is shown with, and its position.
pub fn save_stopped_display(i18n: &I18n, keep: bool) -> (r: (String, u32))
    ensures
        r.0@ == i18n.text_for(
            if keep {
                "save_stopped_yes"@
            } else {
                "save_stopped_no"@
            },
        ),
        r.1 == (if keep {
            0u32
        } else {
            1u32
        }),
{
    if keep {
        (t(i18n, "save_stopped_yes"), 0)
    } else {
        (t(i18n, "save_stopped_no"), 1)
    }
}

/// The status line after the stopped-runs setting changed.
pub fn save_stopped_message(i18n: &I18n, keep: bool) -> (r: String)
    ensures
        r@ == i18n.text_for(
            if keep {
                "status_save_stopped_on"@
            } else {
                "status_save_stopped_off"@
            },
        ),
{
    if keep {
        t(i18n, "status_save_stopped_on")
    } else {
        t(i18n, "status_save_stopped_off")
    }
}

// ---------------------------------------------------------------------------
// Test-duration limit
// ---------------------------------------------------------------------------

/// The position of a test-duration limit in its menu (the recommended 300 s for
/// a limit the menu does not offer).
pub open spec fn max_duration_index(secs: u64) -> u32 {
    if secs == 0 {
        0
    } else if secs == 60 {
        1
    } else if secs == 120 {
        2
    } else if secs == 180 {
        3
    } else if secs == 600 {
        5
    } else {
        4
    }
}

/// The position of a test-duration limit in its menu.
pub fn max_duration_position(secs: u64) -> (r: u32)
    ensures
        r == max_duration_index(secs),
{
    if secs == 0 {
        0
    } else if secs == 60 {
        1
    } else if secs == 120 {
        2
    } else if secs == 180 {
        3
    } else if secs == 600 {
        5
    } else {
        4
    }
}

/// The status line after the test-duration limit changed: the limit in seconds,
/// or that there is none.
pub fn max_duration_message(i18n: &I18n, secs: u64) -> (r: String)
    ensures
        r@ == if secs > 0 {
            i18n.text_for("status_max_duration_set"@) + ": "@ + dec(secs as nat) + " sn"@
        } else {
            i18n.text_for("status_max_duration_unlimited"@)
        },
{
    if secs > 0 {
        let mut s = t(i18n, "status_max_duration_set");
        push_str(&mut s, ": ");
        let d = dec_string(secs);
        push_str(&mut s, d.as_str());
        push_str(&mut s, " sn");
        s
    } else {
        t(i18n, "status_max_duration_unlimited")
    }
}

// ---------------------------------------------------------------------------
// GPU mode and language
// ---------------------------------------------------------------------------

/// The position of a GPU mode in its menu.
pub open spec fn gpu_mode_index(m: GpuMode) -> u32 {
    match m {
        GpuMode::NvidiaDgpu => 0,
        GpuMode::Integrated => 1,
        GpuMode::Auto => 2,
    }
}

/// The GPU mode a menu label selects, and its position in the menu.
pub fn gpu_mode_choice(label: &str) -> (r: (GpuMode, u32))
    ensures
        r.0 == gpu_mode_of(label@),
        r.1 == gpu_mode_index(r.0),
{
    let m = GpuMode::from_display_str(label);
    let idx: u32 = match m {
        GpuMode::NvidiaDgpu => 0,
        GpuMode::Integrated => 1,
        GpuMode::Auto => 2,
    };
    (m, idx)
}

/// The label a stored GPU mode is shown with, in the current language, and its
/// position.
pub fn gpu_mode_display(i18n: &I18n, stored: &str) -> (r: (String, u32))
    ensures
        r.0@ == i18n.text_for(
            match gpu_mode_of(stored@) {
                GpuMode::NvidiaDgpu => "gpu_mode_nvidia"@,
                GpuMode::Integrated => "gpu_mode_igpu"@,
                GpuMode::Auto => "gpu_mode_default"@,
            },
        ),
        r.1 == gpu_mode_index(gpu_mode_of(stored@)),
{
    match GpuMode::from_display_str(stored) {
        GpuMode::NvidiaDgpu => (t(i18n, "gpu_mode_nvidia"), 0),
        GpuMode::Integrated => (t(i18n, "gpu_mode_igpu"), 1),
        GpuMode::Auto => (t(i18n, "gpu_mode_default"), 2),
    }
}

/// The language menu's label and position for a language code ("en" is English,
/// anything else Turkish).
pub fn language_display(code: &str) -> (r: (&'static str, u32))
    ensures
        code@ == "en"@ ==> r.0@ == "English"@ && r.1 == 1,
        code@ != "en"@ ==> r.0@ == "Türkçe"@ && r.1 == 0,
{
    if crate::text::str_is(code, "en") {
        ("English", 1)
    } else {
        ("Türkçe", 0)
    }
}

/// A status line naming the new value of a setting: the dictionary entry `key`
/// with each `{}` replaced by `value`.
pub fn setting_changed_message(i18n: &I18n, key: &str, value: &str) -> (r: String)
    ensures
        r@ == replace_seq(i18n.text_for(key@), "{}"@, value@),
{
    named_status(i18n, key, value)
}

// ---------------------------------------------------------------------------
// Laws
// ---------------------------------------------------------------------------

/// Whatever label is chosen, the sampling interval, terminal limit and GPU mode
/// it selects keep valid settings valid, and each value's menu position leads
/// back to it.
pub proof fn lemma_menu_choices_keep_settings_valid(
    s: AppSettings,
    interval_label: Seq<char>,
    limit_label: Seq<char>,
    keep_label: Seq<char>,
)
    requires
        settings_valid(s),
    ensures
        is_valid_telemetry_interval(interval_of(interval_label)),
        settings_valid(AppSettings { telemetry_interval_ms: interval_of(interval_label), ..s }),
        settings_valid(AppSettings { terminal_buffer_lines: line_limit_of(limit_label), ..s }),
        settings_valid(AppSettings { save_stopped_runs: keeps_stopped_runs(keep_label), ..s }),
        interval_index(interval_of(interval_label)) < 4,
        line_limit_index(line_limit_of(limit_label)) < 4,
        forall|ms: u64| #[trigger]
            is_valid_telemetry_interval(ms) ==> interval_of_index(interval_index(ms)) == ms,
        forall|n: usize|
            (n == 80 || n == 150 || n == 300 || n == 500) ==> line_limit_of_index(
                #[trigger] line_limit_index(n),
            ) == n,
{
}

/// The sampling interval at each position of its menu.
pub open spec fn interval_of_index(i: u32) -> u64 {
    if i == 0 {
        250
    } else if i == 2 {
        1000
    } else if i == 3 {
        2000
    } else {
        500
    }
}

/// The terminal line limit at each position of its menu.
pub open spec fn line_limit_of_index(i: u32) -> usize {
    if i == 0 {
        80
    } else if i == 2 {
        300
    } else if i == 3 {
        500
    } else {
        150
    }
}

// ---------------------------------------------------------------------------
// The options of each menu
// ---------------------------------------------------------------------------

/// The texts of the dictionary entries `keys`, in order.
pub open spec fn texts(i: I18n, keys: Seq<Seq<char>>) -> Seq<Seq<char>> {
    keys.map_values(|k: Seq<char>| i.text_for(k))
}

fn texts_of(i18n: &I18n, keys: &[&str]) -> (r: Vec<String>)
    ensures
        r.deep_view() == texts(*i18n, keys@.map_values(|k: &str| k@)),
{
    let ghost ks = keys@.map_values(|k: &str| k@);
    let mut r: Vec<String> = Vec::new();
    let mut i: usize = 0;
    while i < keys.len()
        invariant
            ks == keys@.map_values(|k: &str| k@),
            i <= keys@.len(),
            r.deep_view() == texts(*i18n, ks.take(i as int)),
        decreases keys@.len() - i,
    {
        r.push(t(i18n, keys[i]));
        assert(texts(*i18n, ks.take(i + 1)) =~= texts(*i18n, ks.take(i as int)).push(
            i18n.text_for(keys@[i as int]@),
        ));
        i += 1;
    }
    assert(ks.take(i as int) =~= ks);
    r
}

/// The GPU-mode menu: the detected NVIDIA and integrated GPUs by name when known,
/// then "Auto".
pub fn gpu_mode_options(dgpu: Option<&str>, igpu: Option<&str>) -> (r: Vec<String>)
    ensures
        r.deep_view() == seq![
            match dgpu {
                Some(n) => "dGPU ("@ + n@ + ")"@,
                None => "dGPU (NVIDIA)"@,
            },
            match igpu {
                Some(n) => "iGPU ("@ + n@ + ")"@,
                None => "iGPU"@,
            },
            "Auto"@,
        ],
{
    let d = match dgpu {
        Some(n) => {
            let mut s = string_from("dGPU (");
            push_str(&mut s, n);
            push_str(&mut s, ")");
            s
        },
        None => string_from("dGPU (NVIDIA)"),
    };
    let g = match igpu {
        Some(n) => {
            let mut s = string_from("iGPU (");
            push_str(&mut s, n);
            push_str(&mut s, ")");
            s
        },
        None => string_from("iGPU"),
    };
    let r = vec![d, g, string_from("Auto")];
    assert(r.deep_view() =~= seq![r@[0]@, r@[1]@, r@[2]@]);
    r
}

/// The limits the test-duration menu offers, in order.
pub open spec fn offered_max_durations() -> Seq<u64> {
    seq![0u64, 60, 120, 180, 300, 600]
}

/// The time limits the per-benchmark menu offers, in order.
pub open spec fn offered_bench_durations() -> Seq<Option<u64>> {
    seq![None, Some(0u64), Some(30), Some(60), Some(120), Some(180), Some(300), Some(600)]
}

/// The options of every menu, in the current language.
pub struct MenuOptions {
    pub history_categories: Vec<String>,
    pub history_gpu_modes: Vec<String>,
    pub history_statuses: Vec<String>,
    pub history_sort_options: Vec<String>,
    pub telemetry_intervals: Vec<String>,
    pub terminal_limits: Vec<String>,
    pub save_stopped_options: Vec<String>,
    pub max_duration_options: Vec<String>,
    pub languages: Vec<String>,
    pub bench_duration_options: Vec<String>,
    pub ffmpeg_sources: Vec<String>,
    pub ffmpeg_durations: Vec<String>,
    pub seven_zip_dict_sizes: Vec<String>,
}

/// The options of every menu, in the current language.
pub fn menu_options(i18n: &I18n) -> (r: MenuOptions)
    ensures
        r.history_categories.deep_view() == texts(*i18n, seq!["cat_all"@, "cat_cpu"@, "cat_gpu"@]),
        r.history_gpu_modes.deep_view() == texts(
            *i18n,
            seq!["gpu_filter_all"@, "gpu_filter_nvidia"@, "gpu_filter_igpu"@, "gpu_filter_default"@],
        ),
        r.history_statuses.deep_view() == texts(
            *i18n,
            seq!["status_all"@, "status_completed"@, "status_error"@, "status_cancelled"@],
        ),
        r.history_sort_options.deep_view() == texts(
            *i18n,
            seq![
                "sort_date_desc"@,
                "sort_date_asc"@,
                "sort_score_desc"@,
                "sort_score_asc"@,
                "sort_duration_asc"@,
            ],
        ),
        r.telemetry_intervals.deep_view() == texts(
            *i18n,
            seq!["interval_250"@, "interval_500"@, "interval_1000"@, "interval_2000"@],
        ),
        r.terminal_limits.deep_view() == texts(
            *i18n,
            seq!["limit_80"@, "limit_150"@, "limit_300"@, "limit_500"@],
        ),
        r.save_stopped_options.deep_view() == texts(
            *i18n,
            seq!["save_stopped_yes"@, "save_stopped_no"@],
        ),
        r.max_duration_options.deep_view() == offered_max_durations().map_values(
            |secs: u64| max_test_duration_label(secs, i18n.language() == Language::En),
        ),
        r.languages.deep_view() == seq!["Türkçe"@, "English"@],
        r.bench_duration_options.deep_view() == offered_bench_durations().map_values(
            |o: Option<u64>| bench_duration_label(o, i18n.language() == Language::En),
        ),
        r.ffmpeg_sources.deep_view() == texts(
            *i18n,
            seq![
                "bench_settings_source_bunny"@,
                "bench_settings_source_tears"@,
                "bench_settings_source_synthetic"@,
            ],
        ),
        r.ffmpeg_durations.deep_view() == seq![
            i18n.text_for("bench_settings_dur_20s"@),
            "10s"@,
            "15s"@,
            "30s"@,
            "60s"@,
            i18n.text_for("bench_settings_dur_unlimited"@),
        ],
        r.seven_zip_dict_sizes.deep_view() == seq![
            i18n.text_for("bench_settings_dict_32mb"@),
            "64MB"@,
            "128MB"@,
            "256MB"@,
            "512MB"@,
            "1024MB (1 GB)"@,
        ],
{
    let is_en = i18n.is_english();
    let lang: &str = if is_en {
        "en"
    } else {
        "tr"
    };
    proof {
        reveal_strlit("en");
        reveal_strlit("tr");
        if !is_en {
            assert(lang@[0] != "en"@[0]);
        }
    }
    let history_categories = texts_of(i18n, &["cat_all", "cat_cpu", "cat_gpu"]);
    let history_gpu_modes = texts_of(
        i18n,
        &["gpu_filter_all", "gpu_filter_nvidia", "gpu_filter_igpu", "gpu_filter_default"],
    );
    let history_statuses = texts_of(
        i18n,
        &["status_all", "status_completed", "status_error", "status_cancelled"],
    );
    let history_sort_options = texts_of(
        i18n,
        &["sort_date_desc", "sort_date_asc", "sort_score_desc", "sort_score_asc", "sort_duration_asc"],
    );
    let telemetry_intervals = texts_of(
        i18n,
        &["interval_250", "interval_500", "interval_1000", "interval_2000"],
    );
    let terminal_limits = texts_of(i18n, &["limit_80", "limit_150", "limit_300", "limit_500"]);
    let save_stopped_options = texts_of(i18n, &["save_stopped_yes", "save_stopped_no"]);
    let mut max_duration_options: Vec<String> = Vec::new();
    let durations: [u64; 6] = [0, 60, 120, 180, 300, 600];
    let mut i: usize = 0;
    while i < 6
        invariant
            i <= 6,
            durations@ == offered_max_durations(),
            lang@ == "en"@ <==> i18n.language() == Language::En,
            max_duration_options.deep_view() == offered_max_durations().take(i as int).map_values(
                |secs: u64| max_test_duration_label(secs, i18n.language() == Language::En),
            ),
        decreases 6 - i,
    {
        let label = format_max_test_duration(durations[i], lang);
        proof {
            let f = |secs: u64| max_test_duration_label(secs, i18n.language() == Language::En);
            let o = offered_max_durations();
            assert(o.take(i + 1) =~= o.take(i as int).push(durations@[i as int]));
            assert(o.take(i + 1).map_values(f) =~= o.take(i as int).map_values(f).push(
                f(durations@[i as int]),
            ));
        }
        max_duration_options.push(label);
        i += 1;
    }
    assert(offered_max_durations().take(6) =~= offered_max_durations());
    let mut bench_duration_options: Vec<String> = Vec::new();
    let choices: [Option<u64>; 8] = [
        None,
        Some(0),
        Some(30),
        Some(60),
        Some(120),
        Some(180),
        Some(300),
        Some(600),
    ];
    let mut j: usize = 0;
    while j < 8
        invariant
            j <= 8,
            choices@ == offered_bench_durations(),
            lang@ == "en"@ <==> i18n.language() == Language::En,
            bench_duration_options.deep_view() == offered_bench_durations().take(j as int).map_values(
                |o: Option<u64>| bench_duration_label(o, i18n.language() == Language::En),
            ),
        decreases 8 - j,
    {
        let label = format_bench_duration(choices[j], lang);
        proof {
            let f = |o: Option<u64>| bench_duration_label(o, i18n.language() == Language::En);
            let o = offered_bench_durations();
            assert(o.take(j + 1) =~= o.take(j as int).push(choices@[j as int]));
            assert(o.take(j + 1).map_values(f) =~= o.take(j as int).map_values(f).push(
                f(choices@[j as int]),
            ));
        }
        bench_duration_options.push(label);
        j += 1;
    }
    assert(offered_bench_durations().take(8) =~= offered_bench_durations());
    let languages = vec![string_from("Türkçe"), string_from("English")];
    assert(languages.deep_view() =~= seq!["Türkçe"@, "English"@]);
    let ffmpeg_sources = texts_of(
        i18n,
        &["bench_settings_source_bunny", "bench_settings_source_tears", "bench_settings_source_synthetic"],
    );
    let ffmpeg_durations = vec![
        t(i18n, "bench_settings_dur_20s"),
        string_from("10s"),
        string_from("15s"),
        string_from("30s"),
        string_from("60s"),
        t(i18n, "bench_settings_dur_unlimited"),
    ];
    assert(ffmpeg_durations.deep_view() =~= seq![
        i18n.text_for("bench_settings_dur_20s"@),
        "10s"@,
        "15s"@,
        "30s"@,
        "60s"@,
        i18n.text_for("bench_settings_dur_unlimited"@),
    ]);
    let seven_zip_dict_sizes = vec![
        t(i18n, "bench_settings_dict_32mb"),
        string_from("64MB"),
        string_from("128MB"),
        string_from("256MB"),
        string_from("512MB"),
        string_from("1024MB (1 GB)"),
    ];
    assert(seven_zip_dict_sizes.deep_view() =~= seq![
        i18n.text_for("bench_settings_dict_32mb"@),
        "64MB"@,
        "128MB"@,
        "256MB"@,
        "512MB"@,
        "1024MB (1 GB)"@,
    ]);
    proof {
        assert(texts(*i18n, seq!["cat_all"@, "cat_cpu"@, "cat_gpu"@]) =~= texts(
            *i18n,
            seq!["cat_all", "cat_cpu", "cat_gpu"].map_values(|k: &str| k@),
        ));
    }
    MenuOptions {
        history_categories,
        history_gpu_modes,
        history_statuses,
        history_sort_options,
        telemetry_intervals,
        terminal_limits,
        save_stopped_options,
        max_duration_options,
        languages,
        bench_duration_options,
        ffmpeg_sources,
        ffmpeg_durations,
        seven_zip_dict_sizes,
    }
}

/// Each option of the test-duration menu, read back, selects the limit it
/// shows, that limit's menu position is the option's own, and choosing it keeps
/// valid settings valid.
pub proof fn lemma_duration_menu_reads_back(s: AppSettings, is_en: bool, i: int)
    requires
        settings_valid(s),
        0 <= i < 6,
    ensures
        max_test_duration_of(max_test_duration_label(offered_max_durations()[i], is_en))
            == offered_max_durations()[i],
        max_duration_index(offered_max_durations()[i]) == i,
        settings_valid(
            AppSettings {
                max_test_duration_secs: max_test_duration_of(
                    max_test_duration_label(offered_max_durations()[i], is_en),
                ),
                ..s
            },
        ),
{
    lemma_max_test_duration_round_trip(offered_max_durations()[i], is_en);
}

/// Each option of the per-benchmark time-limit menu, read back, selects the
/// limit it shows.
pub proof fn lemma_bench_duration_menu_reads_back(is_en: bool, i: int)
    requires
        0 <= i < 8,
    ensures
        bench_duration_of(bench_duration_label(offered_bench_durations()[i], is_en))
            == offered_bench_durations()[i],
{
    lemma_bench_duration_round_trip(offered_bench_durations()[i], is_en);
}

} // verus!
