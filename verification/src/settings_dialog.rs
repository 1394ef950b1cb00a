//! The per-benchmark settings dialog: the configuration stored from its fields,
//! the choices it offers, and the labels it shows.
use vstd::prelude::*;
use crate::bench_config::{
    ffmpeg_args, ffmpeg_crf_from_field, ffmpeg_duration_choice, ffmpeg_duration_from_choice,
    ffmpeg_preset_display, filter_safe_custom_args, safe_args, seven_zip_args,
    seven_zip_passes_from_field, seven_zip_preset_display, thread_count_from_field, u32_field,
    unigine_args, BenchmarkCustomConfig, FfmpegConfig, SevenZipConfig, UnigineConfig,
};
use crate::bench_config::is_heaven;
use crate::i18n::{t, I18n};
use crate::models::{profile_for_version, run_cmd_of, BenchmarkProfile};
use crate::text::{
    append_strings, chars_of, clone_strings, contains, debug_list, debug_string_list, dec,
    dec_string, lowercase, push_str,
    replace_seq, replace_str_chars, str_contains, str_is, string_from, string_of, to_lowercase,
    words,
};

verus! {

// ---------------------------------------------------------------------------
// The configuration stored when the dialog is saved
// ---------------------------------------------------------------------------

/// The CRF read from the dialog field (23 when unreadable), at most 51.
pub open spec fn crf_of_field(s: Seq<char>) -> u32 {
    match u32_field(s) {
        Some(n) => if n > 51 {
            51
        } else {
            n
        },
        None => 23,
    }
}

/// A thread count read from a dialog field (0 when unreadable), at most 128.
pub open spec fn threads_of_field(s: Seq<char>) -> u32 {
    match u32_field(s) {
        Some(n) => if n > 128 {
            128
        } else {
            n
        },
        None => 0,
    }
}

/// The 7-Zip passes read from the dialog field (1 when unreadable), in 1..=50.
pub open spec fn passes_of_field(s: Seq<char>) -> u32 {
    match u32_field(s) {
        Some(n) => if n < 1 {
            1
        } else if n > 50 {
            50
        } else {
            n
        },
        None => 1,
    }
}

/// The FFmpeg settings made of the dialog's fields.
pub fn ffmpeg_config_from_form(
    codec: &str,
    crf_field: &str,
    preset: &str,
    resolution: &str,
    input_source: &str,
    duration_choice: &str,
    threads_field: &str,
    custom_args: &str,
) -> (r: FfmpegConfig)
    ensures
        r.codec@ == codec@,
        r.crf == crf_of_field(crf_field@),
        r.preset@ == preset@,
        r.resolution@ == resolution@,
        r.input_source@ == input_source@,
        (r.duration_enabled, r.duration_secs) == ffmpeg_duration_choice(duration_choice@),
        r.threads == threads_of_field(threads_field@),
        r.custom_args@ == custom_args@,
{
    let (duration_enabled, duration_secs) = ffmpeg_duration_from_choice(duration_choice);
    FfmpegConfig {
        codec: String::from_str(codec),
        crf: ffmpeg_crf_from_field(crf_field),
        preset: String::from_str(preset),
        resolution: String::from_str(resolution),
        input_source: String::from_str(input_source),
        duration_enabled,
        duration_secs,
        threads: thread_count_from_field(threads_field),
        custom_args: String::from_str(custom_args),
    }
}

/// The 7-Zip settings made of the dialog's fields.
pub fn seven_zip_config_from_form(
    threads_field: &str,
    dict_size: &str,
    passes_field: &str,
    custom_args: &str,
) -> (r: SevenZipConfig)
    ensures
        r.threads == threads_of_field(threads_field@),
        r.dict_size@ == dict_size@,
        r.passes == passes_of_field(passes_field@),
        r.custom_args@ == custom_args@,
{
    SevenZipConfig {
        threads: thread_count_from_field(threads_field),
        dict_size: String::from_str(dict_size),
        passes: seven_zip_passes_from_field(passes_field),
        custom_args: String::from_str(custom_args),
    }
}

/// The stored FFmpeg configuration: the settings, their arguments and their
/// preset label, with the dialog's time limit.
pub fn ffmpeg_custom_config(cfg: FfmpegConfig, timeout_secs: Option<u64>) -> (r:
    BenchmarkCustomConfig)
    ensures
        r.benchmark_id@ == "ffmpeg"@,
        r.ffmpeg == Some(cfg),
        r.seven_zip is None,
        r.unigine is None,
        r.custom_args@ == cfg.custom_args@,
        r.timeout_secs == timeout_secs,
        r.effective_run_args matches Some(a) && a.deep_view() == ffmpeg_args(cfg),
        r.custom_preset_name matches Some(n) && n@ == ffmpeg_preset_display(cfg),
{
    let (args, _, preset) = cfg.to_run_args();
    let custom_args = cfg.custom_args.clone();
    BenchmarkCustomConfig {
        benchmark_id: String::from_str("ffmpeg"),
        ffmpeg: Some(cfg),
        seven_zip: None,
        unigine: None,
        custom_args,
        timeout_secs,
        effective_run_args: Some(args),
        custom_preset_name: Some(preset),
    }
}

/// The stored 7-Zip configuration: the settings, their arguments and their preset
/// label, with the dialog's time limit.
pub fn seven_zip_custom_config(cfg: SevenZipConfig, timeout_secs: Option<u64>) -> (r:
    BenchmarkCustomConfig)
    ensures
        r.benchmark_id@ == "7zip"@,
        r.ffmpeg is None,
        r.seven_zip == Some(cfg),
        r.unigine is None,
        r.custom_args@ == cfg.custom_args@,
        r.timeout_secs == timeout_secs,
        r.effective_run_args matches Some(a) && a.deep_view() == seven_zip_args(cfg),
        r.custom_preset_name matches Some(n) && n@ == seven_zip_preset_display(cfg),
{
    let (args, _, preset) = cfg.to_run_args();
    let custom_args = cfg.custom_args.clone();
    BenchmarkCustomConfig {
        benchmark_id: String::from_str("7zip"),
        ffmpeg: None,
        seven_zip: Some(cfg),
        unigine: None,
        custom_args,
        timeout_secs,
        effective_run_args: Some(args),
        custom_preset_name: Some(preset),
    }
}

/// The stored Unigine configuration for `version`: the settings, their arguments
/// and the label "<version> (<preset>)", with the dialog's time limit.
pub fn unigine_custom_config(cfg: UnigineConfig, version: &str, timeout_secs: Option<u64>) -> (r:
    BenchmarkCustomConfig)
    ensures
        r.benchmark_id@ == "unigine"@,
        r.ffmpeg is None,
        r.seven_zip is None,
        r.unigine == Some(cfg),
        r.custom_args@ == cfg.custom_args@,
        r.timeout_secs == timeout_secs,
        r.effective_run_args matches Some(a) && a.deep_view() == unigine_args(cfg, version@),
        r.custom_preset_name matches Some(n) && n@ == version@ + " ("@ + cfg.preset@ + ")"@,
{
    let (args, _, preset) = cfg.to_run_args(version);
    let custom_args = cfg.custom_args.clone();
    BenchmarkCustomConfig {
        benchmark_id: String::from_str("unigine"),
        ffmpeg: None,
        seven_zip: None,
        unigine: Some(cfg),
        custom_args,
        timeout_secs,
        effective_run_args: Some(args),
        custom_preset_name: Some(preset),
    }
}

/// The version whose arguments a benchmark with presets runs: the chosen preset
/// when the dialog offers presets and one is chosen, else the dialog's version.
pub open spec fn run_variant(has_preset: bool, selected_preset: Seq<char>, version: Seq<char>) -> Seq<
    char,
> {
    if has_preset && selected_preset.len() > 0 {
        selected_preset
    } else {
        version
    }
}

/// The stored configuration of any other benchmark: the arguments of the chosen
/// variant of its profile followed by the safe tokens of the custom arguments
/// (none when the profile is unknown), and the chosen preset when presets are
/// offered.
pub fn generic_custom_config(
    id: &str,
    profile: Option<&BenchmarkProfile>,
    has_preset: bool,
    selected_preset: &str,
    version: &str,
    custom_args: &str,
    timeout_secs: Option<u64>,
) -> (r: BenchmarkCustomConfig)
    ensures
        r.benchmark_id@ == id@,
        r.ffmpeg is None,
        r.seven_zip is None,
        r.unigine is None,
        r.custom_args@ == custom_args@,
        r.timeout_secs == timeout_secs,
        match profile {
            Some(p) => r.effective_run_args matches Some(a) && a.deep_view() == profile_for_version(
                p@,
                run_variant(has_preset, selected_preset@, version@),
            ).run_args + safe_args(words(custom_args@)),
            None => r.effective_run_args is None,
        },
        if has_preset && selected_preset@.len() > 0 {
            r.custom_preset_name matches Some(n) && n@ == selected_preset@
        } else {
            r.custom_preset_name is None
        },
{
    let variant = if has_preset && !selected_preset.is_empty() {
        selected_preset
    } else {
        version
    };
    let effective_run_args = match profile {
        Some(p) => {
            let eff = p.for_version(variant);
            let mut args = clone_strings(&eff.run_args);
            let extra = filter_safe_custom_args(custom_args);
            append_strings(&mut args, extra);
            Some(args)
        },
        None => None,
    };
    BenchmarkCustomConfig {
        benchmark_id: String::from_str(id),
        ffmpeg: None,
        seven_zip: None,
        unigine: None,
        custom_args: String::from_str(custom_args),
        timeout_secs,
        effective_run_args,
        custom_preset_name: if has_preset && !selected_preset.is_empty() {
            Some(String::from_str(selected_preset))
        } else {
            None
        },
    }
}

// ---------------------------------------------------------------------------
// What the dialog offers and shows
// ---------------------------------------------------------------------------

/// The preset choice offered for a benchmark without settings of its own: the
/// dictionary keys of its title and description, the options, and the default.
pub open spec fn preset_table(id: Seq<char>) -> Option<
    (Seq<char>, Seq<char>, Seq<Seq<char>>, Seq<char>),
> {
    if id == "cray"@ {
        Some(
            (
                "bench_settings_cray_resolution"@,
                "bench_settings_cray_res_desc"@,
                seq!["1080p"@, "4K"@, "720p"@],
                "1080p"@,
            ),
        )
    } else if id == "ycruncher"@ {
        Some(
            (
                "bench_settings_problem_size"@,
                "bench_settings_ycruncher_desc"@,
                seq!["500M"@, "25M"@],
                "500M"@,
            ),
        )
    } else if id == "stream"@ {
        Some(
            (
                "bench_settings_array_size"@,
                "bench_settings_stream_desc"@,
                seq!["Standard"@, "Compact"@],
                "Standard"@,
            ),
        )
    } else if id == "fio"@ {
        Some(
            (
                "bench_settings_workload"@,
                "bench_settings_fio_desc"@,
                seq!["Seq-Read"@, "Seq-Write"@, "Rand-Read"@, "Rand-Write"@],
                "Seq-Read"@,
            ),
        )
    } else if id == "gravitymark"@ {
        Some(
            (
                "bench_settings_graphics_api"@,
                "bench_settings_gravitymark_desc"@,
                seq!["vulkan"@, "opengl"@],
                "vulkan"@,
            ),
        )
    } else if id == "llama-bench"@ {
        Some(
            (
                "bench_settings_model"@,
                "bench_settings_llama_desc"@,
                seq!["Fast (stories260K)"@, "Standard (stories15M)"@],
                "Fast (stories260K)"@,
            ),
        )
    } else {
        None
    }
}

/// A preset choice as the dialog shows it.
pub struct PresetChoice {
    pub title: String,
    pub description: String,
    pub options: Vec<String>,
    pub default_preset: String,
}

fn lits(a: &[&str]) -> (r: Vec<String>)
    ensures
        r.deep_view() == a@.map_values(|s: &str| s@),
{
    let mut r: Vec<String> = Vec::new();
    let mut i: usize = 0;
    while i < a.len()
        invariant
            i <= a@.len(),
            r.deep_view() == a@.take(i as int).map_values(|s: &str| s@),
        decreases a@.len() - i,
    {
        r.push(String::from_str(a[i]));
        assert(a@.take(i + 1).map_values(|s: &str| s@) =~= a@.take(i as int).map_values(
            |s: &str| s@,
        ).push(a@[i as int]@));
        i += 1;
    }
    assert(a@.take(i as int) =~= a@);
    r
}

fn choice(i18n: &I18n, title_key: &str, desc_key: &str, options: &[&str], default_preset: &str) -> (r:
    PresetChoice)
    ensures
        r.title@ == i18n.text_for(title_key@),
        r.description@ == i18n.text_for(desc_key@),
        r.options.deep_view() == options@.map_values(|s: &str| s@),
        r.default_preset@ == default_preset@,
{
    PresetChoice {
        title: t(i18n, title_key),
        description: t(i18n, desc_key),
        options: lits(options),
        default_preset: String::from_str(default_preset),
    }
}

/// The preset choice offered for benchmark `id`, in the current language; none
/// for the benchmarks without one.
pub fn preset_choice(i18n: &I18n, id: &str) -> (r: Option<PresetChoice>)
    ensures
        match preset_table(id@) {
            Some((title, desc, options, default_preset)) => r matches Some(c) && c.title@
                == i18n.text_for(title) && c.description@ == i18n.text_for(desc)
                && c.options.deep_view() == options && c.default_preset@ == default_preset,
            None => r is None,
        },
{
    if str_is(id, "cray") {
        let c = choice(i18n, "bench_settings_cray_resolution", "bench_settings_cray_res_desc",
            &["1080p", "4K", "720p"], "1080p");
        assert(c.options.deep_view() =~= seq!["1080p"@, "4K"@, "720p"@]);
        Some(c)
    } else if str_is(id, "ycruncher") {
        let c = choice(i18n, "bench_settings_problem_size", "bench_settings_ycruncher_desc",
            &["500M", "25M"], "500M");
        assert(c.options.deep_view() =~= seq!["500M"@, "25M"@]);
        Some(c)
    } else if str_is(id, "stream") {
        let c = choice(i18n, "bench_settings_array_size", "bench_settings_stream_desc",
            &["Standard", "Compact"], "Standard");
        assert(c.options.deep_view() =~= seq!["Standard"@, "Compact"@]);
        Some(c)
    } else if str_is(id, "fio") {
        let c = choice(i18n, "bench_settings_workload", "bench_settings_fio_desc",
            &["Seq-Read", "Seq-Write", "Rand-Read", "Rand-Write"], "Seq-Read");
        assert(c.options.deep_view() =~= seq!["Seq-Read"@, "Seq-Write"@, "Rand-Read"@, "Rand-Write"@]);
        Some(c)
    } else if str_is(id, "gravitymark") {
        let c = choice(i18n, "bench_settings_graphics_api", "bench_settings_gravitymark_desc",
            &["vulkan", "opengl"], "vulkan");
        assert(c.options.deep_view() =~= seq!["vulkan"@, "opengl"@]);
        Some(c)
    } else if str_is(id, "llama-bench") {
        let c = choice(i18n, "bench_settings_model", "bench_settings_llama_desc",
            &["Fast (stories260K)", "Standard (stories15M)"], "Fast (stories260K)");
        assert(c.options.deep_view() =~= seq!["Fast (stories260K)"@, "Standard (stories15M)"@]);
        Some(c)
    } else {
        None
    }
}

/// The preset the dialog opens with: the one stored for the benchmark, else the
/// default of its preset choice.
pub fn initial_preset(stored: Option<&BenchmarkCustomConfig>, default_preset: &str) -> (r: String)
    ensures
        r@ == match stored {
            Some(c) => match c.custom_preset_name {
                Some(n) => n@,
                None => default_preset@,
            },
            None => default_preset@,
        },
{
    match stored {
        Some(c) => match &c.custom_preset_name {
            Some(n) => n.clone(),
            None => String::from_str(default_preset),
        },
        None => String::from_str(default_preset),
    }
}

/// The presets offered for a Unigine version.
pub open spec fn unigine_presets(version: Seq<char>) -> Seq<Seq<char>> {
    if is_heaven(version) {
        seq!["Extreme (1080p)"@, "Basic (720p)"@]
    } else {
        seq![
            "1080p Extreme"@,
            "1080p High"@,
            "1080p Medium"@,
            "720p Low"@,
            "4K Optimized"@,
            "8K Optimized"@,
        ]
    }
}

/// The presets offered for a Unigine version.
pub fn unigine_preset_options(version: &str) -> (r: Vec<String>)
    ensures
        r.deep_view() == unigine_presets(version@),
{
    if str_contains(version, "Heaven") {
        let r = lits(&["Extreme (1080p)", "Basic (720p)"]);
        assert(r.deep_view() =~= unigine_presets(version@));
        r
    } else {
        let r = lits(
            &[
                "1080p Extreme",
                "1080p High",
                "1080p Medium",
                "720p Low",
                "4K Optimized",
                "8K Optimized",
            ],
        );
        assert(r.deep_view() =~= unigine_presets(version@));
        r
    }
}

/// The dictionary key of the input source shown for FFmpeg settings.
pub open spec fn ffmpeg_source_key(input_source: Seq<char>) -> Seq<char> {
    let lower = lowercase(input_source);
    if contains(lower, "bunny"@) {
        "bench_settings_source_bunny"@
    } else if contains(lower, "steel"@) || contains(lower, "tears"@) {
        "bench_settings_source_tears"@
    } else {
        "bench_settings_source_synthetic"@
    }
}

/// The input source of FFmpeg settings, in the current language.
pub fn ffmpeg_source_label(i18n: &I18n, input_source: &str) -> (r: String)
    ensures
        r@ == i18n.text_for(ffmpeg_source_key(input_source@)),
{
    let lower = to_lowercase(input_source);
    if str_contains(lower.as_str(), "bunny") {
        t(i18n, "bench_settings_source_bunny")
    } else if str_contains(lower.as_str(), "steel") || str_contains(lower.as_str(), "tears") {
        t(i18n, "bench_settings_source_tears")
    } else {
        t(i18n, "bench_settings_source_synthetic")
    }
}

/// The test length of FFmpeg settings as the dialog shows it: unlimited, 20 s,
/// or the number of seconds followed by "s".
pub fn ffmpeg_duration_label(i18n: &I18n, cfg: &FfmpegConfig) -> (r: String)
    ensures
        r@ == if !cfg.duration_enabled {
            i18n.text_for("bench_settings_dur_unlimited"@)
        } else if cfg.duration_secs == 20 {
            i18n.text_for("bench_settings_dur_20s"@)
        } else {
            dec(cfg.duration_secs as nat) + "s"@
        },
{
    if !cfg.duration_enabled {
        t(i18n, "bench_settings_dur_unlimited")
    } else if cfg.duration_secs == 20 {
        t(i18n, "bench_settings_dur_20s")
    } else {
        let mut s = dec_string(cfg.duration_secs as u64);
        push_str(&mut s, "s");
        s
    }
}

/// The test length of the default FFmpeg settings as shown after a reset.
pub fn ffmpeg_reset_duration_label(cfg: &FfmpegConfig) -> (r: String)
    ensures
        r@ == if !cfg.duration_enabled {
            "Süresiz (Tam Kaynak)"@
        } else {
            dec(cfg.duration_secs as nat) + "s"@
        },
{
    if !cfg.duration_enabled {
        string_from("Süresiz (Tam Kaynak)")
    } else {
        let mut s = dec_string(cfg.duration_secs as u64);
        push_str(&mut s, "s");
        s
    }
}

/// The dictionary size of 7-Zip settings as the dialog shows it: the 32 MB
/// default in the current language, any other size as stored.
pub fn seven_zip_dict_label(i18n: &I18n, dict_size: &str) -> (r: String)
    ensures
        r@ == if contains(dict_size@, "32MB"@) {
            i18n.text_for("bench_settings_dict_32mb"@)
        } else {
            dict_size@
        },
{
    if str_contains(dict_size, "32MB") {
        t(i18n, "bench_settings_dict_32mb")
    } else {
        string_from(dict_size)
    }
}

/// A status message with every `{}` of the dictionary entry `key` replaced by
/// `name`.
pub fn named_status(i18n: &I18n, key: &str, name: &str) -> (r: String)
    ensures
        r@ == replace_seq(i18n.text_for(key@), "{}"@, name@),
{
    let msg = t(i18n, key);
    let v = chars_of(msg.as_str());
    let replaced = replace_str_chars(v.as_slice(), "{}", name);
    string_of(replaced.as_slice())
}

// ---------------------------------------------------------------------------
// Command preview
// ---------------------------------------------------------------------------

/// The command line shown for a benchmark without settings of its own: its run
/// command, its arguments as rendered by `Debug`, and the custom arguments when
/// there are any.
pub open spec fn preview_text(run_cmd: Seq<char>, rendered_args: Seq<char>, custom_args: Seq<char>)
    -> Seq<char> {
    if custom_args.len() == 0 {
        run_cmd + " "@ + rendered_args
    } else {
        run_cmd + " "@ + rendered_args + " "@ + custom_args
    }
}

/// The command line shown, from the run command, the rendered arguments and the
/// custom arguments.
pub fn preview_from(run_cmd: &str, rendered_args: &str, custom_args: &str) -> (r: String)
    ensures
        r@ == preview_text(run_cmd@, rendered_args@, custom_args@),
{
    let mut s = string_from(run_cmd);
    push_str(&mut s, " ");
    push_str(&mut s, rendered_args);
    if !custom_args.is_empty() {
        push_str(&mut s, " ");
        push_str(&mut s, custom_args);
    }
    s
}

/// The command line shown for `variant` of a benchmark without settings of its
/// own, with `custom_args` after it.
pub fn command_preview(profile: &BenchmarkProfile, variant: &str, custom_args: &str) -> (r: String)
    ensures
        ({
            let eff = profile_for_version(profile@, variant@);
            r@ == preview_text(run_cmd_of(eff), debug_string_list(eff.run_args), custom_args@)
        }),
{
    let eff = profile.for_version(variant);
    let cmd = eff.get_run_cmd();
    let rendered = debug_list(&eff.run_args);
    preview_from(cmd.as_str(), rendered.as_str(), custom_args)
}

} // verus!
