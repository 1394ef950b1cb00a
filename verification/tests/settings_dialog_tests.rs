use benchhub::bench_config::{FfmpegConfig, SevenZipConfig, UnigineConfig};
use benchhub::i18n::{t, I18n};
use benchhub::models::{BenchmarkProfile, BenchmarkVersion};
use benchhub::settings_dialog::{
    command_preview, ffmpeg_config_from_form, ffmpeg_custom_config, ffmpeg_duration_label,
    ffmpeg_reset_duration_label, ffmpeg_source_label, generic_custom_config, initial_preset,
    named_status, preset_choice, preview_from, seven_zip_config_from_form,
    seven_zip_custom_config, seven_zip_dict_label, unigine_custom_config, unigine_preset_options,
};

fn dictionaries() -> I18n {
    I18n::load().expect("the dictionaries are tables of strings")
}

#[test]
fn ffmpeg_form_is_read_and_stored() {
    let cfg = ffmpeg_config_from_form(
        "H.265 (libx265 - CPU)",
        "99",
        "fast",
        "720p HD (1280x720)",
        "Sentetik Test Kaynağı (lavfi testsrc2)",
        "30 sn",
        "500",
        "-an",
    );
    assert_eq!(cfg.crf, 51);
    assert_eq!(cfg.threads, 128);
    assert!(cfg.duration_enabled);
    assert_eq!(cfg.duration_secs, 30);
    assert_eq!(cfg.preset, "fast");
    assert_eq!(cfg.custom_args, "-an");

    let (args, _, label) = cfg.to_run_args();
    let stored = ffmpeg_custom_config(cfg.clone(), Some(60));
    assert_eq!(stored.benchmark_id, "ffmpeg");
    assert_eq!(stored.ffmpeg, Some(cfg));
    assert!(stored.seven_zip.is_none() && stored.unigine.is_none());
    assert_eq!(stored.custom_args, "-an");
    assert_eq!(stored.timeout_secs, Some(60));
    assert_eq!(stored.effective_run_args, Some(args));
    assert_eq!(stored.custom_preset_name, Some(label));
}

#[test]
fn seven_zip_and_unigine_forms_are_stored() {
    let cfg = seven_zip_config_from_form("x", "64MB", "0", "");
    assert_eq!(cfg.threads, 0);
    assert_eq!(cfg.passes, 1);
    assert_eq!(cfg.dict_size, "64MB");
    let (args, _, label) = cfg.to_run_args();
    let stored = seven_zip_custom_config(cfg.clone(), None);
    assert_eq!(stored.benchmark_id, "7zip");
    assert_eq!(stored.seven_zip, Some(cfg));
    assert_eq!(stored.effective_run_args, Some(args));
    assert_eq!(stored.custom_preset_name, Some(label));
    assert_eq!(stored.timeout_secs, None);

    let u = UnigineConfig {
        preset: "720p Low".to_string(),
        custom_args: String::new(),
    };
    let stored = unigine_custom_config(u.clone(), "Superposition 1.1", Some(0));
    assert_eq!(stored.benchmark_id, "unigine");
    assert_eq!(stored.unigine, Some(u.clone()));
    assert_eq!(
        stored.custom_preset_name,
        Some("Superposition 1.1 (720p Low)".to_string())
    );
    assert_eq!(stored.effective_run_args, Some(u.to_run_args("Superposition 1.1").0));
}

fn fio_profile() -> BenchmarkProfile {
    BenchmarkProfile {
        id: "fio".to_string(),
        name: "fio".to_string(),
        run_cmd: "./fio".to_string(),
        run_args: vec!["--rw=read".to_string()],
        versions: vec![BenchmarkVersion {
            version: "Rand-Write".to_string(),
            run_args: Some(vec!["--rw=randwrite".to_string()]),
            ..Default::default()
        }],
        ..Default::default()
    }
}

#[test]
fn generic_settings_keep_safe_extra_arguments() {
    let p = fio_profile();
    let stored = generic_custom_config(
        "fio",
        Some(&p),
        true,
        "Rand-Write",
        "",
        "--size=1G -o /etc/x ../y --bs=4k",
        Some(120),
    );
    assert_eq!(stored.benchmark_id, "fio");
    assert_eq!(
        stored.effective_run_args,
        Some(vec![
            "--rw=randwrite".to_string(),
            "--size=1G".to_string(),
            "--bs=4k".to_string(),
        ])
    );
    assert_eq!(stored.custom_preset_name, Some("Rand-Write".to_string()));
    assert_eq!(stored.timeout_secs, Some(120));

    let plain = generic_custom_config("fio", Some(&p), false, "Rand-Write", "", "", None);
    assert_eq!(plain.effective_run_args, Some(vec!["--rw=read".to_string()]));
    assert_eq!(plain.custom_preset_name, None);

    let unknown = generic_custom_config("zzz", None, true, "", "1.0", "-x", None);
    assert_eq!(unknown.effective_run_args, None);
    assert_eq!(unknown.custom_preset_name, None);
    assert_eq!(unknown.custom_args, "-x");
}

#[test]
fn preset_choices_per_benchmark() {
    let i18n = dictionaries();
    let c = preset_choice(&i18n, "fio").expect("fio offers workloads");
    assert_eq!(c.options, vec!["Seq-Read", "Seq-Write", "Rand-Read", "Rand-Write"]);
    assert_eq!(c.default_preset, "Seq-Read");
    assert_eq!(c.title, t(&i18n, "bench_settings_workload"));
    assert_eq!(c.description, t(&i18n, "bench_settings_fio_desc"));
    assert_eq!(preset_choice(&i18n, "cray").unwrap().options, vec!["1080p", "4K", "720p"]);
    assert_eq!(preset_choice(&i18n, "ycruncher").unwrap().default_preset, "500M");
    assert_eq!(preset_choice(&i18n, "stream").unwrap().options, vec!["Standard", "Compact"]);
    assert_eq!(preset_choice(&i18n, "gravitymark").unwrap().default_preset, "vulkan");
    assert_eq!(
        preset_choice(&i18n, "llama-bench").unwrap().options,
        vec!["Fast (stories260K)", "Standard (stories15M)"]
    );
    assert!(preset_choice(&i18n, "7zip").is_none());

    let mut stored = generic_custom_config("fio", None, true, "Rand-Read", "", "", None);
    assert_eq!(initial_preset(Some(&stored), "Seq-Read"), "Rand-Read");
    stored.custom_preset_name = None;
    assert_eq!(initial_preset(Some(&stored), "Seq-Read"), "Seq-Read");
    assert_eq!(initial_preset(None, "vulkan"), "vulkan");
}

#[test]
fn unigine_presets_depend_on_the_version() {
    assert_eq!(
        unigine_preset_options("Heaven 4.0"),
        vec!["Extreme (1080p)", "Basic (720p)"]
    );
    assert_eq!(unigine_preset_options("Superposition 1.1").len(), 6);
    assert_eq!(unigine_preset_options("Superposition 1.1")[0], "1080p Extreme");
}

#[test]
fn dialog_labels() {
    let i18n = dictionaries();
    assert_eq!(
        ffmpeg_source_label(&i18n, "Big Buck BUNNY"),
        t(&i18n, "bench_settings_source_bunny")
    );
    assert_eq!(
        ffmpeg_source_label(&i18n, "Tears of Steel"),
        t(&i18n, "bench_settings_source_tears")
    );
    assert_eq!(
        ffmpeg_source_label(&i18n, "lavfi"),
        t(&i18n, "bench_settings_source_synthetic")
    );
    let mut cfg = FfmpegConfig::default();
    assert_eq!(ffmpeg_duration_label(&i18n, &cfg), t(&i18n, "bench_settings_dur_20s"));
    assert_eq!(ffmpeg_reset_duration_label(&cfg), "20s");
    cfg.duration_secs = 45;
    assert_eq!(ffmpeg_duration_label(&i18n, &cfg), "45s");
    cfg.duration_enabled = false;
    assert_eq!(
        ffmpeg_duration_label(&i18n, &cfg),
        t(&i18n, "bench_settings_dur_unlimited")
    );
    assert_eq!(ffmpeg_reset_duration_label(&cfg), "Süresiz (Tam Kaynak)");
    assert_eq!(
        seven_zip_dict_label(&i18n, &SevenZipConfig::default().dict_size),
        t(&i18n, "bench_settings_dict_32mb")
    );
    assert_eq!(seven_zip_dict_label(&i18n, "64MB"), "64MB");
    assert_eq!(
        named_status(&i18n, "status_install_success", "fio"),
        t(&i18n, "status_install_success").replace("{}", "fio")
    );
    assert_eq!(named_status(&i18n, "status_install_error", "x"), "x kurulamadı: x");
}

#[test]
fn command_previews() {
    let p = fio_profile();
    assert_eq!(command_preview(&p, "", ""), "./fio [\"--rw=read\"]");
    assert_eq!(
        command_preview(&p, "Rand-Write", "--bs=4k"),
        "./fio [\"--rw=randwrite\"] --bs=4k"
    );
    let empty = BenchmarkProfile {
        run_cmd: "./x".to_string(),
        ..Default::default()
    };
    assert_eq!(command_preview(&empty, "", ""), "./x []");
    assert_eq!(preview_from("./a", "[]", ""), "./a []");
    assert_eq!(preview_from("./a", "[\"b\"]", "c"), "./a [\"b\"] c");
}
