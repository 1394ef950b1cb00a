use benchhub::bench_config::parse_bench_duration;
use benchhub::config::parse_max_test_duration;
use benchhub::i18n::{set_language, t, I18n};
use benchhub::models::GpuMode;
use benchhub::settings_choices::{
    gpu_mode_choice, gpu_mode_display, interval_choice, interval_display, language_display,
    line_limit_choice, line_limit_display, max_duration_message, max_duration_position,
    save_stopped_choice, save_stopped_display, save_stopped_message, setting_changed_message,
    gpu_mode_options, menu_options,
};

fn dictionaries() -> I18n {
    I18n::load().expect("the dictionaries are tables of strings")
}

#[test]
fn interval_menu() {
    assert_eq!(interval_choice("250 ms"), (250, 0));
    assert_eq!(interval_choice("1000 ms"), (1000, 2));
    assert_eq!(interval_choice("1 saniye"), (1000, 2));
    assert_eq!(interval_choice("2s"), (2000, 3));
    assert_eq!(interval_choice("500 ms"), (500, 1));
    assert_eq!(interval_choice("whatever"), (500, 1));
    let i18n = dictionaries();
    assert_eq!(interval_display(&i18n, 2000), (t(&i18n, "interval_2000"), 3));
    assert_eq!(interval_display(&i18n, 777), (t(&i18n, "interval_500"), 1));
}

#[test]
fn terminal_limit_menu() {
    assert_eq!(line_limit_choice("80 satır"), (80, 0));
    assert_eq!(line_limit_choice("300 lines"), (300, 2));
    assert_eq!(line_limit_choice("500"), (500, 3));
    assert_eq!(line_limit_choice("150"), (150, 1));
    assert_eq!(line_limit_choice(""), (150, 1));
    let i18n = dictionaries();
    assert_eq!(line_limit_display(&i18n, 300), (t(&i18n, "limit_300"), 2));
    assert_eq!(line_limit_display(&i18n, 999), (t(&i18n, "limit_150"), 1));
}

#[test]
fn stopped_runs_menu() {
    assert_eq!(save_stopped_choice("Kaydet"), (true, 0));
    assert_eq!(save_stopped_choice("Kaydetme"), (false, 1));
    assert_eq!(save_stopped_choice("Do Not Save"), (false, 1));
    assert_eq!(save_stopped_choice("Ignore stopped runs"), (false, 1));
    let i18n = dictionaries();
    assert_eq!(save_stopped_display(&i18n, true), (t(&i18n, "save_stopped_yes"), 0));
    assert_eq!(save_stopped_display(&i18n, false), (t(&i18n, "save_stopped_no"), 1));
    assert_eq!(save_stopped_message(&i18n, false), t(&i18n, "status_save_stopped_off"));
}

#[test]
fn duration_gpu_and_language_menus() {
    for (secs, idx) in [(0, 0), (60, 1), (120, 2), (180, 3), (300, 4), (600, 5), (45, 4)] {
        assert_eq!(max_duration_position(secs), idx);
    }
    let i18n = dictionaries();
    assert_eq!(
        max_duration_message(&i18n, 120),
        format!("{}: 120 sn", t(&i18n, "status_max_duration_set"))
    );
    assert_eq!(max_duration_message(&i18n, 0), t(&i18n, "status_max_duration_unlimited"));
    assert_eq!(gpu_mode_choice("Dahili GPU (iGPU)"), (GpuMode::Integrated, 1));
    assert_eq!(gpu_mode_choice("Harici GPU (NVIDIA)"), (GpuMode::NvidiaDgpu, 0));
    assert_eq!(gpu_mode_display(&i18n, "System Default"), (t(&i18n, "gpu_mode_default"), 2));
    assert_eq!(language_display("en"), ("English", 1));
    assert_eq!(language_display("tr"), ("Türkçe", 0));
    assert_eq!(
        setting_changed_message(&i18n, "status_install_success", "fio"),
        "fio başarıyla kuruldu."
    );
}

#[test]
fn menus_offer_their_options() {
    let mut i18n = dictionaries();
    let m = menu_options(&i18n);
    assert_eq!(m.history_categories, vec![t(&i18n, "cat_all"), t(&i18n, "cat_cpu"), t(&i18n, "cat_gpu")]);
    assert_eq!(m.telemetry_intervals.len(), 4);
    assert_eq!(m.terminal_limits[2], t(&i18n, "limit_300"));
    assert_eq!(m.history_sort_options.len(), 5);
    assert_eq!(m.languages, vec!["Türkçe", "English"]);
    assert_eq!(m.max_duration_options[0], "Sınırsız (Limit Yok)");
    for (i, secs) in [0u64, 60, 120, 180, 300, 600].iter().enumerate() {
        assert_eq!(parse_max_test_duration(&m.max_duration_options[i]), *secs);
        assert_eq!(max_duration_position(*secs), i as u32);
    }
    for (i, opt) in [None, Some(0u64), Some(30), Some(60), Some(120), Some(180), Some(300), Some(600)]
        .iter()
        .enumerate()
    {
        assert_eq!(parse_bench_duration(&m.bench_duration_options[i]), *opt);
    }
    assert_eq!(m.ffmpeg_durations[1], "10s");
    assert_eq!(m.seven_zip_dict_sizes[5], "1024MB (1 GB)");
    set_language(&mut i18n, "en");
    let m = menu_options(&i18n);
    assert_eq!(m.max_duration_options[4], "300 seconds (5 min - Recommended)");
    assert_eq!(
        gpu_mode_options(Some("RTX 4070"), None),
        vec!["dGPU (RTX 4070)", "iGPU", "Auto"]
    );
    assert_eq!(
        gpu_mode_options(None, Some("Radeon 780M")),
        vec!["dGPU (NVIDIA)", "iGPU (Radeon 780M)", "Auto"]
    );
}
