use benchhub::i18n::{localize_throttling, set_language, t, I18n};
use benchhub::run_display::{
    compare_texts, details_texts, details_title, english_percent_text, first_other_category,
    freq_pair_text, has_throttling, history_texts, mhz_text, peak_label, system_info_text,
    RunTextFields,
};

fn dictionaries() -> I18n {
    I18n::load().expect("the dictionaries are tables of strings")
}

fn fields(is_methodology: bool) -> RunTextFields {
    RunTextFields {
        benchmark_id: "7zip".to_string(),
        category: "CPU".to_string(),
        preset_or_version: "23.01".to_string(),
        gpu_mode: "Harici GPU (NVIDIA)".to_string(),
        power_profile: "performance".to_string(),
        status: "TAMAMLANDI".to_string(),
        cpu_throttling: "Termal Kısma (%45)".to_string(),
        gpu_throttling: "Yok".to_string(),
        system_info_summary: String::new(),
        is_methodology,
        timestamp: 1431648000,
        avg_cpu_freq_mhz: 3200,
        peak_cpu_freq_mhz: 4100,
        avg_gpu_freq_mhz: 0,
        peak_gpu_freq_mhz: 1800,
        avg_vram_freq_mhz: 7000,
        peak_vram_freq_mhz: 7001,
    }
}

#[test]
fn small_run_texts() {
    assert_eq!(mhz_text(3200), "3200 MHz");
    assert_eq!(mhz_text(0), "-");
    assert_eq!(freq_pair_text(0, 4100), "0 MHz / 4100 MHz");
    assert!(has_throttling("thermal_throttle"));
    for none in ["Yok", "Hayır", "-", "None"] {
        assert!(!has_throttling(none));
    }
    assert!(has_throttling("none"));
    assert_eq!(english_percent_text("Thermal Throttling (%45)"), "Thermal Throttling (45%)");
    assert_eq!(english_percent_text("Thermal (x)"), "Thermal (x)");
    assert_eq!(system_info_text(""), "-");
    assert_eq!(system_info_text("Ryzen"), "Ryzen");
    assert_eq!(details_title("7-Zip", "23.01", false), "🔍 7-Zip: 23.01");
    assert_eq!(details_title("7-Zip", "3 Test Ortalaması", true), "🔍 [METODOLOJİ] 7-Zip: 3 Test Ortalaması");
    let cats = vec!["CPU".to_string(), "CPU".to_string(), "GPU".to_string(), "RAM".to_string()];
    assert_eq!(first_other_category(&cats), Some(2));
    assert_eq!(first_other_category(&vec!["CPU".to_string(), "CPU".to_string()]), None);
    assert_eq!(first_other_category(&vec![]), None);
}

#[test]
fn peak_label_drops_the_colon() {
    let mut i18n = dictionaries();
    assert_eq!(peak_label(&i18n), "Maks");
    set_language(&mut i18n, "en");
    assert_eq!(peak_label(&i18n), "Peak");
}

#[test]
fn texts_in_each_view() {
    let mut i18n = dictionaries();
    let h = history_texts(&i18n, &fields(false));
    assert_eq!(h.name, "7-Zip");
    assert_eq!(h.category, t(&i18n, "cat_cpu_full"));
    assert_eq!(h.preset, "23.01");
    assert_eq!(h.gpu_mode, t(&i18n, "gpu_mode_nvidia"));
    assert_eq!(h.status, t(&i18n, "status_completed"));
    assert_eq!(history_texts(&i18n, &fields(true)).preset, "");

    let d = details_texts(&i18n, &fields(true));
    assert_eq!(d.title, "🔍 [METODOLOJİ] 7-Zip: 23.01");
    assert_eq!(d.avg_cpu_freq, "3200 MHz");
    assert_eq!(d.avg_gpu_freq, "-");
    assert_eq!(d.peak_vram_freq, "7001 MHz");
    assert_eq!(d.cpu_throttling, "Termal Kısma (%45)");
    assert_eq!(d.gpu_throttling, t(&i18n, "none"));
    assert_eq!(d.power_profile, t(&i18n, "profile_performance"));

    set_language(&mut i18n, "en");
    let c = compare_texts(&i18n, &fields(false));
    assert_eq!(c.title, "7-Zip");
    assert_eq!(c.cpu_freq, "3200 MHz / 4100 MHz");
    assert_eq!(c.gpu_freq, "0 MHz / 1800 MHz");
    assert_eq!(c.cpu_throttling, "Thermal Throttling (45%)");
    assert_eq!(localize_throttling(&i18n, "Termal Kısma (%45)"), "Thermal Throttling (%45)");
    assert!(c.has_cpu_throttling);
    assert!(!c.has_gpu_throttling);
    assert_eq!(c.gpu_throttling, "None");
    assert_eq!(c.system_info, "-");
    assert_eq!(c.status, "COMPLETED");
}

#[test]
fn run_dates_are_written_in_utc() {
    let en = dictionaries();
    let f = fields(false);
    assert_eq!(history_texts(&en, &f).date, "05-15 00:00");
    assert_eq!(compare_texts(&en, &f).date, "2015-05-15 00:00");
    assert_eq!(details_texts(&en, &f).date, "2015-05-15 00:00:00");
}
