use benchhub::i18n::{
    get_language, localize_gpu_mode, localize_power_profile, localize_status, localize_throttling,
    normalize_lang, set_language, t, t_fmt, t_lang, I18n, EN_DICTIONARY, TR_DICTIONARY,
};
use std::collections::HashMap;

fn dictionaries() -> I18n {
    I18n::load().expect("the dictionaries are tables of strings")
}

#[test]
fn test_key_parity() {
    let tr: HashMap<String, String> = toml::from_str(TR_DICTIONARY).unwrap();
    let en: HashMap<String, String> = toml::from_str(EN_DICTIONARY).unwrap();

    for key in tr.keys() {
        assert!(en.contains_key(key), "Key '{}' missing in en.toml", key);
    }
    for key in en.keys() {
        assert!(tr.contains_key(key), "Key '{}' missing in tr.toml", key);
    }
}

#[test]
fn test_fallback() {
    let i18n = dictionaries();
    assert_eq!(t(&i18n, "nonexistent_key"), "nonexistent_key");
}

#[test]
fn test_language_switch_and_helpers() {
    let mut i18n = dictionaries();
    set_language(&mut i18n, "en");
    let i = &i18n;
    assert_eq!(t(i, "ready"), "Ready");
    assert_eq!(t_lang(i, "ready", "tr"), "Hazır");
    assert_eq!(t_lang(i, "ready", "en"), "Ready");
    assert_eq!(localize_throttling(i, "Yok"), "None");
    assert_eq!(localize_throttling(i, "None"), "None");
    assert_eq!(localize_throttling(i, "none"), "None");
    assert_eq!(localize_throttling(i, "-"), "None");
    assert_eq!(localize_throttling(i, "Termal Kısma"), "Thermal Throttling");
    assert_eq!(
        localize_throttling(i, "thermal_throttle"),
        "Thermal Throttling"
    );
    assert_eq!(
        localize_throttling(i, "Termal Kısma (%45)"),
        "Thermal Throttling (%45)"
    );
    assert_eq!(
        localize_throttling(i, "thermal_throttle (%45)"),
        "Thermal Throttling (%45)"
    );
    assert_eq!(localize_throttling(i, "Güç Limiti (%20)"), "Power Limit (%20)");
    assert_eq!(
        localize_throttling(i, "power_limit (%20)"),
        "Power Limit (%20)"
    );
    assert_eq!(
        localize_throttling(i, "Donanım Kısması"),
        "Hardware Throttling"
    );
    assert_eq!(
        localize_throttling(i, "hardware_throttle"),
        "Hardware Throttling"
    );
    assert_eq!(localize_power_profile(i, "performance"), "Performance");
    assert_eq!(localize_power_profile(i, "balanced"), "Balanced");
    assert_eq!(localize_power_profile(i, "power-saver"), "Power Saver");
    assert_eq!(localize_power_profile(i, "Metodoloji"), "METHODOLOGY");
    assert_eq!(localize_status(i, "TAMAMLANDI"), "COMPLETED");
    assert_eq!(localize_status(i, "completed"), "COMPLETED");
    assert_eq!(localize_status(i, "Tamamlandı"), "COMPLETED");
    assert_eq!(localize_status(i, "HATA"), "ERROR");
    assert_eq!(localize_status(i, "error"), "ERROR");
    assert_eq!(localize_status(i, "İPTAL"), "CANCELLED");
    assert_eq!(localize_status(i, "cancelled"), "CANCELLED");
    assert_eq!(localize_gpu_mode(i, "Karma"), "Mixed");
    assert_eq!(localize_gpu_mode(i, "mixed"), "Mixed");
    assert_eq!(
        localize_gpu_mode(i, "Harici GPU (NVIDIA)"),
        "Dedicated GPU NVIDIA"
    );
    assert_eq!(localize_gpu_mode(i, "Dahili GPU (iGPU)"), "Integrated GPU");

    set_language(&mut i18n, "tr");
    let i = &i18n;
    assert_eq!(t(i, "ready"), "Hazır");
    assert_eq!(localize_throttling(i, "Yok"), "Yok");
    assert_eq!(localize_throttling(i, "None"), "Yok");
    assert_eq!(localize_throttling(i, "none"), "Yok");
    assert_eq!(
        localize_throttling(i, "Termal Kısma (%45)"),
        "Termal Kısma (%45)"
    );
    assert_eq!(
        localize_throttling(i, "thermal_throttle (%45)"),
        "Termal Kısma (%45)"
    );
    assert_eq!(localize_power_profile(i, "performance"), "Performans");
    assert_eq!(localize_power_profile(i, "Metodoloji"), "METODOLOJİ");
    assert_eq!(localize_status(i, "completed"), "TAMAMLANDI");
    assert_eq!(localize_status(i, "Tamamlandı"), "TAMAMLANDI");
    assert_eq!(localize_gpu_mode(i, "mixed"), "Karma");
    assert_eq!(localize_gpu_mode(i, "Karma"), "Karma");
}

#[test]
fn language_codes_normalise() {
    assert_eq!(normalize_lang("EN"), "en");
    assert_eq!(normalize_lang("English"), "en");
    assert_eq!(normalize_lang("tr"), "tr");
    assert_eq!(normalize_lang("deutsch"), "tr");
    let mut i18n = dictionaries();
    assert_eq!(get_language(&i18n), "tr");
    set_language(&mut i18n, "ENGLISH");
    assert_eq!(get_language(&i18n), "en");
    set_language(&mut i18n, "fr");
    assert_eq!(get_language(&i18n), "tr");
}

#[test]
fn english_falls_back_to_turkish_then_key() {
    let mut i18n = dictionaries();
    set_language(&mut i18n, "en");
    assert_eq!(t(&i18n, "no_such_key_anywhere"), "no_such_key_anywhere");
    assert_eq!(t_lang(&i18n, "status_error", "tr"), "HATA");
}

#[test]
fn placeholders_fill_in_order() {
    let mut i18n = dictionaries();
    set_language(&mut i18n, "en");
    assert_eq!(
        t_fmt(&i18n, "status_install_error", &["7zip", "timeout"]),
        "Failed to install 7zip: timeout"
    );
    assert_eq!(
        t_fmt(&i18n, "status_install_error", &["7zip"]),
        "Failed to install 7zip: {}"
    );
    assert_eq!(
        t_fmt(&i18n, "status_installing", &["fio", "extra"]),
        "Installing fio..."
    );
    assert_eq!(t_fmt(&i18n, "plain {} key", &["{}", "x"]), "plain {} key");
    assert_eq!(t_fmt(&i18n, "{} + {} = {}", &["1", "2"]), "1 + 2 = {}");
    assert_eq!(t_fmt(&i18n, "{} and {}", &["a", "b", "c"]), "a and b");
    assert_eq!(t_fmt(&i18n, "{} {}", &["{}", "x"]), "{} x");
}

#[test]
fn throttling_text_edge_cases() {
    let i18n = dictionaries();
    assert_eq!(localize_throttling(&i18n, "   "), "Yok");
    assert_eq!(localize_throttling(&i18n, "Hayır"), "Yok");
    assert_eq!(localize_throttling(&i18n, "throttle detected"), "Tespit Edildi");
    assert_eq!(localize_throttling(&i18n, "  something else  "), "something else");
    assert_eq!(localize_throttling(&i18n, "thermal )(%5"), "Termal Kısma");
    assert_eq!(localize_throttling(&i18n, "power (PL1)"), "Güç Limiti (PL1)");
}

#[test]
fn power_profile_unknown_and_passthrough() {
    let mut i18n = dictionaries();
    set_language(&mut i18n, "en");
    assert_eq!(localize_power_profile(&i18n, "UNKNOWN"), "Unknown");
    assert_eq!(localize_power_profile(&i18n, ""), "Unknown");
    assert_eq!(localize_power_profile(&i18n, "custom"), "custom");
}

#[test]
fn status_and_gpu_mode_passthrough() {
    let i18n = dictionaries();
    assert_eq!(localize_status(&i18n, "  Running  "), "Running");
    assert_eq!(localize_status(&i18n, "fail"), "HATA");
    assert_eq!(localize_gpu_mode(&i18n, "whatever"), "Sistem Varsayılanı");
}

#[test]
fn language_codes_read_back() {
    let mut i18n = dictionaries();
    for lang in ["en", "tr"] {
        set_language(&mut i18n, lang);
        assert_eq!(get_language(&i18n), lang);
        assert_eq!(t_lang(&i18n, "ready", &get_language(&i18n)), t(&i18n, "ready"));
    }
    assert_eq!(t_lang(&i18n, "ready", "tr"), "Hazır");
    assert_eq!(t_lang(&i18n, "ready", "en"), "Ready");
}
