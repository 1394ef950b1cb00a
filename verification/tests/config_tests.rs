use benchhub::config::{
    format_max_test_duration, parse_max_test_duration, AppSettings, DEFAULT_MAX_TEST_DURATION_SECS,
    DEFAULT_SAVE_STOPPED_RUNS, DEFAULT_SELECTED_GPU_MODE, DEFAULT_TELEMETRY_INTERVAL_MS,
    DEFAULT_TERMINAL_BUFFER_LINES,
};

#[test]
fn test_default_settings() {
    let defaults = AppSettings::default();
    assert_eq!(defaults.telemetry_interval_ms, 500);
    assert_eq!(defaults.terminal_buffer_lines, 150);
    assert!(defaults.save_stopped_runs);
    assert_eq!(defaults.selected_gpu_mode, "Harici GPU (NVIDIA)");
    assert_eq!(defaults.language, "tr");
    assert_eq!(defaults.max_test_duration_secs, 600);
}

#[test]
fn test_boundary_clamping_and_sanitization() {
    let mut s = AppSettings {
        telemetry_interval_ms: 123,
        terminal_buffer_lines: 10,
        save_stopped_runs: true,
        selected_gpu_mode: "invalid_mode".into(),
        language: "invalid_lang".into(),
        max_test_duration_secs: 9999,
    };
    s.sanitize();
    assert_eq!(s.telemetry_interval_ms, 500);
    assert_eq!(s.terminal_buffer_lines, 50);
    assert_eq!(s.selected_gpu_mode, "System Default");
    assert_eq!(s.language, "tr");
    assert_eq!(s.max_test_duration_secs, 600);

    let mut s2 = AppSettings {
        telemetry_interval_ms: 1000,
        terminal_buffer_lines: 5000,
        save_stopped_runs: false,
        selected_gpu_mode: "iGPU Dahili".into(),
        language: "English".into(),
        max_test_duration_secs: 180,
    };
    s2.sanitize();
    assert_eq!(s2.telemetry_interval_ms, 1000);
    assert_eq!(s2.terminal_buffer_lines, 1000);
    assert_eq!(s2.selected_gpu_mode, "Dahili GPU (iGPU)");
    assert_eq!(s2.language, "en");
    assert_eq!(s2.max_test_duration_secs, 180);
}

#[test]
fn test_parse_and_format_max_test_duration() {
    assert_eq!(parse_max_test_duration("60 saniye (1 dk)"), 60);
    assert_eq!(parse_max_test_duration("60 seconds (1 min)"), 60);
    assert_eq!(parse_max_test_duration("120 saniye (2 dk)"), 120);
    assert_eq!(parse_max_test_duration("120 seconds (2 min)"), 120);
    assert_eq!(parse_max_test_duration("180 saniye (3 dk)"), 180);
    assert_eq!(parse_max_test_duration("180 seconds (3 min)"), 180);
    assert_eq!(parse_max_test_duration("300 saniye (5 dk - Önerilen)"), 300);
    assert_eq!(
        parse_max_test_duration("300 seconds (5 min - Recommended)"),
        300
    );
    assert_eq!(parse_max_test_duration("600 saniye (10 dk)"), 600);
    assert_eq!(parse_max_test_duration("600 seconds (10 min)"), 600);
    assert_eq!(parse_max_test_duration("Sınırsız (Limit Yok)"), 0);
    assert_eq!(parse_max_test_duration("Unlimited (No Limit)"), 0);
    assert_eq!(parse_max_test_duration("Süresiz"), 0);
    assert_eq!(parse_max_test_duration("unknown text"), 0);

    assert_eq!(format_max_test_duration(60, "tr"), "60 saniye (1 dk)");
    assert_eq!(format_max_test_duration(60, "en"), "60 seconds (1 min)");
    assert_eq!(
        format_max_test_duration(300, "tr"),
        "300 saniye (5 dk - Önerilen)"
    );
    assert_eq!(
        format_max_test_duration(300, "en"),
        "300 seconds (5 min - Recommended)"
    );
    assert_eq!(format_max_test_duration(0, "tr"), "Sınırsız (Limit Yok)");
    assert_eq!(format_max_test_duration(0, "en"), "Unlimited (No Limit)");
}

#[test]
fn defaults_match_named_constants() {
    let s = AppSettings::default();
    assert_eq!(s.telemetry_interval_ms, DEFAULT_TELEMETRY_INTERVAL_MS);
    assert_eq!(s.terminal_buffer_lines, DEFAULT_TERMINAL_BUFFER_LINES);
    assert_eq!(s.save_stopped_runs, DEFAULT_SAVE_STOPPED_RUNS);
    assert_eq!(s.selected_gpu_mode, DEFAULT_SELECTED_GPU_MODE);
    assert_eq!(s.max_test_duration_secs, DEFAULT_MAX_TEST_DURATION_SECS);
}

#[test]
fn sanitize_keeps_valid_settings() {
    for gpu in ["Harici GPU (NVIDIA)", "Dahili GPU (iGPU)", "System Default"] {
        for lang in ["tr", "en"] {
            let original = AppSettings {
                telemetry_interval_ms: 250,
                terminal_buffer_lines: 450,
                save_stopped_runs: false,
                selected_gpu_mode: gpu.to_string(),
                language: lang.to_string(),
                max_test_duration_secs: 120,
            };
            let mut s = original.clone();
            s.sanitize();
            assert_eq!(s, original);
        }
    }
}

#[test]
fn sanitize_is_idempotent() {
    let mut s = AppSettings {
        telemetry_interval_ms: 7,
        terminal_buffer_lines: 100000,
        save_stopped_runs: true,
        selected_gpu_mode: "Sistem Varsayılanı".into(),
        language: "de".into(),
        max_test_duration_secs: 61,
    };
    s.sanitize();
    let once = s.clone();
    s.sanitize();
    assert_eq!(s, once);
    assert_eq!(once.selected_gpu_mode, "System Default");
    assert_eq!(once.terminal_buffer_lines, 1000);
}

#[test]
fn duration_labels_read_back() {
    for secs in [0u64, 60, 120, 180, 300, 600] {
        for lang in ["tr", "en"] {
            assert_eq!(parse_max_test_duration(&format_max_test_duration(secs, lang)), secs);
        }
    }
}

#[test]
fn duration_parse_takes_first_number() {
    assert_eq!(parse_max_test_duration("limit 45 s"), 45);
    assert_eq!(parse_max_test_duration("99999999999999999999999"), 0);
    assert_eq!(format_max_test_duration(45, "en"), "Unlimited (No Limit)");
}
