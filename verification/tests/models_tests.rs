use benchhub::commands::TelemetryUpdateDiff;
use benchhub::models::{BenchmarkProfile, BenchmarkVersion, GpuMode, HistorySortOrder};
use benchhub::state::TerminalMsg;

#[test]
fn test_benchmark_version_override() {
    let profile = BenchmarkProfile {
        id: "geekbench".to_string(),
        name: "Geekbench".to_string(),
        category: "System".to_string(),
        download_size: Some("~100 MB".to_string()),
        description: None,
        download_url: None,
        download_cmd: Some("echo base".to_string()),
        run_cmd: "./geekbench6".to_string(),
        run_args: vec![],
        score_regex: Some("Score (\\d+)".to_string()),
        versions: vec![BenchmarkVersion {
            version: "5.5.1".to_string(),
            download_size: Some("~80 MB".to_string()),
            download_cmd: Some("echo v5".to_string()),
            run_cmd: Some("./geekbench5".to_string()),
            run_args: Some(vec!["--cpu".to_string()]),
            score_regex: Some("V5 Score (\\d+)".to_string()),
            ..Default::default()
        }],
        default_version: Some("6.2.2".to_string()),
        ..Default::default()
    };

    let v5_profile = profile.for_version("5.5.1");
    assert_eq!(v5_profile.name, "Geekbench (5.5.1)");
    assert_eq!(v5_profile.download_size, Some("~80 MB".to_string()));
    assert_eq!(v5_profile.download_cmd, Some("echo v5".to_string()));
    assert_eq!(v5_profile.run_cmd, "./geekbench5");
    assert_eq!(v5_profile.run_args, vec!["--cpu".to_string()]);
    assert_eq!(v5_profile.score_regex, Some("V5 Score (\\d+)".to_string()));

    let non_existent = profile.for_version("unknown");
    assert_eq!(non_existent.name, "Geekbench");
    assert_eq!(non_existent.run_cmd, "./geekbench6");
}

#[test]
fn test_gpu_mode_serialization_and_display() {
    assert_eq!(
        GpuMode::from_display_str("Harici GPU (NVIDIA)"),
        GpuMode::NvidiaDgpu
    );
    assert_eq!(
        GpuMode::from_display_str("Dahili GPU (iGPU)"),
        GpuMode::Integrated
    );
    assert_eq!(
        GpuMode::from_display_str("Sistem Varsayılanı"),
        GpuMode::Auto
    );

    assert_eq!(GpuMode::NvidiaDgpu.to_display_str(), "Harici GPU (NVIDIA)");
    assert_eq!(GpuMode::Integrated.to_display_str(), "Dahili GPU (iGPU)");
    assert_eq!(GpuMode::Auto.to_display_str(), "Sistem Varsayılanı");
}

#[test]
fn gpu_mode_labels_read_back() {
    for m in [GpuMode::NvidiaDgpu, GpuMode::Integrated, GpuMode::Auto] {
        assert_eq!(GpuMode::from_display_str(m.to_display_str()), m);
    }
    assert_eq!(GpuMode::from_display_str("System Default"), GpuMode::Auto);
    assert_eq!(GpuMode::from_display_str("Dedicated GPU NVIDIA"), GpuMode::NvidiaDgpu);
    assert_eq!(GpuMode::from_display_str("Integrated GPU"), GpuMode::Integrated);
}

#[test]
fn sort_orders_from_labels() {
    assert_eq!(HistorySortOrder::from_display_str("En Eski"), HistorySortOrder::DateAsc);
    assert_eq!(HistorySortOrder::from_display_str("Oldest first"), HistorySortOrder::DateAsc);
    let newest = HistorySortOrder::from_display_str("Newest");
    assert_eq!(newest.to_sql_order_clause(), HistorySortOrder::default().to_sql_order_clause());
}

#[test]
fn profile_helpers() {
    let profile = BenchmarkProfile {
        id: "fio".to_string(),
        name: "fio".to_string(),
        run_cmd: "./fio".to_string(),
        download_size: Some("~5 MB".to_string()),
        ..Default::default()
    };
    assert_eq!(profile.get_run_cmd(), "./fio");
    assert!(profile.display_download_size().contains("5 MB"));
    let same = profile.for_version("");
    assert_eq!(same.name, "fio");
}

#[test]
fn telemetry_diff_reports_any_change() {
    let none = TelemetryUpdateDiff {
        update_cpu_temp: false,
        update_gpu_temp: false,
        update_cpu_freq: false,
        update_power_w: false,
        update_cpu_throttle: false,
        update_gpu_throttle: false,
    };
    assert!(!none.has_updates());
    let one = TelemetryUpdateDiff { update_gpu_throttle: true, ..none };
    assert!(one.has_updates());
    assert_ne!(TerminalMsg::Clear, TerminalMsg::Append(String::new()));
}

#[test]
fn stored_defaults_for_missing_values() {
    assert_eq!(benchhub::models::default_throttle_str(), "none");
    assert_eq!(benchhub::models::default_power_profile_str(), "Bilinmiyor");
}
