use benchhub::history::{history_gpu_mode, history_status, next_default_group_name};
use benchhub::i18n::{set_language, I18n};
use benchhub::models::GpuMode;
use benchhub::runs::{
    benchmark_id_with_version, effective_timeout_secs, gpu_env_vars, graphics_env_names,
    is_superposition, library_search_path, record_action, run_log_file_name, run_status,
    should_record_run, RunRecordAction,
};
use benchhub::telemetry::get_power_profile;

#[test]
fn time_limits() {
    assert_eq!(effective_timeout_secs(Some(0), 600), None);
    assert_eq!(effective_timeout_secs(Some(30), 600), Some(30));
    assert_eq!(effective_timeout_secs(None, 600), Some(600));
    assert_eq!(effective_timeout_secs(None, 0), None);
}

#[test]
fn names_of_runs_and_logs() {
    assert_eq!(run_log_file_name(1700000000, "geekbench", "6.2.2"), "1700000000_geekbench_6.2.2.log");
    assert_eq!(run_log_file_name(5, "fio", ""), "5_fio.log");
    assert_eq!(run_log_file_name(-7, "x", ""), "-7_x.log");
    assert_eq!(benchmark_id_with_version("geekbench", "5.5.1"), "geekbench-5.5.1");
    assert_eq!(benchmark_id_with_version("fio", ""), "fio");
}

#[test]
fn run_environment() {
    assert!(is_superposition("unigine_superposition", "x", ""));
    assert!(is_superposition("unigine", "Unigine", ""));
    assert!(!is_superposition("unigine", "Unigine", "Heaven"));
    assert!(is_superposition("x", "My SUPERPOSITION run", "1.0"));
    let p = library_search_path("/w", Some("/usr/lib"));
    assert!(p.starts_with("/w/bin/qt/lib:/w/qt/lib:/w/bin:"));
    assert!(p.ends_with(":./lib/x64:.:/usr/lib"));
    assert!(library_search_path("/w", Some("")).ends_with(":./lib/x64:."));
    assert_eq!(library_search_path("/w", None), library_search_path("/w", Some("")));
    assert_eq!(gpu_env_vars(GpuMode::Integrated), vec![("__NV_PRIME_RENDER_OFFLOAD", "0"), ("DRI_PRIME", "0")]);
    assert_eq!(gpu_env_vars(GpuMode::NvidiaDgpu).len(), 4);
    assert!(gpu_env_vars(GpuMode::Auto).is_empty());
    assert_eq!(graphics_env_names()[0], "DISPLAY");
}

#[test]
fn run_outcomes() {
    assert_eq!(run_status(true, true, Some(0), true), "Stopped");
    assert_eq!(run_status(false, true, None, true), "Timeout (Scored)");
    assert_eq!(run_status(false, true, None, false), "Timeout");
    assert_eq!(run_status(false, false, Some(0), true), "Success");
    assert_eq!(run_status(false, false, Some(0), false), "Completed");
    assert_eq!(run_status(false, false, Some(1), true), "Scored");
    assert_eq!(run_status(false, false, None, false), "Completed (Log Saved)");
    assert!(should_record_run("Stopped", false));
    assert!(!should_record_run("Durduruldu", false));
    assert!(should_record_run("Durduruldu", true));
    assert_eq!(record_action(true, 4), RunRecordAction::Update);
    assert_eq!(record_action(true, 0), RunRecordAction::Insert);
    assert_eq!(record_action(false, 4), RunRecordAction::Delete);
    assert_eq!(record_action(false, 0), RunRecordAction::Nothing);
}

#[test]
fn group_names_and_history_words() {
    assert_eq!(next_default_group_name(&vec![]), "grup-01");
    assert_eq!(
        next_default_group_name(&vec!["grup-01".to_string(), "grup-02".to_string(), "x".to_string()]),
        "grup-03"
    );
    let mut taken: Vec<String> = (1..=9).map(|i| format!("grup-{:02}", i)).collect();
    assert_eq!(next_default_group_name(&taken), "grup-10");
    taken = (1..=999).map(|i| format!("grup-{:02}", i)).collect();
    assert_eq!(next_default_group_name(&taken), "grup-01");

    let mut i18n = I18n::load().unwrap();
    set_language(&mut i18n, "en");
    assert_eq!(history_status(&i18n, "TAMAMLANDI"), "COMPLETED");
    assert_eq!(history_status(&i18n, "Durduruldu"), "CANCELLED");
    assert_eq!(history_status(&i18n, "Success"), "Success");
    assert_eq!(history_gpu_mode(&i18n, "Harici GPU (NVIDIA)"), "Dedicated GPU NVIDIA");
    assert_eq!(history_gpu_mode(&i18n, "System Default"), "System Default");
}

#[test]
fn power_profiles_from_sources() {
    assert_eq!(get_power_profile(Some("performance\n"), None, None), "Performans (performance)");
    assert_eq!(get_power_profile(Some("  "), Some("quiet"), None), "Güç Tasarrufu (power-saver)");
    assert_eq!(get_power_profile(None, Some("custom"), Some("powersave")), "custom");
    assert_eq!(get_power_profile(None, None, Some("ondemand\n")), "Dengeli (schedutil)");
    assert_eq!(get_power_profile(None, Some(""), None), "Bilinmiyor");
}

#[test]
fn test_get_power_profile_detection() {
    let profile = get_power_profile(None, None, None);
    assert!(!profile.is_empty(), "Power profile should not be empty");
}

#[test]
fn test_gpu_mode_environment_injection() {
    // 1. NvidiaDgpu Mode
    let envs = gpu_env_vars(GpuMode::NvidiaDgpu);
    assert!(envs.iter().any(|(k, v)| *k == "__NV_PRIME_RENDER_OFFLOAD" && *v == "1"));
    assert!(envs.iter().any(|(k, v)| *k == "__GLX_VENDOR_LIBRARY_NAME" && *v == "nvidia"));
    assert!(envs.iter().any(|(k, v)| *k == "__VK_LAYER_NV_optimus" && *v == "NVIDIA_only"));
    assert!(envs.iter().any(|(k, v)| *k == "DRI_PRIME" && *v == "1"));

    // 2. Integrated Mode
    let envs_igpu = gpu_env_vars(GpuMode::Integrated);
    assert!(envs_igpu.iter().any(|(k, v)| *k == "__NV_PRIME_RENDER_OFFLOAD" && *v == "0"));
    assert!(envs_igpu.iter().any(|(k, v)| *k == "DRI_PRIME" && *v == "0"));

    // 3. Auto Mode
    let envs_auto = gpu_env_vars(GpuMode::Auto);
    assert!(!envs_auto.iter().any(|(k, _)| *k == "__NV_PRIME_RENDER_OFFLOAD"));
}
