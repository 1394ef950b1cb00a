use benchhub::telemetry::{
    add_uevent_gpus, cpu_display_name, cpuinfo_model_name, dpm_frequency_tokens, is_cpu_core_dir_name,
    is_drm_card_name, is_rapl_zone_name, system_summary, tally_throttle_notes, cpu_throttle_verdict,
    gpu_throttle_verdict, throttle_summary_text, verdict_sample_count, ThrottleVerdict,
    drm_card_probe_files, get_sensor_diagnosis, gpu_listing_is_well_formed, gpu_names_from_listing,
    nvidia_model, SensorCache,
};

#[test]
fn test_sensor_diagnosis_non_empty() {
    let cache = SensorCache::new();
    let diag = get_sensor_diagnosis(&cache, false, false, true);
    assert!(
        !diag.is_empty(),
        "Sensor diagnosis string should not be empty"
    );
}

#[test]
fn diagnosis_lists_found_sensors() {
    let mut cache = SensorCache::new();
    assert_eq!(
        get_sensor_diagnosis(&cache, false, false, true),
        "No CPU Temp Sensor  •  No Power Sensor Found"
    );
    cache.add_hwmon_device(
        "/sys/class/hwmon/hwmon1",
        "k10temp\n",
        &vec!["temp1_input".to_string(), "temp2_input".to_string(), "name".to_string()],
    );
    assert_eq!(cache.cpu_temp_paths.len(), 2);
    assert_eq!(
        get_sensor_diagnosis(&cache, true, true, true),
        "2 CPU Temperature Sensor(s)  •  NVIDIA NVML (dGPU) Active  •  GPU Power Sensor Active (W)  •  Intel RAPL Energy/Power Active"
    );
    assert_eq!(
        get_sensor_diagnosis(&cache, false, false, false),
        "2 CPU Sıcaklık Sensörü  •  Güç Sensörü Bulunamadı"
    );
}

#[test]
fn hwmon_files_are_filed_by_device_kind() {
    let mut cache = SensorCache::new();
    cache.add_hwmon_device(
        "/sys/class/hwmon/hwmon3",
        " AMDGPU ",
        &vec![
            "power1_input".to_string(),
            "temp1_input".to_string(),
            "freq1_input".to_string(),
            "freq2_input".to_string(),
            "power1_average".to_string(),
        ],
    );
    assert_eq!(cache.gpu_temp_paths, vec!["/sys/class/hwmon/hwmon3/temp1_input"]);
    assert_eq!(cache.gpu_freq_paths, vec!["/sys/class/hwmon/hwmon3/freq1_input"]);
    assert_eq!(cache.vram_freq_paths, vec!["/sys/class/hwmon/hwmon3/freq2_input"]);
    assert_eq!(cache.apu_power_paths, vec!["/sys/class/hwmon/hwmon3/power1_average"]);
    assert!(cache.cpu_power_paths.is_empty());
    cache.use_apu_power_for_cpu();
    assert_eq!(cache.cpu_power_paths, vec!["/sys/class/hwmon/hwmon3/power1_average"]);

    let mut other = SensorCache::new();
    other.add_hwmon_device("/h/0", "nvme", &vec!["temp1_input".to_string(), "power1_input".to_string()]);
    assert!(other.cpu_temp_paths.is_empty() && other.gpu_temp_paths.is_empty());
    assert!(other.gpu_power_paths.is_empty());

    let mut intel = SensorCache::new();
    intel.add_hwmon_device("/h/2", "i915", &vec!["power1_input".to_string()]);
    assert_eq!(intel.gpu_power_paths, vec!["/h/2/power1_input"]);
}

#[test]
fn power_supplies_thermal_zones_and_cards() {
    let mut cache = SensorCache::new();
    cache.add_power_supply("/ps/BAT0", "BAT0", true, false);
    cache.add_power_supply("/ps/AC", "AC", false, true);
    cache.add_power_supply("/ps/usb", "ucsi-source", true, true);
    assert_eq!(cache.battery_power_paths, vec!["/ps/BAT0/power_now"]);
    assert_eq!(cache.ac_online_path, Some("/ps/AC/online".to_string()));

    cache.add_thermal_entry("/tz/thermal_zone0", "thermal_zone0", "x86_pkg_temp\n", false);
    cache.add_thermal_entry("/tz/thermal_zone1", "thermal_zone1", "acpitz\n", false);
    assert_eq!(cache.cpu_temp_paths, vec!["/tz/thermal_zone0/temp"]);
    cache.add_thermal_entry("/tz/cooling_device0", "cooling_device0", " Processor \n", true);
    cache.add_thermal_entry("/tz/cooling_device1", "cooling_device1", "Fan", true);
    assert_eq!(cache.processor_cooling_cur_states, vec!["/tz/cooling_device0/cur_state"]);

    let files = drm_card_probe_files();
    assert_eq!(files.len(), 7);
    cache.add_drm_card("/drm/card0", "card0", &vec![true, true, false, false, true, true, true]);
    cache.add_drm_card("/drm/card0-DP-1", "card0-DP-1", &vec![true; 7]);
    assert_eq!(cache.gpu_usage_paths, vec!["/drm/card0/device/gpu_busy_percent"]);
    assert_eq!(
        cache.gpu_freq_paths,
        vec!["/drm/card0/device/pp_dpm_sclk", "/drm/card0/gt_cur_freq_mhz"]
    );
    assert_eq!(cache.vram_freq_paths, vec!["/drm/card0/device/pp_dpm_mclk"]);
    assert_eq!(cache.vram_used_paths, vec!["/drm/card0/device/mem_info_vram_used"]);
}

#[test]
fn gpu_names_from_driver_and_listing() {
    assert_eq!(
        nvidia_model("Model: \t NVIDIA GeForce RTX 4070 Laptop GPU\nIRQ: 145\n"),
        Some("NVIDIA GeForce RTX 4070 Laptop GPU".to_string())
    );
    assert_eq!(nvidia_model("Model:   \nModel: Model: T1000\r\n"), Some("Model: T1000".to_string()));
    assert_eq!(nvidia_model("IRQ: 1\n"), None);

    let listing = "00:02.0 VGA compatible controller: Intel Corporation Alder Lake-P GT2 [Iris Xe Graphics] (rev 0c)\n\
01:00.0 3D controller: NVIDIA Corporation AD106M [GeForce RTX 4070 Max-Q / Mobile] (rev a1)\n\
06:00.0 Display controller: Advanced Micro Devices, Inc. [AMD/ATI] Rembrandt [Radeon 680M]\n";
    assert!(gpu_listing_is_well_formed(&None, listing));
    let (d, i) = gpu_names_from_listing(None, listing);
    assert_eq!(d, Some("NVIDIA GeForce RTX 4070 Max-Q / Mobile".to_string()));
    assert_eq!(i, Some("Intel Iris Xe Graphics".to_string()));

    let amd = "06:00.0 VGA compatible controller: Advanced Micro Devices, Inc. [AMD/ATI] Phoenix1\n";
    let (d2, i2) = gpu_names_from_listing(Some("Known".to_string()), amd);
    assert_eq!(d2, Some("Known".to_string()));
    assert_eq!(i2, Some("AMD ".to_string()));

    let bad = "00:02.0 VGA compatible controller: Intel ] odd [ name\n";
    assert!(!gpu_listing_is_well_formed(&None, bad));
    assert!(gpu_listing_is_well_formed(&None, "00:1f.3 Audio device: Intel ] [\n"));
}

#[test]
fn cpuinfo_model_is_value_after_colon() {
    let info = "processor\t: 0\nmodel name\t: AMD Ryzen 7 5800X 8-Core Processor\nflags\t: fpu\n";
    assert_eq!(
        cpuinfo_model_name(info),
        Some("AMD Ryzen 7 5800X 8-Core Processor".to_string())
    );
    assert_eq!(cpuinfo_model_name("model name without colon\nflags: x\n"), None);
    assert_eq!(cpuinfo_model_name("model name: a: b\n"), Some("a: b".to_string()));
}

#[test]
fn cpu_name_prefers_brand_then_cpuinfo_then_default() {
    assert_eq!(cpu_display_name(Some("  Intel Core i5  "), Some("model name: X\n")), "Intel Core i5");
    assert_eq!(cpu_display_name(Some("   "), Some("model name: X\n")), "X");
    assert_eq!(cpu_display_name(None, Some("flags: y\n")), "CPU");
    assert_eq!(cpu_display_name(None, None), "CPU");
}

#[test]
fn uevent_gpus_are_named_and_added_once() {
    let mut names: Vec<String> = Vec::new();
    add_uevent_gpus(&mut names, "DRIVER=amdgpu\nPCI_ID=1002:73BF\n");
    add_uevent_gpus(&mut names, "DRIVER=amdgpu\n");
    add_uevent_gpus(&mut names, "DRIVER=DRIVER=i915\nDRIVER= simpledrm \n");
    assert_eq!(
        names,
        vec![
            "AMD Radeon GPU".to_string(),
            "Intel Graphics".to_string(),
            "simpledrm".to_string()
        ]
    );
}

#[test]
fn drm_card_names_exclude_connectors() {
    assert!(is_drm_card_name("card0"));
    assert!(!is_drm_card_name("card0-HDMI-A-1"));
    assert!(!is_drm_card_name("renderD128"));
}

#[test]
fn system_summary_joins_parts() {
    let gpus = vec!["NVIDIA GPU".to_string(), "Intel Graphics".to_string()];
    assert_eq!(
        system_summary("Ryzen", &gpus, "Arch Linux", "6.9.1"),
        "Ryzen | NVIDIA GPU + Intel Graphics | Arch Linux 6.9.1"
    );
    assert_eq!(
        system_summary("Ryzen", &Vec::new(), "Linux", ""),
        "Ryzen | Standart GPU | Linux"
    );
}

#[test]
fn dpm_tokens_come_from_starred_lines() {
    let table = "0: 500Mhz\n1: 1500Mhz *\n2: 2100MHz\n";
    assert_eq!(dpm_frequency_tokens(table), vec!["1".to_string(), "1500".to_string(), "".to_string()]);
    assert_eq!(dpm_frequency_tokens("2100000\n"), Vec::<String>::new());
    assert_eq!(dpm_frequency_tokens("1: 800MHz:*"), vec!["1".to_string(), "800MHz".to_string()]);
}

#[test]
fn cpu_core_and_rapl_names() {
    assert!(is_cpu_core_dir_name("cpu0"));
    assert!(is_cpu_core_dir_name("cpu12"));
    assert!(is_cpu_core_dir_name("cpu"));
    assert!(!is_cpu_core_dir_name("cpufreq"));
    assert!(!is_cpu_core_dir_name("cpuidle"));
    assert!(is_rapl_zone_name("intel-rapl:0"));
    assert!(!is_rapl_zone_name("dtpm"));
}

fn notes(v: &[&str]) -> Vec<String> {
    v.iter().map(|s| s.to_string()).collect()
}

#[test]
fn throttle_tally_counts_notes() {
    let t = tally_throttle_notes(&notes(&["none", "Termal Kısma", "power cap", "thermal", "-", ""]));
    assert_eq!((t.samples, t.thermal, t.power, t.detected), (6, 2, 1, true));
    let quiet = tally_throttle_notes(&notes(&["none", "Yok", "-", ""]));
    assert_eq!((quiet.thermal, quiet.power, quiet.detected), (0, 0, false));
}

#[test]
fn throttle_verdicts_follow_priority() {
    let power_only = tally_throttle_notes(&notes(&["Güç Limiti", "none"]));
    assert_eq!(gpu_throttle_verdict(&power_only), ThrottleVerdict::PowerLimit);
    assert_eq!(cpu_throttle_verdict(&power_only), ThrottleVerdict::Detected);
    let thermal = tally_throttle_notes(&notes(&["thermal", "power"]));
    assert_eq!(gpu_throttle_verdict(&thermal), ThrottleVerdict::Thermal);
    let quiet = tally_throttle_notes(&notes(&["none"]));
    assert_eq!(cpu_throttle_verdict(&quiet), ThrottleVerdict::NoThrottling);
    assert_eq!(gpu_throttle_verdict(&tally_throttle_notes(&Vec::new())), ThrottleVerdict::NoThrottling);
}

#[test]
fn throttle_summary_texts() {
    assert_eq!(throttle_summary_text(ThrottleVerdict::Thermal, 45), "Termal Kısma (%45)");
    assert_eq!(throttle_summary_text(ThrottleVerdict::PowerLimit, 100), "Güç Limiti (%100)");
    assert_eq!(throttle_summary_text(ThrottleVerdict::Detected, 3), "detected");
    assert_eq!(throttle_summary_text(ThrottleVerdict::NoThrottling, 0), "none");
}

#[test]
fn test_system_info_summary_generation() {
    let cpu = cpu_display_name(None, None);
    let sys_info = system_summary(&cpu, &Vec::new(), "Linux", "");
    assert!(!sys_info.is_empty(), "System info summary must not be empty");
    assert!(sys_info.contains('|'), "System info summary should contain delimiter pipes");
}

#[test]
fn throttling_of_two_samples_is_half() {
    let cpu = tally_throttle_notes(&notes(&["Yok", "Termal Kısma"]));
    let gpu = tally_throttle_notes(&notes(&["Yok", "Güç Limiti"]));
    assert_eq!(throttle_summary_text(cpu_throttle_verdict(&cpu), 50), "Termal Kısma (%50)");
    assert_eq!(throttle_summary_text(gpu_throttle_verdict(&gpu), 50), "Güç Limiti (%50)");
}

#[test]
fn verdict_counts_pick_the_samples_behind_them() {

    let gpu = tally_throttle_notes(&notes(&["Güç Limiti", "power", "thermal"]));
    assert_eq!(verdict_sample_count(ThrottleVerdict::PowerLimit, &gpu), 2);
    assert_eq!(verdict_sample_count(ThrottleVerdict::Thermal, &gpu), 1);
}
