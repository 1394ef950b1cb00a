use benchhub::methodology::{summarize_methodology, MethodologyError, MethodologyRun};

fn run(id: &str, gpu: &str, cpu_t: &str, gpu_t: &str, freqs: [u32; 6]) -> MethodologyRun {
    MethodologyRun {
        benchmark_id: id.to_string(),
        category: "CPU".to_string(),
        gpu_mode: gpu.to_string(),
        cpu_throttling: cpu_t.to_string(),
        gpu_throttling: gpu_t.to_string(),
        avg_cpu_freq_mhz: freqs[0],
        peak_cpu_freq_mhz: freqs[1],
        avg_gpu_freq_mhz: freqs[2],
        peak_gpu_freq_mhz: freqs[3],
        avg_vram_freq_mhz: freqs[4],
        peak_vram_freq_mhz: freqs[5],
    }
}

#[test]
fn methodology_needs_two_runs_of_one_benchmark() {
    assert_eq!(summarize_methodology(&[]).err(), Some(MethodologyError::TooFewRuns));
    let one = [run("7zip", "Sistem", "Yok", "Yok", [1; 6])];
    assert_eq!(summarize_methodology(&one).err(), Some(MethodologyError::TooFewRuns));
    let mixed = [
        run("7zip", "Sistem", "Yok", "Yok", [1; 6]),
        run("cray", "Sistem", "Yok", "Yok", [1; 6]),
    ];
    assert_eq!(summarize_methodology(&mixed).err(), Some(MethodologyError::MixedBenchmarks));
    assert_eq!(MethodologyError::TooFewRuns.message(), "En az 2 test seçilmelidir.");
    assert_eq!(
        MethodologyError::MixedBenchmarks.message(),
        "Tüm testlerin benchmark_id değeri aynı olmalıdır."
    );
}

#[test]
fn methodology_summary_values() {
    let runs = [
        run("7zip", "Sistem", "Yok", "Yok", [3000, 3500, 1000, 1200, 800, 900]),
        run("7zip", "Sistem", "thermal_throttle", "Yok", [3001, 3400, 1001, 1300, 801, 950]),
        run("7zip", "Sistem", "Yok", "power_limit", [3003, 3600, 1002, 1250, 802, 940]),
    ];
    let s = summarize_methodology(&runs).ok().expect("three runs of one benchmark");
    assert_eq!(s.benchmark_id, "7zip");
    assert_eq!(s.category, "CPU");
    assert_eq!(s.preset_or_version, "3 Test Ortalaması");
    assert_eq!(s.gpu_mode, "Sistem");
    assert_eq!(s.status, "Tamamlandı");
    assert_eq!(s.cpu_throttling, "thermal_throttle");
    assert_eq!(s.gpu_throttling, "power_limit");
    assert_eq!(s.avg_cpu_freq_mhz, 3001); // 9004 / 3, rounded down
    assert_eq!(s.peak_cpu_freq_mhz, 3600);
    assert_eq!(s.avg_gpu_freq_mhz, 1001);
    assert_eq!(s.peak_gpu_freq_mhz, 1300);
    assert_eq!(s.avg_vram_freq_mhz, 801);
    assert_eq!(s.peak_vram_freq_mhz, 950);
}

#[test]
fn methodology_gpu_mode_mixed_and_no_throttling() {
    let runs = [
        run("ffmpeg", "Sistem", "Yok", "Yok", [u32::MAX; 6]),
        run("ffmpeg", "NVIDIA", "Yok", "Yok", [u32::MAX; 6]),
    ];
    let s = summarize_methodology(&runs).ok().expect("two runs of one benchmark");
    assert_eq!(s.gpu_mode, "Karma");
    assert_eq!(s.cpu_throttling, "Yok");
    assert_eq!(s.gpu_throttling, "Yok");
    assert_eq!(s.avg_cpu_freq_mhz, u32::MAX);
    assert_eq!(s.peak_vram_freq_mhz, u32::MAX);
    assert_eq!(s.preset_or_version, "2 Test Ortalaması");
}
