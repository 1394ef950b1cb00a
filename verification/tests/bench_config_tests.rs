use benchhub::bench_config::{
    ffmpeg_crf_from_field, ffmpeg_duration_from_choice, format_bench_duration,
    parse_bench_duration, parse_u32_field, seven_zip_passes_from_field, thread_count_from_field,
    FfmpegConfig, SevenZipConfig, UnigineConfig,
};

#[test]
fn test_ffmpeg_default_config_generation() {
    let cfg = FfmpegConfig::default();
    let (args, preview, preset_display) = cfg.to_run_args();

    assert!(args.contains(&"-c:v".to_string()));
    assert!(args.contains(&"libx264".to_string()));
    assert!(args.contains(&"-crf".to_string()));
    assert!(args.contains(&"23".to_string()));
    assert!(args.contains(&"-preset".to_string()));
    assert!(args.contains(&"medium".to_string()));
    assert!(preview.starts_with("./ffmpeg "));
    assert!(preset_display.contains("1080p"));
    assert!(preset_display.contains("libx264"));
}

#[test]
fn test_ffmpeg_av1_aom_and_custom_duration() {
    let cfg = FfmpegConfig {
        codec: "AV1 (libaom-av1 - CPU Referans)".to_string(),
        crf: 28,
        preset: "medium".to_string(),
        resolution: "4K UHD (3840x2160)".to_string(),
        input_source: "Sentetik Test Deseni".to_string(),
        duration_enabled: true,
        duration_secs: 15,
        threads: 16,
        custom_args: "-an".to_string(),
    };
    let (args, preview, preset_display) = cfg.to_run_args();

    assert!(args.contains(&"libaom-av1".to_string()));
    assert!(args.contains(&"28".to_string()));
    assert!(args.contains(&"-threads".to_string()));
    assert!(args.contains(&"16".to_string()));
    assert!(args.contains(&"-an".to_string()));
    assert!(preview.contains("3840x2160"));
    assert!(preset_display.contains("4K"));
}

#[test]
fn test_ffmpeg_unlimited_duration_and_nvenc() {
    let cfg = FfmpegConfig {
        codec: "H.264 NVENC (NVIDIA GPU)".to_string(),
        crf: 18,
        preset: "p4".to_string(),
        resolution: "1440p 2K (2560x1440)".to_string(),
        input_source: "Sentetik Test Deseni".to_string(),
        duration_enabled: false,
        duration_secs: 0,
        threads: 0,
        custom_args: "-tune film".to_string(),
    };
    let (args, preview, preset_display) = cfg.to_run_args();

    assert!(args.contains(&"h264_nvenc".to_string()));
    assert!(args.contains(&"-cq".to_string()));
    assert!(args.contains(&"18".to_string()));
    assert!(args.contains(&"-tune".to_string()));
    assert!(args.contains(&"film".to_string()));
    assert!(!preview.contains("duration="));
    assert!(preview.contains("2560x1440"));
    assert!(preset_display.contains("1440p"));
}

#[test]
fn test_7zip_config_generation() {
    let cfg = SevenZipConfig {
        threads: 8,
        dict_size: "64MB".to_string(),
        passes: 3,
        custom_args: "-mm=lzma".to_string(),
    };
    let (args, preview, preset_display) = cfg.to_run_args();

    assert!(args.contains(&"b".to_string()));
    assert!(args.contains(&"-mmt=8".to_string()));
    assert!(args.contains(&"-md=64m".to_string()));
    assert!(args.contains(&"3".to_string()));
    assert!(args.contains(&"-mm=lzma".to_string()));
    assert!(preview.contains("-mmt=8 -md=64m 3"));
    assert!(preset_display.contains("8T"));
    assert!(preset_display.contains("3p"));
}

#[test]
fn test_unigine_config_generation() {
    let cfg_super = UnigineConfig {
        preset: "1080p High".to_string(),
        custom_args: "-fullscreen 1".to_string(),
    };
    let (args_super, prev_super, display_super) = cfg_super.to_run_args("Superposition");
    assert!(args_super.contains(&"-preset".to_string()));
    assert!(args_super.contains(&"3".to_string()));
    assert!(prev_super.contains("./superposition"));
    assert!(display_super.contains("High"));

    let cfg_heaven = UnigineConfig {
        preset: "Basic (720p)".to_string(),
        custom_args: String::new(),
    };
    let (args_heaven, prev_heaven, display_heaven) = cfg_heaven.to_run_args("Heaven");
    assert!(args_heaven.contains(&"1280".to_string()));
    assert!(args_heaven.contains(&"720".to_string()));
    assert!(prev_heaven.contains("./heaven_x64"));
    assert!(display_heaven.contains("Basic"));
}

#[test]
fn test_bench_duration_parsing_and_formatting() {
    assert_eq!(parse_bench_duration("Varsayılan (Genel Ayar)"), None);
    assert_eq!(parse_bench_duration("Default (Global Setting)"), None);
    assert_eq!(parse_bench_duration("Sınırsız (Limit Yok)"), Some(0));
    assert_eq!(parse_bench_duration("Unlimited (No Limit)"), Some(0));
    assert_eq!(parse_bench_duration("30 saniye"), Some(30));
    assert_eq!(parse_bench_duration("60 saniye (1 dk)"), Some(60));
    assert_eq!(parse_bench_duration("120 saniye (2 dk)"), Some(120));
    assert_eq!(parse_bench_duration("180 seconds"), Some(180));
    assert_eq!(parse_bench_duration("300 saniye"), Some(300));
    assert_eq!(parse_bench_duration("600 saniye (10 dk)"), Some(600));

    assert_eq!(format_bench_duration(None, "tr"), "Varsayılan (Genel Ayar)");
    assert_eq!(
        format_bench_duration(None, "en"),
        "Default (Global Setting)"
    );
    assert_eq!(format_bench_duration(Some(0), "tr"), "Sınırsız (Limit Yok)");
    assert_eq!(format_bench_duration(Some(0), "en"), "Unlimited (No Limit)");
    assert_eq!(format_bench_duration(Some(60), "tr"), "60 saniye (1 dk)");
    assert_eq!(format_bench_duration(Some(60), "en"), "60 seconds (1 min)");
}

#[test]
fn bench_duration_labels_read_back() {
    let choices = [None, Some(0u64), Some(30), Some(60), Some(120), Some(180), Some(300), Some(600)];
    for opt in choices {
        for lang in ["tr", "en"] {
            assert_eq!(parse_bench_duration(&format_bench_duration(opt, lang)), opt);
        }
    }
    assert_eq!(format_bench_duration(Some(45), "en"), "45 seconds");
    assert_eq!(format_bench_duration(Some(45), "tr"), "45 saniye");
}

#[test]
fn form_fields_read_as_unsigned_numbers() {
    assert_eq!(parse_u32_field("42"), Some(42));
    assert_eq!(parse_u32_field("+12"), Some(12));
    assert_eq!(parse_u32_field("0"), Some(0));
    assert_eq!(parse_u32_field("4294967295"), Some(4294967295));
    assert_eq!(parse_u32_field(""), None);
    assert_eq!(parse_u32_field("+"), None);
    assert_eq!(parse_u32_field("-1"), None);
    assert_eq!(parse_u32_field("1a"), None);
    assert_eq!(parse_u32_field(" 5"), None);
    assert_eq!(parse_u32_field("4294967296"), None);
}

#[test]
fn form_fields_are_clamped() {
    assert_eq!(ffmpeg_crf_from_field("30"), 30);
    assert_eq!(ffmpeg_crf_from_field("99"), 51);
    assert_eq!(ffmpeg_crf_from_field("x"), 23);
    assert_eq!(thread_count_from_field("8"), 8);
    assert_eq!(thread_count_from_field("500"), 128);
    assert_eq!(thread_count_from_field(""), 0);
    assert_eq!(seven_zip_passes_from_field("0"), 1);
    assert_eq!(seven_zip_passes_from_field("7"), 7);
    assert_eq!(seven_zip_passes_from_field("99"), 50);
    assert_eq!(seven_zip_passes_from_field("abc"), 1);
}

#[test]
fn ffmpeg_duration_choices() {
    assert_eq!(ffmpeg_duration_from_choice("Süresiz (Tam Kaynak)"), (false, 0));
    assert_eq!(ffmpeg_duration_from_choice("Tam"), (false, 0));
    assert_eq!(ffmpeg_duration_from_choice("30 sn"), (true, 30));
    assert_eq!(ffmpeg_duration_from_choice("120 sn (2 dk)"), (true, 120));
    assert_eq!(ffmpeg_duration_from_choice("abc"), (true, 20));
}
