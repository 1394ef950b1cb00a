use benchhub::catalog::{
    catalog_item, display_version, get_localized_profile_info, has_version_choice,
    initial_version_of, install_dialog_texts, queue_message, run_queue, selected_version_index,
    uninstall_dialog_texts, QueueEntry,
};
use benchhub::i18n::{set_language, t, t_fmt, I18n};
use benchhub::models::{BenchmarkProfile, BenchmarkVersion};

fn dictionaries() -> I18n {
    I18n::load().expect("the dictionaries are tables of strings")
}

fn version(v: &str) -> BenchmarkVersion {
    BenchmarkVersion {
        version: v.to_string(),
        ..Default::default()
    }
}

#[test]
fn known_benchmarks_take_dictionary_texts() {
    let mut i18n = dictionaries();
    let (name, cat, desc) =
        get_localized_profile_info(&i18n, "7zip", "own name", "CPU", "own description");
    assert_eq!(name, "7-Zip");
    assert_eq!(name, t(&i18n, "bench_7zip_name"));
    assert_eq!(desc, t(&i18n, "bench_7zip_desc"));
    assert_eq!(cat, t(&i18n, "cat_cpu_full"));
    assert_eq!(cat, "İşlemci (CPU)");

    set_language(&mut i18n, "en");
    let (name, cat, desc) =
        get_localized_profile_info(&i18n, "llama-bench", "x", "LLM", "y");
    assert_eq!(name, "llama-bench");
    assert_eq!(desc, t(&i18n, "bench_llama_bench_desc"));
    assert_eq!(cat, "AI (LLM)");
}

#[test]
fn unknown_benchmarks_keep_their_own_texts() {
    let i18n = dictionaries();
    let (name, cat, desc) =
        get_localized_profile_info(&i18n, "custom", "My Bench", "Misc", "Something");
    assert_eq!(name, "My Bench");
    assert_eq!(cat, "Misc");
    assert_eq!(desc, "Something");
}

#[test]
fn categories_are_recognised_in_order() {
    let i18n = dictionaries();
    let cat = |c: &str| get_localized_profile_info(&i18n, "x", "", c, "").1;
    assert_eq!(cat("Render / CPU"), t(&i18n, "cat_render_full"));
    assert_eq!(cat("System"), t(&i18n, "cat_system_full"));
    assert_eq!(cat("Grafik"), t(&i18n, "cat_gpu_full"));
    assert_eq!(cat("Processor"), t(&i18n, "cat_cpu_full"));
    assert_eq!(cat("Yapay Zeka"), t(&i18n, "cat_ai_full"));
    assert_eq!(cat("Memory"), t(&i18n, "cat_ram_full"));
    assert_eq!(cat("Disk"), t(&i18n, "cat_disk_full"));
    assert_eq!(cat("gpu"), "gpu");
}

#[test]
fn initial_version_prefers_default_then_first_then_own() {
    let mut p = BenchmarkProfile {
        id: "blender".to_string(),
        versions: vec![version("4.1"), version("4.2")],
        default_version: Some("4.2".to_string()),
        version: Some("3.0".to_string()),
        ..Default::default()
    };
    assert_eq!(initial_version_of(&p), "4.2");
    p.default_version = None;
    assert_eq!(initial_version_of(&p), "4.1");
    p.versions.clear();
    assert_eq!(initial_version_of(&p), "3.0");
    p.version = None;
    assert_eq!(initial_version_of(&p), "");
}

#[test]
fn version_choice_and_index() {
    let p = BenchmarkProfile {
        id: "ffmpeg".to_string(),
        versions: vec![version("6.0"), version("7.0"), version("7.0")],
        ..Default::default()
    };
    assert!(has_version_choice(&p));
    assert_eq!(selected_version_index(&p, "7.0"), 1);
    assert_eq!(selected_version_index(&p, "6.0"), 0);
    assert_eq!(selected_version_index(&p, "9.9"), 0);
    let q = BenchmarkProfile {
        id: "cray".to_string(),
        versions: vec![version("1"), version("2")],
        ..Default::default()
    };
    assert!(!has_version_choice(&q));
    let r = BenchmarkProfile {
        id: "7zip".to_string(),
        versions: vec![version("23.01")],
        ..Default::default()
    };
    assert!(!has_version_choice(&r));
}

#[test]
fn version_labels() {
    assert_eq!(display_version("cray", "2.0", false), "v1.1");
    assert_eq!(display_version("ycruncher", "", false), "v0.8.7");
    assert_eq!(display_version("stream", "", false), "v5.10");
    assert_eq!(display_version("fio", "", false), "v3.38");
    assert_eq!(display_version("gravitymark", "", false), "v1.89");
    assert_eq!(display_version("llama-bench", "", false), "b10729");
    assert_eq!(display_version("7zip", "23.01", true), "23.01");
    assert_eq!(display_version("7zip", "", false), "v1.0");
    assert_eq!(display_version("x", "v2", false), "v2");
    assert_eq!(display_version("x", "b100", false), "b100");
    assert_eq!(display_version("x", "2.5", false), "v2.5");
    assert_eq!(display_version("x", "latest", false), "latest");
}

#[test]
fn catalog_item_combines_profile_and_selection() {
    let i18n = dictionaries();
    let p = BenchmarkProfile {
        id: "geekbench".to_string(),
        name: "Geekbench".to_string(),
        category: "System".to_string(),
        download_size: Some("~100 MB".to_string()),
        versions: vec![
            BenchmarkVersion {
                version: "5.5.1".to_string(),
                download_size: Some("~80 MB".to_string()),
                ..Default::default()
            },
            version("6.2.2"),
        ],
        default_version: Some("5.5.1".to_string()),
        ..Default::default()
    };
    let item = catalog_item(&i18n, &p, true);
    assert_eq!(item.id, "geekbench");
    assert_eq!(item.name, t(&i18n, "bench_geekbench_name"));
    assert_eq!(item.category, t(&i18n, "cat_system_full"));
    assert_eq!(item.description, t(&i18n, "bench_geekbench_desc"));
    assert_eq!(item.download_size, "~80 MB");
    assert!(item.installed);
    assert!(!item.running);
    assert!(item.has_versions);
    assert_eq!(item.versions, vec!["5.5.1".to_string(), "6.2.2".to_string()]);
    assert_eq!(item.selected_version, "5.5.1");
    assert_eq!(item.selected_version_index, 0);
    assert_eq!(item.display_version, "5.5.1");

    let own = BenchmarkProfile {
        id: "mybench".to_string(),
        name: "Mine".to_string(),
        category: "Misc".to_string(),
        description: Some("desc".to_string()),
        approx_size_mb: Some(12),
        version: Some("3".to_string()),
        ..Default::default()
    };
    let item = catalog_item(&i18n, &own, false);
    assert_eq!(item.name, "Mine");
    assert_eq!(item.category, "Misc");
    assert_eq!(item.description, "desc");
    assert_eq!(item.download_size, "~12 MB");
    assert!(!item.installed);
    assert!(!item.has_versions);
    assert!(item.versions.is_empty());
    assert_eq!(item.selected_version, "3");
    assert_eq!(item.display_version, "v3");
}

#[test]
fn catalog_entry_follows_version_choice_and_install() {
    let i18n = dictionaries();
    let p = BenchmarkProfile {
        id: "blender".to_string(),
        name: "Blender".to_string(),
        category: "Render".to_string(),
        versions: vec![
            BenchmarkVersion {
                version: "4.1".to_string(),
                download_size: Some("~300 MB".to_string()),
                ..Default::default()
            },
            BenchmarkVersion {
                version: "4.2".to_string(),
                download_size: Some("~350 MB".to_string()),
                ..Default::default()
            },
        ],
        ..Default::default()
    };
    let mut item = catalog_item(&i18n, &p, false);
    assert_eq!(item.selected_version, "4.1");
    item.select_version(Some(&p), "4.2", false);
    assert_eq!(item.selected_version, "4.2");
    assert_eq!(item.display_version, "4.2");
    assert_eq!(item.selected_version_index, 1);
    assert_eq!(item.download_size, "~350 MB");
    assert!(!item.installed);

    item.start_install();
    assert!(item.running);
    item.finish_install(true, "4.1");
    assert!(!item.running);
    assert!(!item.installed);
    item.start_install();
    item.finish_install(false, "4.2");
    assert!(!item.installed);
    item.finish_install(true, "4.2");
    assert!(item.installed);

    item.select_version(None, "9.9", true);
    assert_eq!(item.selected_version_index, 1);
    assert_eq!(item.download_size, "~350 MB");
    assert!(item.installed);
}

#[test]
fn run_all_queue_takes_installed_known_entries() {
    let i18n = dictionaries();
    let profiles = vec![
        BenchmarkProfile { id: "fio".to_string(), ..Default::default() },
        BenchmarkProfile { id: "cray".to_string(), ..Default::default() },
    ];
    let a = catalog_item(&i18n, &profiles[1], true);
    let b = catalog_item(&i18n, &profiles[0], false);
    let c = catalog_item(&i18n, &BenchmarkProfile { id: "ghost".to_string(), ..Default::default() }, true);
    let d = catalog_item(&i18n, &profiles[0], true);
    let q = run_queue(&[a, b, c, d], &[true, false, true, true], &profiles);
    assert_eq!(
        q,
        vec![
            QueueEntry { id: "cray".to_string(), version: String::new(), profile: 1 },
            QueueEntry { id: "fio".to_string(), version: String::new(), profile: 0 },
        ]
    );
    assert_eq!(
        queue_message(&i18n, 0, 2, "C-Ray"),
        t_fmt(&i18n, "queue_running_fmt", &["1", "2", "C-Ray"])
    );
}

#[test]
fn install_and_uninstall_dialogs() {
    let i18n = dictionaries();
    let p = BenchmarkProfile {
        id: "cray".to_string(),
        name: "C-Ray".to_string(),
        category: "CPU".to_string(),
        approx_size_mb: Some(2),
        ..Default::default()
    };
    let d = install_dialog_texts(&i18n, &p, "");
    assert_eq!(d.name, t(&i18n, "bench_cray_name"));
    assert_eq!(d.title, d.name);
    assert_eq!(d.category, t(&i18n, "cat_cpu_full"));
    assert_eq!(d.size, "~2 MB");
    assert_eq!(d.description, t(&i18n, "bench_cray_desc"));
    assert_eq!(d.eula, benchhub::eula::get_eula_for_benchmark("cray"));
    let d = install_dialog_texts(&i18n, &p, "1.1");
    assert_eq!(d.title, format!("{} 1.1", d.name));

    let u = uninstall_dialog_texts(&i18n, &p, "1.1");
    assert_eq!(u.title, format!("{}: 1.1", t(&i18n, "uninstall")));
    assert_eq!(u.name, t(&i18n, "bench_cray_name"));
    assert_eq!(u.location, "runners/cray/1.1");
}
