use benchhub::comparison::{
    comparison_svg, SvgCellTexts, SvgColumnTexts, SvgHeaderTexts, SvgRowTexts, SvgSectionTexts,
};
use benchhub::export::{history_csv, HistoryCsvRow};

fn header(runs: usize, tests_word: &str) -> SvgHeaderTexts {
    SvgHeaderTexts {
        title: "BenchHub - Test Karşılaştırma Raporu".to_string(),
        subtitle: "Oluşturulma: 2024-01-01 10:00 UTC".to_string(),
        tests_compared: format!("{} {}", runs, tests_word),
        test_parameters: "Test Parametreleri".to_string(),
        score_label: "Skor".to_string(),
        footer: "BenchHub".to_string(),
    }
}

fn column(id: &str, score: &str) -> SvgColumnTexts {
    SvgColumnTexts {
        benchmark_id: id.to_string(),
        preset: "Extreme".to_string(),
        gpu_mode: "Harici GPU".to_string(),
        score: score.to_string(),
        date: "2024-01-01 10:00".to_string(),
    }
}

fn cell(text: &str, danger: bool, warning: bool) -> SvgCellTexts {
    SvgCellTexts { text: text.to_string(), danger, warning }
}

#[test]
fn test_generate_comparison_svg_validity() {
    let columns = vec![column("Unigine Heaven", "3450.0"), column("Unigine Heaven", "3620.0")];
    let sections = vec![
        SvgSectionTexts {
            title: "İşlemci".to_string(),
            color: "#38bdf8".to_string(),
            rows: vec![SvgRowTexts {
                label: "Kısma".to_string(),
                color: "#f8fafc".to_string(),
                cells: vec![cell("Yok", false, false), cell("Termal Kısma", true, false)],
            }],
        },
        SvgSectionTexts {
            title: "Diğer".to_string(),
            color: "#94a3b8".to_string(),
            rows: vec![
                SvgRowTexts {
                    label: "GPU Modu".to_string(),
                    color: "#38bdf8".to_string(),
                    cells: vec![cell("Harici GPU", false, false), cell("Harici GPU", false, false)],
                },
                SvgRowTexts {
                    label: "Güç Profili".to_string(),
                    color: "#38bdf8".to_string(),
                    cells: vec![cell("Dengeli", false, false), cell("Güç Limiti", false, true)],
                },
            ],
        },
    ];
    let svg = comparison_svg(&header(2, "Test Karşılaştırılıyor"), &columns, &sections);
    assert!(svg.starts_with("<svg"));
    assert!(svg.ends_with("</svg>\n"));
    assert!(svg.contains("width=\"708\" height=\"1114\""));
    assert!(svg.contains("BenchHub - Test Karşılaştırma Raporu"));
    assert!(svg.contains("2 Test Karşılaştırılıyor"));
    assert!(svg.contains("[1] Unigine Heaven"));
    assert!(svg.contains("[2] Unigine Heaven"));
    assert!(svg.contains("3450.0"));
    assert!(svg.contains("3620.0"));
    assert!(svg.contains("GPU Modu"));
    assert!(svg.contains("Güç Profili"));
    assert!(svg.contains("<rect x=\"446\" y=\"4\" width=\"208\" height=\"28\" class=\"throttle-border\" />"));
    assert!(svg.contains("class=\"power-border\""));
    assert!(svg.contains("fill=\"#ef4444\">Termal Kısma</text>"));
    assert!(svg.contains("<g transform=\"translate(24, 194)\">"));
    assert!(svg.contains("<g transform=\"translate(24, 274)\">"));
    assert!(svg.contains("<g transform=\"translate(24, 394)\">\n    <line"));
}

#[test]
fn test_svg_generation_empty_slice() {
    let svg = comparison_svg(&header(0, "Test"), &Vec::new(), &Vec::new());
    assert!(svg.contains("<svg"));
    assert!(svg.contains("</svg>"));
    assert!(svg.contains("width=\"488\""));
}

#[test]
fn svg_texts_are_escaped() {
    let mut h = header(1, "<Test>");
    h.title = "A & B".to_string();
    let svg = comparison_svg(&h, &vec![column("x<y", "1")], &Vec::new());
    assert!(svg.contains("A &amp; B"));
    assert!(svg.contains("[1] x&lt;y"));
    assert!(svg.contains("1 &lt;Test&gt;"));
}

fn csv_row(id: i64, bench: &str, category: &str, score: &str, sys: &str) -> HistoryCsvRow {
    HistoryCsvRow {
        id,
        benchmark_id: bench.to_string(),
        category: category.to_string(),
        preset_or_version: "Standard, 1080p \"Extreme\"".to_string(),
        gpu_mode: "Harici GPU (NVIDIA)".to_string(),
        power_profile: "performance".to_string(),
        score: score.to_string(),
        status: "TAMAMLANDI".to_string(),
        timestamp: 1700000000,
        measurements: vec!["123.5".to_string(), "85.1".to_string(), "12.35".to_string(), "15.68".to_string()],
        system_info_summary: sys.to_string(),
        log_path: "/tmp/test,path/with \"quotes\" and\nnewlines.log".to_string(),
    }
}

#[test]
fn test_csv_generation_headers_and_escaping() {
    let row = csv_row(1, "unigine_heaven", "Grafik, (GPU)", "4500.5", "AMD Ryzen 7, \"7840HS\"\nLenovo Legion");
    let csv = history_csv("ID,Benchmark", &vec![row]);
    assert!(csv.starts_with("ID,Benchmark\n"));
    assert!(csv.contains("\"Standard, 1080p \"\"Extreme\"\"\""));
    assert!(csv.contains("\"Grafik, (GPU)\""));
    assert!(csv.contains("\"AMD Ryzen 7, \"\"7840HS\"\"\nLenovo Legion\""));
    assert!(csv.contains("\"/tmp/test,path/with \"\"quotes\"\" and\nnewlines.log\""));
    assert!(csv.contains("123.5"));
    assert!(csv.contains("85.1"));
    assert!(csv.contains("12.35"));
    assert!(csv.contains("15.68"));
}

#[test]
fn csv_lines_are_exact() {
    let mut row = csv_row(-7, "=cmd", "CPU", "", "@sys");
    row.preset_or_version = "p".to_string();
    row.log_path = "l".to_string();
    let csv = history_csv("H", &vec![row]);
    assert_eq!(
        csv,
        "H\n-7,'=cmd,CPU,p,Harici GPU (NVIDIA),performance,,TAMAMLANDI,2023-11-14 22:13:20,123.5,85.1,12.35,15.68,'@sys,l\n"
    );
    assert_eq!(history_csv("H", &Vec::new()), "H\n");
}

#[test]
fn layout_lists_sections_and_rows_in_order() {
    use_layout();
}

fn use_layout() {
    let mut i18n = benchhub::i18n::I18n::load().expect("dictionaries parse");
    let layout = benchhub::comparison::comparison_layout(&i18n);
    let counts: Vec<usize> = layout.iter().map(|s| s.rows.len()).collect();
    assert_eq!(counts, vec![5, 6, 2, 5]);
    assert_eq!(layout[0].color, "#38bdf8");
    assert_eq!(layout[1].color, "#fbbf24");
    assert_eq!(layout[3].rows[1].label, "GPU Modu");
    assert_eq!(layout[3].rows[2].label, "Güç Profili");
    assert_eq!(layout[3].rows[1].metric, benchhub::comparison::SvgMetric::GpuMode);
    assert_eq!(benchhub::i18n::t(&i18n, "export_svg_header_title"), "BenchHub - Test Karşılaştırma Raporu");
    assert_eq!(format!("2 {}", benchhub::i18n::t(&i18n, "tests_compared")), "2 Test Karşılaştırılıyor");
    benchhub::i18n::set_language(&mut i18n, "en");
    let layout = benchhub::comparison::comparison_layout(&i18n);
    assert_eq!(layout[3].rows[1].label, "GPU Mode");
    assert_eq!(layout[3].rows[2].label, "Power Profile");
    assert_eq!(benchhub::i18n::t(&i18n, "export_svg_header_title"), "BenchHub - Test Comparison Report");
    assert_eq!(format!("2 {}", benchhub::i18n::t(&i18n, "tests_compared")), "2 Tests Being Compared");
}
