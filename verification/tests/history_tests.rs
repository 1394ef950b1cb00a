use benchhub::history::{
    filtered_history_query, group_created_message, group_name_for, runs_by_ids_query,
    RUNS_SELECT_COLUMNS,
};
use benchhub::models::HistorySortOrder;

#[test]
fn unfiltered_history_query() {
    let q = filtered_history_query("  ", "Tümü", "GPU: All", "Status: All", HistorySortOrder::DateDesc);
    assert_eq!(
        q.sql,
        format!("SELECT {} FROM runs WHERE 1=1 ORDER BY timestamp DESC LIMIT 300", RUNS_SELECT_COLUMNS)
    );
    assert!(q.params.is_empty());
}

#[test]
fn filters_bind_user_text() {
    let q = filtered_history_query(" gee ", "Oyun", "Karma", "Running", HistorySortOrder::ScoreAsc);
    assert_eq!(
        q.sql,
        format!(
            "SELECT {} FROM runs WHERE 1=1 AND (benchmark_id LIKE ? OR preset_or_version LIKE ? OR category LIKE ? OR system_info_summary LIKE ?) AND (category = ? OR category LIKE ?) AND gpu_mode LIKE ? AND status LIKE ? ORDER BY CASE WHEN score IS NULL THEN 1 ELSE 0 END, score ASC LIMIT 300",
            RUNS_SELECT_COLUMNS
        )
    );
    assert_eq!(
        q.params,
        vec!["%gee%", "%gee%", "%gee%", "%gee%", "Oyun", "%Oyun%", "%Karma%", "%Running%"]
    );
    assert_eq!(q.sql.matches('?').count(), q.params.len());
}

#[test]
fn known_choices_use_fixed_conditions() {
    let q = filtered_history_query("", "CPU Testleri", "Dahili GPU (iGPU)", "HATA", HistorySortOrder::PowerAvg);
    assert!(q.sql.contains(" AND (category LIKE '%CPU%' OR category LIKE '%İşlemci%')"));
    assert!(q.sql.contains(" AND (gpu_mode LIKE '%Dahili%' OR gpu_mode LIKE '%iGPU%' OR gpu_mode LIKE '%Integrated%')"));
    assert!(q.sql.contains(" AND (status LIKE '%HATA%' OR status LIKE '%ERROR%' OR status LIKE '%Hata%')"));
    assert!(q.sql.ends_with(" ORDER BY avg_power_w DESC LIMIT 300"));
    assert!(q.params.is_empty());
}

#[test]
fn runs_by_ids_and_group_names() {
    assert_eq!(
        runs_by_ids_query(3),
        format!("SELECT {} FROM runs WHERE id IN (?, ?, ?) ORDER BY timestamp ASC", RUNS_SELECT_COLUMNS)
    );
    assert_eq!(
        runs_by_ids_query(1),
        format!("SELECT {} FROM runs WHERE id IN (?) ORDER BY timestamp ASC", RUNS_SELECT_COLUMNS)
    );
    let existing = vec!["grup-01".to_string()];
    assert_eq!(group_name_for("  Oyun PC  ", &existing), "Oyun PC");
    assert_eq!(group_name_for("   ", &existing), "grup-02");
    let i18n = benchhub::i18n::I18n::load().unwrap();
    assert_eq!(
        group_created_message(&i18n, 3, "grup-02"),
        benchhub::i18n::t_fmt(&i18n, "group_created_success", &["3", "grup-02"])
    );
}

#[test]
fn filtered_query_has_one_placeholder_per_value() {
    let cases = [
        ("", "", "", ""),
        ("ryzen", "Özel", "Custom GPU", "weird"),
        ("x", "CPU", "NVIDIA", "COMPLETED"),
        ("", "Category: All", "GPU: All", "Stopped"),
    ];
    for (search, category, gpu, status) in cases {
        let q = filtered_history_query(search, category, gpu, status, HistorySortOrder::ScoreDesc);
        assert_eq!(q.sql.matches('?').count(), q.params.len());
    }
}
