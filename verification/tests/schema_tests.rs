use benchhub::schema::{runs_migration, telemetry_migration};

fn names(v: &[&str]) -> Vec<String> {
    v.iter().map(|s| s.to_string()).collect()
}

#[test]
fn old_runs_table_gets_new_columns_and_copies() {
    let existing = names(&["id", "benchmark_id", "score", "timestamp", "avg_temp", "avg_power"]);
    let stmts = runs_migration(&existing);
    assert_eq!(stmts.len(), 37 + 2);
    assert_eq!(stmts[0], "ALTER TABLE runs ADD COLUMN category TEXT NOT NULL DEFAULT 'Genel';");
    assert_eq!(stmts[36], "ALTER TABLE runs ADD COLUMN group_name TEXT DEFAULT NULL;");
    assert_eq!(stmts[37], "UPDATE runs SET avg_cpu_temp = avg_temp WHERE avg_temp IS NOT NULL;");
    assert_eq!(stmts[38], "UPDATE runs SET avg_power_w = avg_power WHERE avg_power IS NOT NULL;");
}

#[test]
fn current_tables_need_nothing_and_migration_is_idempotent() {
    let mut cols = names(&["id", "benchmark_id", "max_temp"]);
    let first = runs_migration(&cols);
    for s in &first {
        if let Some(rest) = s.strip_prefix("ALTER TABLE runs ADD COLUMN ") {
            cols.push(rest.split(' ').next().unwrap().to_string());
        }
    }
    let second = runs_migration(&cols);
    assert_eq!(
        second,
        vec!["UPDATE runs SET peak_cpu_temp = max_temp WHERE max_temp IS NOT NULL;".to_string()]
    );
    let t = telemetry_migration(&names(&["id", "cpu_usage", "gpu_throttle"]));
    assert_eq!(t.len(), 7);
    assert_eq!(t[0], "ALTER TABLE telemetry_points ADD COLUMN gpu_usage REAL DEFAULT 0.0;");
    assert!(telemetry_migration(&names(&[
        "cpu_usage", "gpu_usage", "gpu_freq_mhz", "vram_freq_mhz", "gpu_power_watt",
        "ac_power_watt", "vram_usage_mb", "cpu_throttle", "gpu_throttle"
    ]))
    .is_empty());
}
