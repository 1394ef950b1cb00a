//! The database schema's evolution: the columns each table must have, and the
//! statements that bring an older database up to date.
use vstd::prelude::*;
use crate::text::{push_str, str_is, string_from};

verus! {

/// A column of a table: its name and its SQL definition.
pub type ColumnDef = (Seq<char>, Seq<char>);

/// The columns added to `runs` since its first version, in order.
pub open spec fn run_columns() -> Seq<ColumnDef> {
    seq![
        ("category"@, "TEXT NOT NULL DEFAULT 'Genel'"@),
        ("preset_or_version"@, "TEXT NOT NULL DEFAULT ''"@),
        ("gpu_mode"@, "TEXT NOT NULL DEFAULT 'Sistem'"@),
        ("status"@, "TEXT NOT NULL DEFAULT 'completed'"@),
        ("duration_secs"@, "REAL NOT NULL DEFAULT 0.0"@),
        ("avg_cpu_usage"@, "REAL DEFAULT 0.0"@),
        ("peak_cpu_usage"@, "REAL DEFAULT 0.0"@),
        ("avg_cpu_temp"@, "REAL DEFAULT 0.0"@),
        ("peak_cpu_temp"@, "REAL DEFAULT 0.0"@),
        ("avg_cpu_freq_mhz"@, "INTEGER DEFAULT 0"@),
        ("peak_cpu_freq_mhz"@, "INTEGER DEFAULT 0"@),
        ("avg_gpu_usage"@, "REAL DEFAULT 0.0"@),
        ("peak_gpu_usage"@, "REAL DEFAULT 0.0"@),
        ("avg_gpu_temp"@, "REAL DEFAULT 0.0"@),
        ("peak_gpu_temp"@, "REAL DEFAULT 0.0"@),
        ("avg_gpu_freq_mhz"@, "INTEGER DEFAULT 0"@),
        ("peak_gpu_freq_mhz"@, "INTEGER DEFAULT 0"@),
        ("avg_vram_freq_mhz"@, "INTEGER DEFAULT 0"@),
        ("peak_vram_freq_mhz"@, "INTEGER DEFAULT 0"@),
        ("avg_gpu_power_w"@, "REAL DEFAULT 0.0"@),
        ("peak_gpu_power_w"@, "REAL DEFAULT 0.0"@),
        ("avg_power_w"@, "REAL DEFAULT 0.0"@),
        ("peak_power_w"@, "REAL DEFAULT 0.0"@),
        ("avg_ac_power_w"@, "REAL DEFAULT 0.0"@),
        ("peak_ac_power_w"@, "REAL DEFAULT 0.0"@),
        ("avg_ram_gb"@, "REAL DEFAULT 0.0"@),
        ("peak_ram_gb"@, "REAL DEFAULT 0.0"@),
        ("avg_vram_gb"@, "REAL DEFAULT 0.0"@),
        ("peak_vram_gb"@, "REAL DEFAULT 0.0"@),
        ("cpu_throttling"@, "TEXT NOT NULL DEFAULT 'Yok'"@),
        ("gpu_throttling"@, "TEXT NOT NULL DEFAULT 'Yok'"@),
        ("system_info_summary"@, "TEXT NOT NULL DEFAULT ''"@),
        ("power_profile"@, "TEXT NOT NULL DEFAULT 'Bilinmiyor'"@),
        ("log_path"@, "TEXT NOT NULL DEFAULT ''"@),
        ("is_methodology"@, "INTEGER NOT NULL DEFAULT 0"@),
        ("methodology_parent_id"@, "INTEGER DEFAULT NULL"@),
        ("group_name"@, "TEXT DEFAULT NULL"@),
    ]
}

/// The columns added to `telemetry_points` since its first version, in order.
pub open spec fn telemetry_columns() -> Seq<ColumnDef> {
    seq![
        ("cpu_usage"@, "REAL DEFAULT 0.0"@),
        ("gpu_usage"@, "REAL DEFAULT 0.0"@),
        ("gpu_freq_mhz"@, "REAL DEFAULT 0.0"@),
        ("vram_freq_mhz"@, "REAL DEFAULT 0.0"@),
        ("gpu_power_watt"@, "REAL DEFAULT 0.0"@),
        ("ac_power_watt"@, "REAL DEFAULT 0.0"@),
        ("vram_usage_mb"@, "REAL DEFAULT 0.0"@),
        ("cpu_throttle"@, "TEXT DEFAULT 'Yok'"@),
        ("gpu_throttle"@, "TEXT DEFAULT 'Yok'"@),
    ]
}

/// The view of a column list.
pub open spec fn columns_view(v: Seq<(&str, &str)>) -> Seq<ColumnDef> {
    v.map_values(|c: (&str, &str)| (c.0@, c.1@))
}

fn run_column_list() -> (r: Vec<(&'static str, &'static str)>)
    ensures
        columns_view(r@) == run_columns(),
{
    let mut v: Vec<(&'static str, &'static str)> = Vec::new();
    v.push(("category", "TEXT NOT NULL DEFAULT 'Genel'"));
    v.push(("preset_or_version", "TEXT NOT NULL DEFAULT ''"));
    v.push(("gpu_mode", "TEXT NOT NULL DEFAULT 'Sistem'"));
    v.push(("status", "TEXT NOT NULL DEFAULT 'completed'"));
    v.push(("duration_secs", "REAL NOT NULL DEFAULT 0.0"));
    v.push(("avg_cpu_usage", "REAL DEFAULT 0.0"));
    v.push(("peak_cpu_usage", "REAL DEFAULT 0.0"));
    v.push(("avg_cpu_temp", "REAL DEFAULT 0.0"));
    v.push(("peak_cpu_temp", "REAL DEFAULT 0.0"));
    v.push(("avg_cpu_freq_mhz", "INTEGER DEFAULT 0"));
    v.push(("peak_cpu_freq_mhz", "INTEGER DEFAULT 0"));
    v.push(("avg_gpu_usage", "REAL DEFAULT 0.0"));
    v.push(("peak_gpu_usage", "REAL DEFAULT 0.0"));
    v.push(("avg_gpu_temp", "REAL DEFAULT 0.0"));
    v.push(("peak_gpu_temp", "REAL DEFAULT 0.0"));
    v.push(("avg_gpu_freq_mhz", "INTEGER DEFAULT 0"));
    v.push(("peak_gpu_freq_mhz", "INTEGER DEFAULT 0"));
    v.push(("avg_vram_freq_mhz", "INTEGER DEFAULT 0"));
    v.push(("peak_vram_freq_mhz", "INTEGER DEFAULT 0"));
    v.push(("avg_gpu_power_w", "REAL DEFAULT 0.0"));
    v.push(("peak_gpu_power_w", "REAL DEFAULT 0.0"));
    v.push(("avg_power_w", "REAL DEFAULT 0.0"));
    v.push(("peak_power_w", "REAL DEFAULT 0.0"));
    v.push(("avg_ac_power_w", "REAL DEFAULT 0.0"));
    v.push(("peak_ac_power_w", "REAL DEFAULT 0.0"));
    v.push(("avg_ram_gb", "REAL DEFAULT 0.0"));
    v.push(("peak_ram_gb", "REAL DEFAULT 0.0"));
    v.push(("avg_vram_gb", "REAL DEFAULT 0.0"));
    v.push(("peak_vram_gb", "REAL DEFAULT 0.0"));
    v.push(("cpu_throttling", "TEXT NOT NULL DEFAULT 'Yok'"));
    v.push(("gpu_throttling", "TEXT NOT NULL DEFAULT 'Yok'"));
    v.push(("system_info_summary", "TEXT NOT NULL DEFAULT ''"));
    v.push(("power_profile", "TEXT NOT NULL DEFAULT 'Bilinmiyor'"));
    v.push(("log_path", "TEXT NOT NULL DEFAULT ''"));
    v.push(("is_methodology", "INTEGER NOT NULL DEFAULT 0"));
    v.push(("methodology_parent_id", "INTEGER DEFAULT NULL"));
    v.push(("group_name", "TEXT DEFAULT NULL"));
    assert(columns_view(v@) =~= run_columns());
    v
}

fn telemetry_column_list() -> (r: Vec<(&'static str, &'static str)>)
    ensures
        columns_view(r@) == telemetry_columns(),
{
    let mut v: Vec<(&'static str, &'static str)> = Vec::new();
    v.push(("cpu_usage", "REAL DEFAULT 0.0"));
    v.push(("gpu_usage", "REAL DEFAULT 0.0"));
    v.push(("gpu_freq_mhz", "REAL DEFAULT 0.0"));
    v.push(("vram_freq_mhz", "REAL DEFAULT 0.0"));
    v.push(("gpu_power_watt", "REAL DEFAULT 0.0"));
    v.push(("ac_power_watt", "REAL DEFAULT 0.0"));
    v.push(("vram_usage_mb", "REAL DEFAULT 0.0"));
    v.push(("cpu_throttle", "TEXT DEFAULT 'Yok'"));
    v.push(("gpu_throttle", "TEXT DEFAULT 'Yok'"));
    assert(columns_view(v@) =~= telemetry_columns());
    v
}

/// The columns of `required` whose names are not among `existing`, in order.
pub open spec fn missing_columns(required: Seq<ColumnDef>, existing: Seq<Seq<char>>) -> Seq<ColumnDef>
    decreases required.len(),
{
    if required.len() == 0 {
        Seq::empty()
    } else {
        let rest = missing_columns(required.drop_last(), existing);
        if existing.contains(required.last().0) {
            rest
        } else {
            rest.push(required.last())
        }
    }
}

/// The statement that adds a column to a table.
pub open spec fn add_column_sql(table: Seq<char>, col: ColumnDef) -> Seq<char> {
    "ALTER TABLE "@ + table + " ADD COLUMN "@ + col.0 + " "@ + col.1 + ";"@
}

/// The statements that add the missing columns to a table, in order.
pub open spec fn add_columns_sql(table: Seq<char>, cols: Seq<ColumnDef>) -> Seq<Seq<char>> {
    cols.map_values(|c: ColumnDef| add_column_sql(table, c))
}

/// Columns of the oldest `runs` table whose values move to their new columns.
pub open spec fn legacy_copies() -> Seq<(Seq<char>, Seq<char>)> {
    seq![
        ("avg_temp"@, "UPDATE runs SET avg_cpu_temp = avg_temp WHERE avg_temp IS NOT NULL;"@),
        ("max_temp"@, "UPDATE runs SET peak_cpu_temp = max_temp WHERE max_temp IS NOT NULL;"@),
        ("avg_power"@, "UPDATE runs SET avg_power_w = avg_power WHERE avg_power IS NOT NULL;"@),
    ]
}

/// The copy statements for the legacy columns the table has, in order.
pub open spec fn legacy_sql(existing: Seq<Seq<char>>) -> Seq<Seq<char>>
{
    legacy_from(legacy_copies(), existing)
}

/// The statements of `copies` whose legacy column is among `existing`.
pub open spec fn legacy_from(copies: Seq<(Seq<char>, Seq<char>)>, existing: Seq<Seq<char>>) -> Seq<Seq<char>>
    decreases copies.len(),
{
    if copies.len() == 0 {
        Seq::empty()
    } else {
        let rest = legacy_from(copies.drop_last(), existing);
        if existing.contains(copies.last().0) {
            rest.push(copies.last().1)
        } else {
            rest
        }
    }
}

fn has_column(existing: &Vec<String>, name: &str) -> (r: bool)
    ensures
        r == existing.deep_view().contains(name@),
{
    let ghost d = existing.deep_view();
    let mut i: usize = 0;
    while i < existing.len()
        invariant
            d == existing.deep_view(),
            d.len() == existing@.len(),
            i <= d.len(),
            forall|j: int| 0 <= j < i ==> d[j] != name@,
        decreases d.len() - i,
    {
        if str_is(existing[i].as_str(), name) {
            assert(d[i as int] == name@);
            return true;
        }
        i += 1;
    }
    false
}

fn add_statements(table: &str, required: &Vec<(&'static str, &'static str)>, existing: &Vec<String>) -> (r: Vec<String>)
    ensures
        r.deep_view() == add_columns_sql(table@, missing_columns(columns_view(required@), existing.deep_view())),
{
    let ghost req = columns_view(required@);
    let mut r: Vec<String> = Vec::new();
    let mut i: usize = 0;
    while i < required.len()
        invariant
            req == columns_view(required@),
            i <= required@.len(),
            r.deep_view() == add_columns_sql(table@, missing_columns(req.take(i as int), existing.deep_view())),
        decreases required@.len() - i,
    {
        let (name, def) = required[i];
        assert(req.take(i + 1).drop_last() =~= req.take(i as int));
        assert(req.take(i + 1).last() == (name@, def@));
        if !has_column(existing, name) {
            let ghost before = r.deep_view();
            let mut s = string_from("ALTER TABLE ");
            push_str(&mut s, table);
            push_str(&mut s, " ADD COLUMN ");
            push_str(&mut s, name);
            push_str(&mut s, " ");
            push_str(&mut s, def);
            push_str(&mut s, ";");
            r.push(s);
            assert(r.deep_view() =~= before.push(add_column_sql(table@, (name@, def@))));
            assert(add_columns_sql(table@, missing_columns(req.take(i + 1), existing.deep_view())) =~= add_columns_sql(table@, missing_columns(req.take(i as int), existing.deep_view())).push(add_column_sql(table@, (name@, def@))));
        }
        i += 1;
    }
    assert(req.take(i as int) =~= req);
    r
}

/// The statements that bring the `runs` table, which has the columns `existing`,
/// up to date: the missing columns added, then the legacy values copied.
pub fn runs_migration(existing: &Vec<String>) -> (r: Vec<String>)
    ensures
        r.deep_view() == add_columns_sql("runs"@, missing_columns(run_columns(), existing.deep_view()))
            + legacy_sql(existing.deep_view()),
{
    let cols = run_column_list();
    let mut r = add_statements("runs", &cols, existing);
    let ghost ex = existing.deep_view();
    let ghost c = legacy_copies();
    let mut legacy: Vec<String> = Vec::new();
    assert(legacy_from(c.take(0), ex) =~= Seq::<Seq<char>>::empty());
    assert(legacy.deep_view() =~= legacy_from(c.take(0), ex));
    assert(c.take(1).drop_last() =~= c.take(0));
    if has_column(existing, "avg_temp") {
        legacy.push(string_from("UPDATE runs SET avg_cpu_temp = avg_temp WHERE avg_temp IS NOT NULL;"));
    }
    assert(legacy.deep_view() =~= legacy_from(c.take(1), ex));
    assert(c.take(2).drop_last() =~= c.take(1));
    if has_column(existing, "max_temp") {
        legacy.push(string_from("UPDATE runs SET peak_cpu_temp = max_temp WHERE max_temp IS NOT NULL;"));
    }
    assert(legacy.deep_view() =~= legacy_from(c.take(2), ex));
    assert(c.take(3).drop_last() =~= c.take(2));
    if has_column(existing, "avg_power") {
        legacy.push(string_from("UPDATE runs SET avg_power_w = avg_power WHERE avg_power IS NOT NULL;"));
    }
    assert(legacy.deep_view() =~= legacy_from(c.take(3), ex));
    assert(c.take(3) =~= c);
    let ghost adds = r.deep_view();
    r.append(&mut legacy);
    assert(r.deep_view() =~= adds + legacy_sql(ex));
    r
}

/// The statements that bring the `telemetry_points` table, which has the
/// columns `existing`, up to date.
pub fn telemetry_migration(existing: &Vec<String>) -> (r: Vec<String>)
    ensures
        r.deep_view() == add_columns_sql(
            "telemetry_points"@,
            missing_columns(telemetry_columns(), existing.deep_view()),
        ),
{
    let cols = telemetry_column_list();
    add_statements("telemetry_points", &cols, existing)
}

/// After the missing columns are added, every required column is present, and
/// a second migration adds nothing.
pub proof fn lemma_migration_completes(required: Seq<ColumnDef>, existing: Seq<Seq<char>>)
    ensures
        ({
            let after = existing + missing_columns(required, existing).map_values(|c: ColumnDef| c.0);
            &&& forall|i: int| 0 <= i < required.len() ==> after.contains(#[trigger] required[i].0)
            &&& missing_columns(required, after) == Seq::<ColumnDef>::empty()
        }),
    decreases required.len(),
{
    let added = missing_columns(required, existing).map_values(|c: ColumnDef| c.0);
    let after = existing + added;
    assert forall|i: int| 0 <= i < required.len() implies after.contains(#[trigger] required[i].0) by {
        lemma_missing_listed(required, existing, i);
    }
    lemma_none_missing(required, after);
}

proof fn lemma_missing_listed(required: Seq<ColumnDef>, existing: Seq<Seq<char>>, i: int)
    requires
        0 <= i < required.len(),
    ensures
        (existing + missing_columns(required, existing).map_values(|c: ColumnDef| c.0)).contains(
            required[i].0,
        ),
    decreases required.len(),
{
    let m = missing_columns(required, existing);
    let after = existing + m.map_values(|c: ColumnDef| c.0);
    if existing.contains(required[i].0) {
        let k = choose|k: int| 0 <= k < existing.len() && existing[k] == required[i].0;
        assert(after[k] == required[i].0);
    } else if i == required.len() - 1 {
        assert(m.last() == required.last());
        assert(after[after.len() - 1] == required[i].0);
    } else {
        let prev = required.drop_last();
        assert(prev[i] == required[i]);
        lemma_missing_listed(prev, existing, i);
        let pm = missing_columns(prev, existing);
        let pafter = existing + pm.map_values(|c: ColumnDef| c.0);
        let k = choose|k: int| 0 <= k < pafter.len() && pafter[k] == required[i].0;
        assert(m == pm || m == pm.push(required.last()));
        assert(after[k] == pafter[k]);
    }
}

proof fn lemma_none_missing(required: Seq<ColumnDef>, present: Seq<Seq<char>>)
    requires
        forall|i: int| 0 <= i < required.len() ==> present.contains(#[trigger] required[i].0),
    ensures
        missing_columns(required, present) == Seq::<ColumnDef>::empty(),
    decreases required.len(),
{
    if required.len() > 0 {
        let prev = required.drop_last();
        assert forall|i: int| 0 <= i < prev.len() implies present.contains(#[trigger] prev[i].0) by {
            assert(prev[i] == required[i]);
        }
        lemma_none_missing(prev, present);
        assert(present.contains(required[required.len() - 1].0));
    }
}

} // verus!
