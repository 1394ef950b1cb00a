//! The run history: naming of groups, the words shown for a stored run's status
//! and GPU mode, and the queries that list runs by filter or by id.
use vstd::prelude::*;
use crate::i18n::{fill_placeholders, strs_view, t, t_fmt, I18n};
use crate::models::{gpu_mode_of, sort_order_clause, sort_order_of, GpuMode, HistorySortOrder};
use crate::text::{
    chars_of, contains, contains_str, dec, ends_with, dec_string, eq_str, push_str, string_from, string_of,
    trim, trim_chars,
};

verus! {

// ---------------------------------------------------------------------------
// Group names
// ---------------------------------------------------------------------------

/// The default name of group `i`: `grup-` and the number with at least two digits.
pub open spec fn group_label(i: nat) -> Seq<char> {
    "grup-"@ + if i < 10 {
        "0"@ + dec(i)
    } else {
        dec(i)
    }
}

/// The first default group name from `i` on (up to 999) that is not taken, or
/// `grup-01` when all are.
pub open spec fn free_group_from(taken: Seq<Seq<char>>, i: nat) -> Seq<char>
    decreases 1000 - i,
{
    if i > 999 {
        group_label(1)
    } else if !taken.contains(group_label(i)) {
        group_label(i)
    } else {
        free_group_from(taken, i + 1)
    }
}

fn group_label_exec(i: u64) -> (r: String)
    requires
        i <= 999,
    ensures
        r@ == group_label(i as nat),
{
    let mut r = string_from("grup-");
    if i < 10 {
        push_str(&mut r, "0");
    }
    let d = dec_string(i);
    push_str(&mut r, d.as_str());
    r
}

fn contains_string(v: &Vec<String>, s: &str) -> (r: bool)
    ensures
        r == v.deep_view().contains(s@),
{
    let mut i: usize = 0;
    while i < v.len()
        invariant
            i <= v@.len(),
            forall|k: int| 0 <= k < i ==> v.deep_view()[k] != s@,
        decreases v@.len() - i,
    {
        if crate::text::str_is(v[i].as_str(), s) {
            assert(v.deep_view()[i as int] == s@);
            return true;
        }
        i += 1;
    }
    false
}

/// The next free default group name (`grup-01`, `grup-02`, ... `grup-999`) given
/// the groups that exist; `grup-01` when all are taken.
pub fn next_default_group_name(existing: &Vec<String>) -> (r: String)
    ensures
        r@ == free_group_from(existing.deep_view(), 1),
{
    let mut i: u64 = 1;
    while i <= 999
        invariant
            1 <= i <= 1000,
            free_group_from(existing.deep_view(), 1) == free_group_from(existing.deep_view(), i as nat),
        decreases 1000 - i,
    {
        let candidate = group_label_exec(i);
        if !contains_string(existing, candidate.as_str()) {
            return candidate;
        }
        i += 1;
    }
    group_label_exec(1)
}

/// The chosen default name is free whenever some default name is.
pub proof fn lemma_next_group_is_free(taken: Seq<Seq<char>>, i: nat)
    requires
        1 <= i <= 999,
        exists|k: nat| i <= k <= 999 && !taken.contains(#[trigger] group_label(k)),
    ensures
        !taken.contains(free_group_from(taken, i)),
    decreases 1000 - i,
{
    if taken.contains(group_label(i)) {
        let k = choose|k: nat| i <= k <= 999 && !taken.contains(#[trigger] group_label(k));
        assert(k != i);
        lemma_next_group_is_free(taken, i + 1);
    }
}

// ---------------------------------------------------------------------------
// Stored runs
// ---------------------------------------------------------------------------

/// The status of a stored run in the current language: completed, error and
/// cancelled markers become the current word; anything else is shown as stored.
pub open spec fn history_status_text(i: I18n, status: Seq<char>) -> Seq<char> {
    if contains(status, "TAMAM"@) || contains(status, "COMPLETED"@) {
        i.text_for("status_completed"@)
    } else if contains(status, "HATA"@) || contains(status, "ERROR"@) {
        i.text_for("status_error"@)
    } else if contains(status, "İPTAL"@) || contains(status, "Durduruldu"@) || contains(
        status,
        "CANCEL"@,
    ) {
        i.text_for("status_cancelled"@)
    } else {
        status
    }
}

/// Shows the status of a stored run in the current language.
pub fn history_status(i18n: &I18n, status: &str) -> (r: String)
    ensures
        r@ == history_status_text(*i18n, status@),
{
    let v = chars_of(status);
    let s = v.as_slice();
    if contains_str(s, "TAMAM") || contains_str(s, "COMPLETED") {
        t(i18n, "status_completed")
    } else if contains_str(s, "HATA") || contains_str(s, "ERROR") {
        t(i18n, "status_error")
    } else if contains_str(s, "İPTAL") || contains_str(s, "Durduruldu") || contains_str(s, "CANCEL") {
        t(i18n, "status_cancelled")
    } else {
        string_from(status)
    }
}

/// The GPU mode of a stored run in the current language.
pub open spec fn history_gpu_mode_text(i: I18n, gpu_mode: Seq<char>) -> Seq<char> {
    match gpu_mode_of(gpu_mode) {
        GpuMode::NvidiaDgpu => i.text_for("gpu_mode_nvidia"@),
        GpuMode::Integrated => i.text_for("gpu_mode_igpu"@),
        GpuMode::Auto => i.text_for("gpu_mode_default"@),
    }
}

/// Shows the GPU mode of a stored run in the current language.
pub fn history_gpu_mode(i18n: &I18n, gpu_mode: &str) -> (r: String)
    ensures
        r@ == history_gpu_mode_text(*i18n, gpu_mode@),
{
    match GpuMode::from_display_str(gpu_mode) {
        GpuMode::NvidiaDgpu => t(i18n, "gpu_mode_nvidia"),
        GpuMode::Integrated => t(i18n, "gpu_mode_igpu"),
        GpuMode::Auto => t(i18n, "gpu_mode_default"),
    }
}

// ---------------------------------------------------------------------------
// Filtering the history
// ---------------------------------------------------------------------------

/// The columns read for a run.
pub const RUNS_SELECT_COLUMNS: &'static str = "id, benchmark_id, category, preset_or_version, gpu_mode, score, status, timestamp, duration_secs, avg_cpu_usage, peak_cpu_usage, avg_cpu_temp, peak_cpu_temp, avg_cpu_freq_mhz, peak_cpu_freq_mhz, avg_gpu_usage, peak_gpu_usage, avg_gpu_temp, peak_gpu_temp, avg_gpu_freq_mhz, peak_gpu_freq_mhz, avg_vram_freq_mhz, peak_vram_freq_mhz, avg_gpu_power_w, peak_gpu_power_w, avg_power_w, peak_power_w, avg_ac_power_w, peak_ac_power_w, avg_ram_gb, peak_ram_gb, avg_vram_gb, peak_vram_gb, cpu_throttling, gpu_throttling, system_info_summary, power_profile, log_path, is_methodology, methodology_parent_id, group_name";

/// A SQL condition to append, with the values bound to its `?` placeholders.
pub type Clause = (Seq<char>, Seq<Seq<char>>);

/// `%text%`, a pattern that matches any value containing `text`.
pub open spec fn like_pattern(t: Seq<char>) -> Seq<char> {
    "%"@ + t + "%"@
}

/// The free-text search condition: the trimmed text in the id, preset, category or
/// system summary.
pub open spec fn search_clause(search: Seq<char>) -> Clause {
    let t = trim(search);
    if t.len() == 0 {
        (Seq::empty(), Seq::empty())
    } else {
        (
            " AND (benchmark_id LIKE ? OR preset_or_version LIKE ? OR category LIKE ? OR system_info_summary LIKE ?)"@,
            seq![like_pattern(t), like_pattern(t), like_pattern(t), like_pattern(t)],
        )
    }
}

/// The category condition; "all" choices in either language add none.
pub open spec fn category_clause(category: Seq<char>) -> Clause {
    let t = trim(category);
    if t.len() == 0 || t == "Tümü"@ || t == "Kategori: Tümü"@ || t == "All"@ || t == "Category: All"@ {
        (Seq::empty(), Seq::empty())
    } else if contains(t, "CPU"@) || contains(t, "İşlemci"@) {
        (" AND (category LIKE '%CPU%' OR category LIKE '%İşlemci%')"@, Seq::empty())
    } else if contains(t, "GPU"@) || contains(t, "Grafik"@) {
        (" AND (category LIKE '%GPU%' OR category LIKE '%Grafik%')"@, Seq::empty())
    } else if contains(t, "Render"@) {
        (" AND category LIKE '%Render%'"@, Seq::empty())
    } else if contains(t, "Sistem"@) || contains(t, "System"@) {
        (" AND (category LIKE '%Sistem%' OR category LIKE '%System%')"@, Seq::empty())
    } else {
        (" AND (category = ? OR category LIKE ?)"@, seq![t, like_pattern(t)])
    }
}

/// The GPU-mode condition; "all" choices in either language add none.
pub open spec fn gpu_clause(gpu_mode: Seq<char>) -> Clause {
    let t = trim(gpu_mode);
    if t.len() == 0 || t == "Tümü"@ || t == "GPU: Tümü"@ || t == "All"@ || t == "GPU: All"@ {
        (Seq::empty(), Seq::empty())
    } else if contains(t, "Harici"@) || contains(t, "NVIDIA"@) || contains(t, "Dedicated"@) {
        (
            " AND (gpu_mode LIKE '%Harici%' OR gpu_mode LIKE '%NVIDIA%' OR gpu_mode LIKE '%Dedicated%')"@,
            Seq::empty(),
        )
    } else if contains(t, "Dahili"@) || contains(t, "iGPU"@) || contains(t, "Integrated"@) {
        (
            " AND (gpu_mode LIKE '%Dahili%' OR gpu_mode LIKE '%iGPU%' OR gpu_mode LIKE '%Integrated%')"@,
            Seq::empty(),
        )
    } else {
        (" AND gpu_mode LIKE ?"@, seq![like_pattern(t)])
    }
}

/// The status condition; "all" choices in either language add none.
pub open spec fn status_clause(status: Seq<char>) -> Clause {
    let t = trim(status);
    if t.len() == 0 || t == "Tümü"@ || t == "Durum: Tümü"@ || t == "All"@ || t == "Status: All"@ {
        (Seq::empty(), Seq::empty())
    } else if contains(t, "TAMAMLANDI"@) || contains(t, "COMPLETED"@) || contains(t, "Success"@) {
        (
            " AND (status LIKE '%TAMAMLANDI%' OR status LIKE '%COMPLETED%' OR status LIKE '%Başarılı%')"@,
            Seq::empty(),
        )
    } else if contains(t, "HATA"@) || contains(t, "ERROR"@) || contains(t, "Failed"@) {
        (" AND (status LIKE '%HATA%' OR status LIKE '%ERROR%' OR status LIKE '%Hata%')"@, Seq::empty())
    } else if contains(t, "İPTAL"@) || contains(t, "CANCEL"@) || contains(t, "Durduruldu"@) || contains(
        t,
        "Stopped"@,
    ) {
        (
            " AND (status LIKE '%İPTAL%' OR status LIKE '%CANCEL%' OR status LIKE '%Durduruldu%' OR status LIKE '%Stopped%')"@,
            Seq::empty(),
        )
    } else {
        (" AND status LIKE ?"@, seq![like_pattern(t)])
    }
}

/// The filtered history query: the conditions in order, the sort order, and a
/// limit of 300 rows.
pub open spec fn history_sql(
    search: Seq<char>,
    category: Seq<char>,
    gpu_mode: Seq<char>,
    status: Seq<char>,
    order: HistorySortOrder,
) -> Seq<char> {
    "SELECT "@ + RUNS_SELECT_COLUMNS@ + " FROM runs WHERE 1=1"@ + search_clause(search).0 + category_clause(
        category,
    ).0 + gpu_clause(gpu_mode).0 + status_clause(status).0 + " ORDER BY "@ + sort_order_clause(order)
        + " LIMIT 300"@
}

/// The values bound to the filtered history query, in placeholder order.
pub open spec fn history_params(search: Seq<char>, category: Seq<char>, gpu_mode: Seq<char>, status: Seq<char>) -> Seq<Seq<char>> {
    search_clause(search).1 + category_clause(category).1 + gpu_clause(gpu_mode).1 + status_clause(
        status,
    ).1
}

/// A SQL query and the text values bound to its placeholders.
pub struct HistoryQuery {
    pub sql: String,
    pub params: Vec<String>,
}

fn like_of(t: &Vec<char>) -> (r: String)
    ensures
        r@ == like_pattern(t@),
{
    let mut r = string_from("%");
    crate::text::push_chars(&mut r, t.as_slice());
    push_str(&mut r, "%");
    r
}

fn trimmed_chars(s: &str) -> (r: Vec<char>)
    ensures
        r@ == trim(s@),
{
    let v = chars_of(s);
    trim_chars(v.as_slice())
}

fn add_clause(q: &mut HistoryQuery, clause: &str)
    ensures
        final(q).sql@ == old(q).sql@ + clause@,
        final(q).params.deep_view() == old(q).params.deep_view(),
{
    push_str(&mut q.sql, clause);
}

fn add_param(q: &mut HistoryQuery, p: String)
    ensures
        final(q).sql@ == old(q).sql@,
        final(q).params.deep_view() == old(q).params.deep_view().push(p@),
{
    crate::text::push_string(&mut q.params, p);
}

fn add_search(q: &mut HistoryQuery, search: &str)
    ensures
        final(q).sql@ == old(q).sql@ + search_clause(search@).0,
        final(q).params.deep_view() == old(q).params.deep_view() + search_clause(search@).1,
{
    let ghost s0 = q.sql@;
    let ghost p0 = q.params.deep_view();
    let t = trimmed_chars(search);
    if t.len() == 0 {
        assert(s0 + Seq::<char>::empty() =~= s0);
        assert(p0 + Seq::<Seq<char>>::empty() =~= p0);
        return;
    }
    add_clause(q, " AND (benchmark_id LIKE ? OR preset_or_version LIKE ? OR category LIKE ? OR system_info_summary LIKE ?)");
    add_param(q, like_of(&t));
    add_param(q, like_of(&t));
    add_param(q, like_of(&t));
    add_param(q, like_of(&t));
    assert(q.params.deep_view() =~= p0 + search_clause(search@).1);
}

fn add_category(q: &mut HistoryQuery, category: &str)
    ensures
        final(q).sql@ == old(q).sql@ + category_clause(category@).0,
        final(q).params.deep_view() == old(q).params.deep_view() + category_clause(category@).1,
{
    let ghost s0 = q.sql@;
    let ghost p0 = q.params.deep_view();
    let t = trimmed_chars(category);
    let c = t.as_slice();
    if t.len() == 0 || eq_str(c, "Tümü") || eq_str(c, "Kategori: Tümü") || eq_str(c, "All") || eq_str(
        c,
        "Category: All",
    ) {
        assert(s0 + Seq::<char>::empty() =~= s0);
    } else if contains_str(c, "CPU") || contains_str(c, "İşlemci") {
        add_clause(q, " AND (category LIKE '%CPU%' OR category LIKE '%İşlemci%')");
    } else if contains_str(c, "GPU") || contains_str(c, "Grafik") {
        add_clause(q, " AND (category LIKE '%GPU%' OR category LIKE '%Grafik%')");
    } else if contains_str(c, "Render") {
        add_clause(q, " AND category LIKE '%Render%'");
    } else if contains_str(c, "Sistem") || contains_str(c, "System") {
        add_clause(q, " AND (category LIKE '%Sistem%' OR category LIKE '%System%')");
    } else {
        add_clause(q, " AND (category = ? OR category LIKE ?)");
        add_param(q, string_of(c));
        add_param(q, like_of(&t));
        assert(q.params.deep_view() =~= p0 + category_clause(category@).1);
        return;
    }
    assert(p0 + Seq::<Seq<char>>::empty() =~= p0);
}

fn add_gpu(q: &mut HistoryQuery, gpu_mode: &str)
    ensures
        final(q).sql@ == old(q).sql@ + gpu_clause(gpu_mode@).0,
        final(q).params.deep_view() == old(q).params.deep_view() + gpu_clause(gpu_mode@).1,
{
    let ghost s0 = q.sql@;
    let ghost p0 = q.params.deep_view();
    let t = trimmed_chars(gpu_mode);
    let c = t.as_slice();
    if t.len() == 0 || eq_str(c, "Tümü") || eq_str(c, "GPU: Tümü") || eq_str(c, "All") || eq_str(
        c,
        "GPU: All",
    ) {
        assert(s0 + Seq::<char>::empty() =~= s0);
    } else if contains_str(c, "Harici") || contains_str(c, "NVIDIA") || contains_str(c, "Dedicated") {
        add_clause(q, " AND (gpu_mode LIKE '%Harici%' OR gpu_mode LIKE '%NVIDIA%' OR gpu_mode LIKE '%Dedicated%')");
    } else if contains_str(c, "Dahili") || contains_str(c, "iGPU") || contains_str(c, "Integrated") {
        add_clause(q, " AND (gpu_mode LIKE '%Dahili%' OR gpu_mode LIKE '%iGPU%' OR gpu_mode LIKE '%Integrated%')");
    } else {
        add_clause(q, " AND gpu_mode LIKE ?");
        add_param(q, like_of(&t));
        assert(q.params.deep_view() =~= p0 + gpu_clause(gpu_mode@).1);
        return;
    }
    assert(p0 + Seq::<Seq<char>>::empty() =~= p0);
}

fn add_status(q: &mut HistoryQuery, status: &str)
    ensures
        final(q).sql@ == old(q).sql@ + status_clause(status@).0,
        final(q).params.deep_view() == old(q).params.deep_view() + status_clause(status@).1,
{
    let ghost s0 = q.sql@;
    let ghost p0 = q.params.deep_view();
    let t = trimmed_chars(status);
    let c = t.as_slice();
    if t.len() == 0 || eq_str(c, "Tümü") || eq_str(c, "Durum: Tümü") || eq_str(c, "All") || eq_str(
        c,
        "Status: All",
    ) {
        assert(s0 + Seq::<char>::empty() =~= s0);
    } else if contains_str(c, "TAMAMLANDI") || contains_str(c, "COMPLETED") || contains_str(c, "Success") {
        add_clause(q, " AND (status LIKE '%TAMAMLANDI%' OR status LIKE '%COMPLETED%' OR status LIKE '%Başarılı%')");
    } else if contains_str(c, "HATA") || contains_str(c, "ERROR") || contains_str(c, "Failed") {
        add_clause(q, " AND (status LIKE '%HATA%' OR status LIKE '%ERROR%' OR status LIKE '%Hata%')");
    } else if contains_str(c, "İPTAL") || contains_str(c, "CANCEL") || contains_str(c, "Durduruldu")
        || contains_str(c, "Stopped") {
        add_clause(q, " AND (status LIKE '%İPTAL%' OR status LIKE '%CANCEL%' OR status LIKE '%Durduruldu%' OR status LIKE '%Stopped%')");
    } else {
        add_clause(q, " AND status LIKE ?");
        add_param(q, like_of(&t));
        assert(q.params.deep_view() =~= p0 + status_clause(status@).1);
        return;
    }
    assert(p0 + Seq::<Seq<char>>::empty() =~= p0);
}

/// The query listing the history filtered by a search text, a category, a GPU
/// mode and a status, in the given order, at most 300 runs.
pub fn filtered_history_query(
    search: &str,
    category: &str,
    gpu_mode: &str,
    status: &str,
    sort_order: HistorySortOrder,
) -> (r: HistoryQuery)
    ensures
        r.sql@ == history_sql(search@, category@, gpu_mode@, status@, sort_order),
        r.params.deep_view() == history_params(search@, category@, gpu_mode@, status@),
{
    let mut q = HistoryQuery { sql: string_from("SELECT "), params: Vec::new() };
    assert(q.params.deep_view() =~= Seq::<Seq<char>>::empty());
    push_str(&mut q.sql, RUNS_SELECT_COLUMNS);
    push_str(&mut q.sql, " FROM runs WHERE 1=1");
    add_search(&mut q, search);
    add_category(&mut q, category);
    add_gpu(&mut q, gpu_mode);
    add_status(&mut q, status);
    push_str(&mut q.sql, " ORDER BY ");
    push_str(&mut q.sql, sort_order.to_sql_order_clause());
    push_str(&mut q.sql, " LIMIT 300");
    assert(q.params.deep_view() =~= history_params(search@, category@, gpu_mode@, status@));
    q
}

// ---------------------------------------------------------------------------
// Runs by id, and naming new groups
// ---------------------------------------------------------------------------

/// `n` placeholders separated by ", ".
pub open spec fn placeholders(n: nat) -> Seq<char>
    decreases n,
{
    if n == 0 {
        Seq::empty()
    } else if n == 1 {
        "?"@
    } else {
        placeholders((n - 1) as nat) + ", ?"@
    }
}

/// The number of `?` in a text.
pub open spec fn qmarks(s: Seq<char>) -> nat
    decreases s.len(),
{
    if s.len() == 0 {
        0
    } else {
        qmarks(s.drop_last()) + if s.last() == '?' {
            1nat
        } else {
            0nat
        }
    }
}

proof fn lemma_qmarks_concat(a: Seq<char>, b: Seq<char>)
    ensures
        qmarks(a + b) == qmarks(a) + qmarks(b),
    decreases b.len(),
{
    if b.len() > 0 {
        lemma_qmarks_concat(a, b.drop_last());
        assert((a + b).drop_last() =~= a + b.drop_last());
    } else {
        assert(a + b =~= a);
    }
}

/// The query reading the runs with `n` given ids, oldest first.
pub open spec fn runs_by_ids_sql(n: nat) -> Seq<char> {
    "SELECT "@ + RUNS_SELECT_COLUMNS@ + " FROM runs WHERE id IN ("@ + placeholders(n)
        + ") ORDER BY timestamp ASC"@
}

/// The query reading the runs with `count` given ids, oldest first (one `?` per
/// id).
pub fn runs_by_ids_query(count: usize) -> (r: String)
    ensures
        r@ == runs_by_ids_sql(count as nat),
{
    let mut s = string_from("SELECT ");
    push_str(&mut s, RUNS_SELECT_COLUMNS);
    push_str(&mut s, " FROM runs WHERE id IN (");
    let ghost head = s@;
    let mut i: usize = 0;
    while i < count
        invariant
            i <= count,
            s@ == head + placeholders(i as nat),
        decreases count - i,
    {
        if i == 0 {
            push_str(&mut s, "?");
        } else {
            push_str(&mut s, ", ?");
        }
        assert(head + placeholders((i + 1) as nat) =~= (head + placeholders(i as nat)) + (if i == 0 {
            "?"@
        } else {
            ", ?"@
        })) by {
            if i == 0 {
                assert(placeholders(0) =~= Seq::<char>::empty());
            }
        }
        i += 1;
    }
    push_str(&mut s, ") ORDER BY timestamp ASC");
    s
}

/// The placeholder list for `n` ids holds exactly `n` placeholders.
pub proof fn lemma_one_placeholder_per_id(n: nat)
    ensures
        qmarks(placeholders(n)) == n,
    decreases n,
{
    reveal_strlit("?");
    reveal_strlit(", ?");
    if n == 1 {
        assert(qmarks("?"@) == 1) by {
            reveal_with_fuel(qmarks, 2);
            assert("?"@.drop_last() =~= Seq::<char>::empty());
            assert("?"@.last() == '?');
        }
    } else if n > 1 {
        lemma_one_placeholder_per_id((n - 1) as nat);
        lemma_qmarks_concat(placeholders((n - 1) as nat), ", ?"@);
        assert(qmarks(", ?"@) == 1) by {
            reveal_with_fuel(qmarks, 4);
            assert(", ?"@.last() == '?');
            assert(", ?"@.drop_last() =~= seq![',', ' ']);
            assert(seq![',', ' '].drop_last() =~= seq![',']);
            assert(seq![','].drop_last() =~= Seq::<char>::empty());
        }
    }
}

/// The name a new group gets: the name typed, trimmed, or the next free default
/// name when nothing was typed.
pub fn group_name_for(typed: &str, existing: &Vec<String>) -> (r: String)
    ensures
        r@ == if trim(typed@).len() == 0 {
            free_group_from(existing.deep_view(), 1)
        } else {
            trim(typed@)
        },
{
    let v = chars_of(typed);
    let tv = trim_chars(v.as_slice());
    if tv.len() == 0 {
        next_default_group_name(existing)
    } else {
        string_of(tv.as_slice())
    }
}

/// The status line after `count` runs were put in group `name`.
pub fn group_created_message(i18n: &I18n, count: usize, name: &str) -> (r: String)
    ensures
        r@ == fill_placeholders(i18n.text_for("group_created_success"@), seq![dec(count as nat), name@]),
{
    let c = dec_string(count as u64);
    let args: [&str; 2] = [c.as_str(), name];
    let r = t_fmt(i18n, "group_created_success", &args);
    assert(strs_view(args@) =~= seq![dec(count as nat), name@]);
    r
}

// ---------------------------------------------------------------------------
// Placeholders of the filtered history query
//
// The `?` of each fixed piece of SQL are counted over the characters of its
// literal, fifty at a time (the depth one unfolding of `qmarks_upto` reaches
// comfortably); the pieces are then put together with `lemma_qmarks_concat`.
// ---------------------------------------------------------------------------

proof fn lemma_search_clause_0()
    ensures
        qmarks(" AND (benchmark_id LIKE ? OR preset_or_version LIKE ? OR category LIKE ? OR system_info_summary LIKE ?)"@) == 4,
{
    reveal_strlit(" AND (benchmark_id LIKE ? OR preset_or_version LIKE ? OR category LIKE ? OR system_info_summary LIKE ?)");
    assert(qmarks_upto(" AND (benchmark_id LIKE ? OR preset_or_version LIKE ? OR category LIKE ? OR system_info_summary LIKE ?)"@, 50) == 1) by {
        reveal_with_fuel(qmarks_upto, 51);
    }
    assert(qmarks_upto(" AND (benchmark_id LIKE ? OR preset_or_version LIKE ? OR category LIKE ? OR system_info_summary LIKE ?)"@, 100) == 3) by {
        reveal_with_fuel(qmarks_upto, 51);
    }
    assert(qmarks_upto(" AND (benchmark_id LIKE ? OR preset_or_version LIKE ? OR category LIKE ? OR system_info_summary LIKE ?)"@, 103) == 4) by {
        reveal_with_fuel(qmarks_upto, 51);
    }
    lemma_qmarks_is_upto(" AND (benchmark_id LIKE ? OR preset_or_version LIKE ? OR category LIKE ? OR system_info_summary LIKE ?)"@);
}

proof fn lemma_category_clause_0()
    ensures
        qmarks(" AND (category LIKE '%CPU%' OR category LIKE '%İşlemci%')"@) == 0,
{
    reveal_strlit(" AND (category LIKE '%CPU%' OR category LIKE '%İşlemci%')");
    assert(qmarks_upto(" AND (category LIKE '%CPU%' OR category LIKE '%İşlemci%')"@, 50) == 0) by {
        reveal_with_fuel(qmarks_upto, 51);
    }
    assert(qmarks_upto(" AND (category LIKE '%CPU%' OR category LIKE '%İşlemci%')"@, 57) == 0) by {
        reveal_with_fuel(qmarks_upto, 51);
    }
    lemma_qmarks_is_upto(" AND (category LIKE '%CPU%' OR category LIKE '%İşlemci%')"@);
}

proof fn lemma_category_clause_1()
    ensures
        qmarks(" AND (category LIKE '%GPU%' OR category LIKE '%Grafik%')"@) == 0,
{
    reveal_strlit(" AND (category LIKE '%GPU%' OR category LIKE '%Grafik%')");
    assert(qmarks_upto(" AND (category LIKE '%GPU%' OR category LIKE '%Grafik%')"@, 50) == 0) by {
        reveal_with_fuel(qmarks_upto, 51);
    }
    assert(qmarks_upto(" AND (category LIKE '%GPU%' OR category LIKE '%Grafik%')"@, 56) == 0) by {
        reveal_with_fuel(qmarks_upto, 51);
    }
    lemma_qmarks_is_upto(" AND (category LIKE '%GPU%' OR category LIKE '%Grafik%')"@);
}

proof fn lemma_category_clause_2()
    ensures
        qmarks(" AND category LIKE '%Render%'"@) == 0,
{
    reveal_strlit(" AND category LIKE '%Render%'");
    assert(qmarks_upto(" AND category LIKE '%Render%'"@, 29) == 0) by {
        reveal_with_fuel(qmarks_upto, 51);
    }
    lemma_qmarks_is_upto(" AND category LIKE '%Render%'"@);
}

proof fn lemma_category_clause_3()
    ensures
        qmarks(" AND (category LIKE '%Sistem%' OR category LIKE '%System%')"@) == 0,
{
    reveal_strlit(" AND (category LIKE '%Sistem%' OR category LIKE '%System%')");
    assert(qmarks_upto(" AND (category LIKE '%Sistem%' OR category LIKE '%System%')"@, 50) == 0) by {
        reveal_with_fuel(qmarks_upto, 51);
    }
    assert(qmarks_upto(" AND (category LIKE '%Sistem%' OR category LIKE '%System%')"@, 59) == 0) by {
        reveal_with_fuel(qmarks_upto, 51);
    }
    lemma_qmarks_is_upto(" AND (category LIKE '%Sistem%' OR category LIKE '%System%')"@);
}

proof fn lemma_category_clause_4()
    ensures
        qmarks(" AND (category = ? OR category LIKE ?)"@) == 2,
{
    reveal_strlit(" AND (category = ? OR category LIKE ?)");
    assert(qmarks_upto(" AND (category = ? OR category LIKE ?)"@, 38) == 2) by {
        reveal_with_fuel(qmarks_upto, 51);
    }
    lemma_qmarks_is_upto(" AND (category = ? OR category LIKE ?)"@);
}

proof fn lemma_gpu_clause_0()
    ensures
        qmarks(" AND (gpu_mode LIKE '%Harici%' OR gpu_mode LIKE '%NVIDIA%' OR gpu_mode LIKE '%Dedicated%')"@) == 0,
{
    reveal_strlit(" AND (gpu_mode LIKE '%Harici%' OR gpu_mode LIKE '%NVIDIA%' OR gpu_mode LIKE '%Dedicated%')");
    assert(qmarks_upto(" AND (gpu_mode LIKE '%Harici%' OR gpu_mode LIKE '%NVIDIA%' OR gpu_mode LIKE '%Dedicated%')"@, 50) == 0) by {
        reveal_with_fuel(qmarks_upto, 51);
    }
    assert(qmarks_upto(" AND (gpu_mode LIKE '%Harici%' OR gpu_mode LIKE '%NVIDIA%' OR gpu_mode LIKE '%Dedicated%')"@, 90) == 0) by {
        reveal_with_fuel(qmarks_upto, 51);
    }
    lemma_qmarks_is_upto(" AND (gpu_mode LIKE '%Harici%' OR gpu_mode LIKE '%NVIDIA%' OR gpu_mode LIKE '%Dedicated%')"@);
}

proof fn lemma_gpu_clause_1()
    ensures
        qmarks(" AND (gpu_mode LIKE '%Dahili%' OR gpu_mode LIKE '%iGPU%' OR gpu_mode LIKE '%Integrated%')"@) == 0,
{
    reveal_strlit(" AND (gpu_mode LIKE '%Dahili%' OR gpu_mode LIKE '%iGPU%' OR gpu_mode LIKE '%Integrated%')");
    assert(qmarks_upto(" AND (gpu_mode LIKE '%Dahili%' OR gpu_mode LIKE '%iGPU%' OR gpu_mode LIKE '%Integrated%')"@, 50) == 0) by {
        reveal_with_fuel(qmarks_upto, 51);
    }
    assert(qmarks_upto(" AND (gpu_mode LIKE '%Dahili%' OR gpu_mode LIKE '%iGPU%' OR gpu_mode LIKE '%Integrated%')"@, 89) == 0) by {
        reveal_with_fuel(qmarks_upto, 51);
    }
    lemma_qmarks_is_upto(" AND (gpu_mode LIKE '%Dahili%' OR gpu_mode LIKE '%iGPU%' OR gpu_mode LIKE '%Integrated%')"@);
}

proof fn lemma_gpu_clause_2()
    ensures
        qmarks(" AND gpu_mode LIKE ?"@) == 1,
{
    reveal_strlit(" AND gpu_mode LIKE ?");
    assert(qmarks_upto(" AND gpu_mode LIKE ?"@, 20) == 1) by {
        reveal_with_fuel(qmarks_upto, 51);
    }
    lemma_qmarks_is_upto(" AND gpu_mode LIKE ?"@);
}

proof fn lemma_status_clause_0()
    ensures
        qmarks(" AND (status LIKE '%TAMAMLANDI%' OR status LIKE '%COMPLETED%' OR status LIKE '%Başarılı%')"@) == 0,
{
    reveal_strlit(" AND (status LIKE '%TAMAMLANDI%' OR status LIKE '%COMPLETED%' OR status LIKE '%Başarılı%')");
    assert(qmarks_upto(" AND (status LIKE '%TAMAMLANDI%' OR status LIKE '%COMPLETED%' OR status LIKE '%Başarılı%')"@, 50) == 0) by {
        reveal_with_fuel(qmarks_upto, 51);
    }
    assert(qmarks_upto(" AND (status LIKE '%TAMAMLANDI%' OR status LIKE '%COMPLETED%' OR status LIKE '%Başarılı%')"@, 90) == 0) by {
        reveal_with_fuel(qmarks_upto, 51);
    }
    lemma_qmarks_is_upto(" AND (status LIKE '%TAMAMLANDI%' OR status LIKE '%COMPLETED%' OR status LIKE '%Başarılı%')"@);
}

proof fn lemma_status_clause_1()
    ensures
        qmarks(" AND (status LIKE '%HATA%' OR status LIKE '%ERROR%' OR status LIKE '%Hata%')"@) == 0,
{
    reveal_strlit(" AND (status LIKE '%HATA%' OR status LIKE '%ERROR%' OR status LIKE '%Hata%')");
    assert(qmarks_upto(" AND (status LIKE '%HATA%' OR status LIKE '%ERROR%' OR status LIKE '%Hata%')"@, 50) == 0) by {
        reveal_with_fuel(qmarks_upto, 51);
    }
    assert(qmarks_upto(" AND (status LIKE '%HATA%' OR status LIKE '%ERROR%' OR status LIKE '%Hata%')"@, 76) == 0) by {
        reveal_with_fuel(qmarks_upto, 51);
    }
    lemma_qmarks_is_upto(" AND (status LIKE '%HATA%' OR status LIKE '%ERROR%' OR status LIKE '%Hata%')"@);
}

proof fn lemma_status_clause_2()
    ensures
        qmarks(" AND (status LIKE '%İPTAL%' OR status LIKE '%CANCEL%' OR status LIKE '%Durduruldu%' OR status LIKE '%Stopped%')"@) == 0,
{
    reveal_strlit(" AND (status LIKE '%İPTAL%' OR status LIKE '%CANCEL%' OR status LIKE '%Durduruldu%' OR status LIKE '%Stopped%')");
    assert(qmarks_upto(" AND (status LIKE '%İPTAL%' OR status LIKE '%CANCEL%' OR status LIKE '%Durduruldu%' OR status LIKE '%Stopped%')"@, 50) == 0) by {
        reveal_with_fuel(qmarks_upto, 51);
    }
    assert(qmarks_upto(" AND (status LIKE '%İPTAL%' OR status LIKE '%CANCEL%' OR status LIKE '%Durduruldu%' OR status LIKE '%Stopped%')"@, 100) == 0) by {
        reveal_with_fuel(qmarks_upto, 51);
    }
    assert(qmarks_upto(" AND (status LIKE '%İPTAL%' OR status LIKE '%CANCEL%' OR status LIKE '%Durduruldu%' OR status LIKE '%Stopped%')"@, 111) == 0) by {
        reveal_with_fuel(qmarks_upto, 51);
    }
    lemma_qmarks_is_upto(" AND (status LIKE '%İPTAL%' OR status LIKE '%CANCEL%' OR status LIKE '%Durduruldu%' OR status LIKE '%Stopped%')"@);
}

proof fn lemma_status_clause_3()
    ensures
        qmarks(" AND status LIKE ?"@) == 1,
{
    reveal_strlit(" AND status LIKE ?");
    assert(qmarks_upto(" AND status LIKE ?"@, 18) == 1) by {
        reveal_with_fuel(qmarks_upto, 51);
    }
    lemma_qmarks_is_upto(" AND status LIKE ?"@);
}

proof fn lemma_columns_have_no_placeholders()
    ensures
        qmarks(RUNS_SELECT_COLUMNS@) == 0,
{
    reveal_strlit("id, benchmark_id, category, preset_or_version, gpu_mode, score, status, timestamp, duration_secs, avg_cpu_usage, peak_cpu_usage, avg_cpu_temp, peak_cpu_temp, avg_cpu_freq_mhz, peak_cpu_freq_mhz, avg_gpu_usage, peak_gpu_usage, avg_gpu_temp, peak_gpu_temp, avg_gpu_freq_mhz, peak_gpu_freq_mhz, avg_vram_freq_mhz, peak_vram_freq_mhz, avg_gpu_power_w, peak_gpu_power_w, avg_power_w, peak_power_w, avg_ac_power_w, peak_ac_power_w, avg_ram_gb, peak_ram_gb, avg_vram_gb, peak_vram_gb, cpu_throttling, gpu_throttling, system_info_summary, power_profile, log_path, is_methodology, methodology_parent_id, group_name");
    assert(qmarks_upto(RUNS_SELECT_COLUMNS@, 50) == 0) by {
        reveal_with_fuel(qmarks_upto, 51);
    }
    assert(qmarks_upto(RUNS_SELECT_COLUMNS@, 100) == 0) by {
        reveal_with_fuel(qmarks_upto, 51);
    }
    assert(qmarks_upto(RUNS_SELECT_COLUMNS@, 150) == 0) by {
        reveal_with_fuel(qmarks_upto, 51);
    }
    assert(qmarks_upto(RUNS_SELECT_COLUMNS@, 200) == 0) by {
        reveal_with_fuel(qmarks_upto, 51);
    }
    assert(qmarks_upto(RUNS_SELECT_COLUMNS@, 250) == 0) by {
        reveal_with_fuel(qmarks_upto, 51);
    }
    assert(qmarks_upto(RUNS_SELECT_COLUMNS@, 300) == 0) by {
        reveal_with_fuel(qmarks_upto, 51);
    }
    assert(qmarks_upto(RUNS_SELECT_COLUMNS@, 350) == 0) by {
        reveal_with_fuel(qmarks_upto, 51);
    }
    assert(qmarks_upto(RUNS_SELECT_COLUMNS@, 400) == 0) by {
        reveal_with_fuel(qmarks_upto, 51);
    }
    assert(qmarks_upto(RUNS_SELECT_COLUMNS@, 450) == 0) by {
        reveal_with_fuel(qmarks_upto, 51);
    }
    assert(qmarks_upto(RUNS_SELECT_COLUMNS@, 500) == 0) by {
        reveal_with_fuel(qmarks_upto, 51);
    }
    assert(qmarks_upto(RUNS_SELECT_COLUMNS@, 550) == 0) by {
        reveal_with_fuel(qmarks_upto, 51);
    }
    assert(qmarks_upto(RUNS_SELECT_COLUMNS@, 600) == 0) by {
        reveal_with_fuel(qmarks_upto, 51);
    }
    assert(qmarks_upto(RUNS_SELECT_COLUMNS@, 605) == 0) by {
        reveal_with_fuel(qmarks_upto, 51);
    }
    lemma_qmarks_is_upto(RUNS_SELECT_COLUMNS@);
}

proof fn lemma_select_has_no_placeholder()
    ensures
        qmarks("SELECT "@) == 0,
{
    reveal_strlit("SELECT ");
    assert(qmarks_upto("SELECT "@, 7) == 0) by {
        reveal_with_fuel(qmarks_upto, 51);
    }
    lemma_qmarks_is_upto("SELECT "@);
}

proof fn lemma_from_has_no_placeholder()
    ensures
        qmarks(" FROM runs WHERE 1=1"@) == 0,
{
    reveal_strlit(" FROM runs WHERE 1=1");
    assert(qmarks_upto(" FROM runs WHERE 1=1"@, 20) == 0) by {
        reveal_with_fuel(qmarks_upto, 51);
    }
    lemma_qmarks_is_upto(" FROM runs WHERE 1=1"@);
}

proof fn lemma_order_by_has_no_placeholder()
    ensures
        qmarks(" ORDER BY "@) == 0,
{
    reveal_strlit(" ORDER BY ");
    assert(qmarks_upto(" ORDER BY "@, 10) == 0) by {
        reveal_with_fuel(qmarks_upto, 51);
    }
    lemma_qmarks_is_upto(" ORDER BY "@);
}

proof fn lemma_limit_has_no_placeholder()
    ensures
        qmarks(" LIMIT 300"@) == 0,
{
    reveal_strlit(" LIMIT 300");
    assert(qmarks_upto(" LIMIT 300"@, 10) == 0) by {
        reveal_with_fuel(qmarks_upto, 51);
    }
    lemma_qmarks_is_upto(" LIMIT 300"@);
}

proof fn lemma_order_date_desc_has_no_placeholder()
    ensures
        qmarks("timestamp DESC"@) == 0,
{
    reveal_strlit("timestamp DESC");
    assert(qmarks_upto("timestamp DESC"@, 14) == 0) by {
        reveal_with_fuel(qmarks_upto, 51);
    }
    lemma_qmarks_is_upto("timestamp DESC"@);
}

proof fn lemma_order_date_asc_has_no_placeholder()
    ensures
        qmarks("timestamp ASC"@) == 0,
{
    reveal_strlit("timestamp ASC");
    assert(qmarks_upto("timestamp ASC"@, 13) == 0) by {
        reveal_with_fuel(qmarks_upto, 51);
    }
    lemma_qmarks_is_upto("timestamp ASC"@);
}

proof fn lemma_order_score_desc_has_no_placeholder()
    ensures
        qmarks("CASE WHEN score IS NULL THEN 1 ELSE 0 END, score DESC"@) == 0,
{
    reveal_strlit("CASE WHEN score IS NULL THEN 1 ELSE 0 END, score DESC");
    assert(qmarks_upto("CASE WHEN score IS NULL THEN 1 ELSE 0 END, score DESC"@, 50) == 0) by {
        reveal_with_fuel(qmarks_upto, 51);
    }
    assert(qmarks_upto("CASE WHEN score IS NULL THEN 1 ELSE 0 END, score DESC"@, 53) == 0) by {
        reveal_with_fuel(qmarks_upto, 51);
    }
    lemma_qmarks_is_upto("CASE WHEN score IS NULL THEN 1 ELSE 0 END, score DESC"@);
}

proof fn lemma_order_score_asc_has_no_placeholder()
    ensures
        qmarks("CASE WHEN score IS NULL THEN 1 ELSE 0 END, score ASC"@) == 0,
{
    reveal_strlit("CASE WHEN score IS NULL THEN 1 ELSE 0 END, score ASC");
    assert(qmarks_upto("CASE WHEN score IS NULL THEN 1 ELSE 0 END, score ASC"@, 50) == 0) by {
        reveal_with_fuel(qmarks_upto, 51);
    }
    assert(qmarks_upto("CASE WHEN score IS NULL THEN 1 ELSE 0 END, score ASC"@, 52) == 0) by {
        reveal_with_fuel(qmarks_upto, 51);
    }
    lemma_qmarks_is_upto("CASE WHEN score IS NULL THEN 1 ELSE 0 END, score ASC"@);
}

proof fn lemma_order_cpu_temp_peak_has_no_placeholder()
    ensures
        qmarks("peak_cpu_temp DESC"@) == 0,
{
    reveal_strlit("peak_cpu_temp DESC");
    assert(qmarks_upto("peak_cpu_temp DESC"@, 18) == 0) by {
        reveal_with_fuel(qmarks_upto, 51);
    }
    lemma_qmarks_is_upto("peak_cpu_temp DESC"@);
}

proof fn lemma_order_gpu_temp_peak_has_no_placeholder()
    ensures
        qmarks("peak_gpu_temp DESC"@) == 0,
{
    reveal_strlit("peak_gpu_temp DESC");
    assert(qmarks_upto("peak_gpu_temp DESC"@, 18) == 0) by {
        reveal_with_fuel(qmarks_upto, 51);
    }
    lemma_qmarks_is_upto("peak_gpu_temp DESC"@);
}

proof fn lemma_order_power_avg_has_no_placeholder()
    ensures
        qmarks("avg_power_w DESC"@) == 0,
{
    reveal_strlit("avg_power_w DESC");
    assert(qmarks_upto("avg_power_w DESC"@, 16) == 0) by {
        reveal_with_fuel(qmarks_upto, 51);
    }
    lemma_qmarks_is_upto("avg_power_w DESC"@);
}

/// The number of `?` among the first `i` characters of a text.
pub open spec fn qmarks_upto(s: Seq<char>, i: nat) -> nat
    decreases i,
{
    if i == 0 {
        0
    } else {
        qmarks_upto(s, (i - 1) as nat) + if s[i - 1] == '?' {
            1nat
        } else {
            0nat
        }
    }
}

proof fn lemma_qmarks_upto_prefix(s: Seq<char>, t: Seq<char>, k: nat)
    requires
        k <= s.len(),
        k <= t.len(),
        forall|i: int| 0 <= i < k ==> s[i] == t[i],
    ensures
        qmarks_upto(s, k) == qmarks_upto(t, k),
    decreases k,
{
    if k > 0 {
        lemma_qmarks_upto_prefix(s, t, (k - 1) as nat);
    }
}

proof fn lemma_qmarks_is_upto(s: Seq<char>)
    ensures
        qmarks(s) == qmarks_upto(s, s.len()),
    decreases s.len(),
{
    if s.len() > 0 {
        lemma_qmarks_is_upto(s.drop_last());
        lemma_qmarks_upto_prefix(s.drop_last(), s, (s.len() - 1) as nat);
    }
}

proof fn lemma_search_clause_placeholders(search: Seq<char>)
    ensures
        qmarks(search_clause(search).0) == search_clause(search).1.len(),
{
    let c = search_clause(search).0;
    if c.len() == 0 {
        assert(qmarks(c) == 0);
    }
    if c == " AND (benchmark_id LIKE ? OR preset_or_version LIKE ? OR category LIKE ? OR system_info_summary LIKE ?)"@ {
        lemma_search_clause_0();
    }
}

proof fn lemma_category_clause_placeholders(category: Seq<char>)
    ensures
        qmarks(category_clause(category).0) == category_clause(category).1.len(),
{
    let c = category_clause(category).0;
    if c.len() == 0 {
        assert(qmarks(c) == 0);
    }
    if c == " AND (category LIKE '%CPU%' OR category LIKE '%İşlemci%')"@ {
        lemma_category_clause_0();
    }
    if c == " AND (category LIKE '%GPU%' OR category LIKE '%Grafik%')"@ {
        lemma_category_clause_1();
    }
    if c == " AND category LIKE '%Render%'"@ {
        lemma_category_clause_2();
    }
    if c == " AND (category LIKE '%Sistem%' OR category LIKE '%System%')"@ {
        lemma_category_clause_3();
    }
    if c == " AND (category = ? OR category LIKE ?)"@ {
        lemma_category_clause_4();
    }
}

proof fn lemma_gpu_clause_placeholders(gpu_mode: Seq<char>)
    ensures
        qmarks(gpu_clause(gpu_mode).0) == gpu_clause(gpu_mode).1.len(),
{
    let c = gpu_clause(gpu_mode).0;
    if c.len() == 0 {
        assert(qmarks(c) == 0);
    }
    if c == " AND (gpu_mode LIKE '%Harici%' OR gpu_mode LIKE '%NVIDIA%' OR gpu_mode LIKE '%Dedicated%')"@ {
        lemma_gpu_clause_0();
    }
    if c == " AND (gpu_mode LIKE '%Dahili%' OR gpu_mode LIKE '%iGPU%' OR gpu_mode LIKE '%Integrated%')"@ {
        lemma_gpu_clause_1();
    }
    if c == " AND gpu_mode LIKE ?"@ {
        lemma_gpu_clause_2();
    }
}

proof fn lemma_status_clause_placeholders(status: Seq<char>)
    ensures
        qmarks(status_clause(status).0) == status_clause(status).1.len(),
{
    let c = status_clause(status).0;
    if c.len() == 0 {
        assert(qmarks(c) == 0);
    }
    if c == " AND (status LIKE '%TAMAMLANDI%' OR status LIKE '%COMPLETED%' OR status LIKE '%Başarılı%')"@ {
        lemma_status_clause_0();
    }
    if c == " AND (status LIKE '%HATA%' OR status LIKE '%ERROR%' OR status LIKE '%Hata%')"@ {
        lemma_status_clause_1();
    }
    if c == " AND (status LIKE '%İPTAL%' OR status LIKE '%CANCEL%' OR status LIKE '%Durduruldu%' OR status LIKE '%Stopped%')"@ {
        lemma_status_clause_2();
    }
    if c == " AND status LIKE ?"@ {
        lemma_status_clause_3();
    }
}

proof fn lemma_fixed_parts_have_no_placeholders(order: HistorySortOrder)
    ensures
        qmarks("SELECT "@) == 0,
        qmarks(RUNS_SELECT_COLUMNS@) == 0,
        qmarks(" FROM runs WHERE 1=1"@) == 0,
        qmarks(" ORDER BY "@) == 0,
        qmarks(sort_order_clause(order)) == 0,
        qmarks(" LIMIT 300"@) == 0,
{
    lemma_columns_have_no_placeholders();
    lemma_select_has_no_placeholder();
    lemma_from_has_no_placeholder();
    lemma_order_by_has_no_placeholder();
    lemma_limit_has_no_placeholder();
    match order {
        HistorySortOrder::DateDesc => lemma_order_date_desc_has_no_placeholder(),
        HistorySortOrder::DateAsc => lemma_order_date_asc_has_no_placeholder(),
        HistorySortOrder::ScoreDesc => lemma_order_score_desc_has_no_placeholder(),
        HistorySortOrder::ScoreAsc => lemma_order_score_asc_has_no_placeholder(),
        HistorySortOrder::CpuTempPeak => lemma_order_cpu_temp_peak_has_no_placeholder(),
        HistorySortOrder::GpuTempPeak => lemma_order_gpu_temp_peak_has_no_placeholder(),
        HistorySortOrder::PowerAvg => lemma_order_power_avg_has_no_placeholder(),
    }
}

/// Every `?` placeholder of the filtered history query has a value bound to it,
/// and every value bound has a placeholder: the query holds exactly as many
/// placeholders as values, whatever the filters and the sort order.
pub proof fn lemma_filtered_query_binds_every_placeholder(
    search: Seq<char>,
    category: Seq<char>,
    gpu_mode: Seq<char>,
    status: Seq<char>,
    order: HistorySortOrder,
)
    ensures
        qmarks(history_sql(search, category, gpu_mode, status, order)) == history_params(
            search,
            category,
            gpu_mode,
            status,
        ).len(),
{
    let p0 = "SELECT "@ + RUNS_SELECT_COLUMNS@;
    let p1 = p0 + " FROM runs WHERE 1=1"@;
    let p2 = p1 + search_clause(search).0;
    let p3 = p2 + category_clause(category).0;
    let p4 = p3 + gpu_clause(gpu_mode).0;
    let p5 = p4 + status_clause(status).0;
    let p6 = p5 + " ORDER BY "@;
    let p7 = p6 + sort_order_clause(order);
    let p8 = p7 + " LIMIT 300"@;
    lemma_fixed_parts_have_no_placeholders(order);
    lemma_search_clause_placeholders(search);
    lemma_category_clause_placeholders(category);
    lemma_gpu_clause_placeholders(gpu_mode);
    lemma_status_clause_placeholders(status);
    lemma_qmarks_concat("SELECT "@, RUNS_SELECT_COLUMNS@);
    lemma_qmarks_concat(p0, " FROM runs WHERE 1=1"@);
    lemma_qmarks_concat(p1, search_clause(search).0);
    lemma_qmarks_concat(p2, category_clause(category).0);
    lemma_qmarks_concat(p3, gpu_clause(gpu_mode).0);
    lemma_qmarks_concat(p4, status_clause(status).0);
    lemma_qmarks_concat(p5, " ORDER BY "@);
    lemma_qmarks_concat(p6, sort_order_clause(order));
    lemma_qmarks_concat(p7, " LIMIT 300"@);
    assert(history_sql(search, category, gpu_mode, status, order) == p8);
}

// ---------------------------------------------------------------------------
// Sort labels
// ---------------------------------------------------------------------------

/// The filtered history query ends with the `ORDER BY` clause of its sort order.
proof fn lemma_history_sql_ends_with_order(
    search: Seq<char>,
    category: Seq<char>,
    gpu_mode: Seq<char>,
    status: Seq<char>,
    order: HistorySortOrder,
    clause: Seq<char>,
)
    requires
        sort_order_clause(order) == clause,
    ensures
        ends_with(history_sql(search, category, gpu_mode, status, order), " ORDER BY "@ + clause + " LIMIT 300"@),
{
    let sql = history_sql(search, category, gpu_mode, status, order);
    let tail = " ORDER BY "@ + clause + " LIMIT 300"@;
    let head = "SELECT "@ + RUNS_SELECT_COLUMNS@ + " FROM runs WHERE 1=1"@ + search_clause(search).0
        + category_clause(category).0 + gpu_clause(gpu_mode).0 + status_clause(status).0;
    assert(sql =~= head + tail);
    assert(sql.skip(sql.len() - tail.len()) =~= tail);
}

/// A sort label that names neither a date ("En Eski", "Oldest") nor a score
/// ("Skor", "Score") sorts the history by the measurement it names: the CPU
/// temperature peak when it names CPU, else the GPU temperature peak when it names
/// GPU, else the average power when it names power ("Güç", "Power"), else the
/// newest first; the query then ends with that order. A label that names GPU
/// and not CPU never sorts by the CPU temperature.
pub proof fn lemma_sort_label_orders_by_named_measurement(
    label: Seq<char>,
    search: Seq<char>,
    category: Seq<char>,
    gpu_mode: Seq<char>,
    status: Seq<char>,
)
    requires
        !contains(label, "En Eski"@),
        !contains(label, "Oldest"@),
        !contains(label, "Skor"@),
        !contains(label, "Score"@),
    ensures
        ({
            let sql = history_sql(search, category, gpu_mode, status, sort_order_of(label));
            &&& contains(label, "CPU"@) ==> sort_order_of(label) == HistorySortOrder::CpuTempPeak && ends_with(
                sql,
                " ORDER BY peak_cpu_temp DESC LIMIT 300"@,
            )
            &&& !contains(label, "CPU"@) && contains(label, "GPU"@) ==> sort_order_of(label)
                == HistorySortOrder::GpuTempPeak && sort_order_of(label) != HistorySortOrder::CpuTempPeak
                && ends_with(sql, " ORDER BY peak_gpu_temp DESC LIMIT 300"@)
            &&& !contains(label, "CPU"@) && !contains(label, "GPU"@) && (contains(label, "Güç"@) || contains(
                label,
                "Power"@,
            )) ==> sort_order_of(label) == HistorySortOrder::PowerAvg && ends_with(
                sql,
                " ORDER BY avg_power_w DESC LIMIT 300"@,
            )
            &&& !contains(label, "CPU"@) && !contains(label, "GPU"@) && !contains(label, "Güç"@) && !contains(
                label,
                "Power"@,
            ) ==> sort_order_of(label) == HistorySortOrder::DateDesc && ends_with(
                sql,
                " ORDER BY timestamp DESC LIMIT 300"@,
            )
        }),
{
    let o = sort_order_of(label);
    let clause = sort_order_clause(o);
    lemma_history_sql_ends_with_order(search, category, gpu_mode, status, o, clause);
    reveal_strlit(" ORDER BY ");
    reveal_strlit(" LIMIT 300");
    reveal_strlit("peak_cpu_temp DESC");
    reveal_strlit("peak_gpu_temp DESC");
    reveal_strlit("avg_power_w DESC");
    reveal_strlit("timestamp DESC");
    reveal_strlit(" ORDER BY peak_cpu_temp DESC LIMIT 300");
    reveal_strlit(" ORDER BY peak_gpu_temp DESC LIMIT 300");
    reveal_strlit(" ORDER BY avg_power_w DESC LIMIT 300");
    reveal_strlit(" ORDER BY timestamp DESC LIMIT 300");
    let tail = " ORDER BY "@ + clause + " LIMIT 300"@;
    if o == HistorySortOrder::CpuTempPeak {
        assert(tail =~= " ORDER BY peak_cpu_temp DESC LIMIT 300"@);
    } else if o == HistorySortOrder::GpuTempPeak {
        assert(tail =~= " ORDER BY peak_gpu_temp DESC LIMIT 300"@);
    } else if o == HistorySortOrder::PowerAvg {
        assert(tail =~= " ORDER BY avg_power_w DESC LIMIT 300"@);
    } else if o == HistorySortOrder::DateDesc {
        assert(tail =~= " ORDER BY timestamp DESC LIMIT 300"@);
    }
}

/// A sort label that names the oldest first ("En Eski", "Oldest") sorts oldest
/// first; otherwise a label that names a score ("Skor", "Score") sorts by score,
/// runs without one last: highest first when it says so ("Yüksek", "High",
/// "Azalan"), else lowest first when it says so ("Düşük", "Low", "Artan").
pub proof fn lemma_sort_label_orders_by_date_or_score(
    label: Seq<char>,
    search: Seq<char>,
    category: Seq<char>,
    gpu_mode: Seq<char>,
    status: Seq<char>,
)
    ensures
        ({
            let sql = history_sql(search, category, gpu_mode, status, sort_order_of(label));
            let score = contains(label, "Skor"@) || contains(label, "Score"@);
            let oldest = contains(label, "En Eski"@) || contains(label, "Oldest"@);
            let high = contains(label, "Yüksek"@) || contains(label, "High"@) || contains(label, "Azalan"@);
            let low = contains(label, "Düşük"@) || contains(label, "Low"@) || contains(label, "Artan"@);
            &&& oldest ==> sort_order_of(label) == HistorySortOrder::DateAsc && ends_with(
                sql,
                " ORDER BY timestamp ASC LIMIT 300"@,
            )
            &&& !oldest && score && high ==> sort_order_of(label) == HistorySortOrder::ScoreDesc && ends_with(
                sql,
                " ORDER BY CASE WHEN score IS NULL THEN 1 ELSE 0 END, score DESC LIMIT 300"@,
            )
            &&& !oldest && score && !high && low ==> sort_order_of(label) == HistorySortOrder::ScoreAsc
                && ends_with(sql, " ORDER BY CASE WHEN score IS NULL THEN 1 ELSE 0 END, score ASC LIMIT 300"@)
        }),
{
    let o = sort_order_of(label);
    let clause = sort_order_clause(o);
    lemma_history_sql_ends_with_order(search, category, gpu_mode, status, o, clause);
    reveal_strlit(" ORDER BY ");
    reveal_strlit(" LIMIT 300");
    reveal_strlit("timestamp ASC");
    reveal_strlit("CASE WHEN score IS NULL THEN 1 ELSE 0 END, score DESC");
    reveal_strlit("CASE WHEN score IS NULL THEN 1 ELSE 0 END, score ASC");
    reveal_strlit(" ORDER BY timestamp ASC LIMIT 300");
    reveal_strlit(" ORDER BY CASE WHEN score IS NULL THEN 1 ELSE 0 END, score DESC LIMIT 300");
    reveal_strlit(" ORDER BY CASE WHEN score IS NULL THEN 1 ELSE 0 END, score ASC LIMIT 300");
    let tail = " ORDER BY "@ + clause + " LIMIT 300"@;
    if o == HistorySortOrder::DateAsc {
        assert(tail =~= " ORDER BY timestamp ASC LIMIT 300"@);
    } else if o == HistorySortOrder::ScoreDesc {
        assert(tail =~= " ORDER BY CASE WHEN score IS NULL THEN 1 ELSE 0 END, score DESC LIMIT 300"@);
    } else if o == HistorySortOrder::ScoreAsc {
        assert(tail =~= " ORDER BY CASE WHEN score IS NULL THEN 1 ELSE 0 END, score ASC LIMIT 300"@);
    }
}

} // verus!
