//! The texts shown for a stored run in the history list, the comparison dialog
//! and the details dialog, apart from the measurements in floating point.
use vstd::prelude::*;
use crate::catalog::{category_text, get_localized_profile_info, profile_text};
use crate::dates::{compare_date_text, date_or, full_date_text, history_date_text, utc_time_text};
use crate::history::{history_gpu_mode, history_gpu_mode_text, history_status, history_status_text};
use crate::i18n::{
    gpu_mode_text, localize_gpu_mode, localize_power_profile, localize_status, localize_throttling,
    power_profile_text, status_text, t, throttling_text, I18n, Language,
};
use crate::text::{
    chars_of, contains, dec, dec_string, push_char, push_str, replace_char, replace_char_chars, replace_seq,
    replace_str_chars, str_contains, str_is, string_from, string_of,
};

verus! {

/// The stored texts and clock frequencies of a run.
pub struct RunTextFields {
    pub benchmark_id: String,
    pub category: String,
    pub preset_or_version: String,
    pub gpu_mode: String,
    pub power_profile: String,
    pub status: String,
    pub cpu_throttling: String,
    pub gpu_throttling: String,
    pub system_info_summary: String,
    pub is_methodology: bool,
    pub timestamp: i64,
    pub avg_cpu_freq_mhz: u32,
    pub peak_cpu_freq_mhz: u32,
    pub avg_gpu_freq_mhz: u32,
    pub peak_gpu_freq_mhz: u32,
    pub avg_vram_freq_mhz: u32,
    pub peak_vram_freq_mhz: u32,
}

// ---------------------------------------------------------------------------
// Small texts
// ---------------------------------------------------------------------------

/// A frequency in MHz, or "-" when none was measured.
pub open spec fn mhz_label(n: u32) -> Seq<char> {
    if n > 0 {
        dec(n as nat) + " MHz"@
    } else {
        "-"@
    }
}

/// A frequency in MHz, or "-" when none was measured.
pub fn mhz_text(n: u32) -> (r: String)
    ensures
        r@ == mhz_label(n),
{
    if n > 0 {
        let mut s = dec_string(n as u64);
        push_str(&mut s, " MHz");
        s
    } else {
        string_from("-")
    }
}

/// A mean and a peak frequency, "<mean> MHz / <peak> MHz".
pub fn freq_pair_text(avg: u32, peak: u32) -> (r: String)
    ensures
        r@ == dec(avg as nat) + " MHz / "@ + dec(peak as nat) + " MHz"@,
{
    let mut s = dec_string(avg as u64);
    push_str(&mut s, " MHz / ");
    let p = dec_string(peak as u64);
    push_str(&mut s, p.as_str());
    push_str(&mut s, " MHz");
    s
}

/// A stored throttling note that reports throttling (not "Yok", "Hayır", "-" or
/// "None").
pub open spec fn throttling_noted(note: Seq<char>) -> bool {
    note != "Yok"@ && note != "Hayır"@ && note != "-"@ && note != "None"@
}

/// Whether a stored throttling note reports throttling.
pub fn has_throttling(note: &str) -> (r: bool)
    ensures
        r == throttling_noted(note@),
{
    !str_is(note, "Yok") && !str_is(note, "Hayır") && !str_is(note, "-") && !str_is(note, "None")
}

/// A throttling text as English shows it: a percentage written "(%n)" becomes
/// "(n%)".
pub open spec fn english_percent(s: Seq<char>) -> Seq<char> {
    if contains(s, "(%"@) {
        replace_char(replace_seq(s, "(%"@, "("@), ')', "%)"@)
    } else {
        s
    }
}

/// Moves the percent sign of a throttling text behind the number, as English
/// writes it.
pub fn english_percent_text(s: &str) -> (r: String)
    ensures
        r@ == english_percent(s@),
{
    if str_contains(s, "(%") {
        let v = chars_of(s);
        let a = replace_str_chars(v.as_slice(), "(%", "(");
        let b = replace_char_chars(a.as_slice(), ')', "%)");
        string_of(b.as_slice())
    } else {
        string_from(s)
    }
}

/// The system summary shown, "-" when none was stored.
pub fn system_info_text(s: &str) -> (r: String)
    ensures
        r@ == if s@.len() == 0 {
            "-"@
        } else {
            s@
        },
{
    if s.is_empty() {
        string_from("-")
    } else {
        string_from(s)
    }
}

/// `s` without the colons at its end.
pub open spec fn trim_colons(s: Seq<char>) -> Seq<char>
    decreases s.len(),
{
    if s.len() > 0 && s.last() == ':' {
        trim_colons(s.drop_last())
    } else {
        s
    }
}

/// The word for "peak" in the current language, without trailing colons.
pub fn peak_label(i18n: &I18n) -> (r: String)
    ensures
        r@ == trim_colons(i18n.text_for("peak_prefix"@)),
{
    let p = t(i18n, "peak_prefix");
    let v = chars_of(p.as_str());
    let mut n: usize = v.len();
    assert(v@.take(n as int) =~= v@);
    while n > 0 && v[n - 1] == ':'
        invariant
            n <= v@.len(),
            trim_colons(v@.take(n as int)) == trim_colons(v@),
        decreases n,
    {
        assert(v@.take(n - 1) =~= v@.take(n as int).drop_last());
        n -= 1;
    }
    assert(trim_colons(v@.take(n as int)) == v@.take(n as int));
    let mut r = String::new();
    let mut j: usize = 0;
    while j < n
        invariant
            n <= v@.len(),
            j <= n,
            r@ == v@.take(j as int),
        decreases n - j,
    {
        push_char(&mut r, v[j]);
        assert(v@.take(j + 1) =~= v@.take(j as int).push(v@[j as int]));
        j += 1;
    }
    r
}

/// The title of the details dialog: the benchmark's name and its preset or
/// version, marked for a methodology record.
pub fn details_title(name: &str, preset: &str, is_methodology: bool) -> (r: String)
    ensures
        r@ == (if is_methodology {
            "🔍 [METODOLOJİ] "@
        } else {
            "🔍 "@
        }) + name@ + ": "@ + preset@,
{
    let mut s = if is_methodology {
        string_from("🔍 [METODOLOJİ] ")
    } else {
        string_from("🔍 ")
    };
    push_str(&mut s, name);
    push_str(&mut s, ": ");
    push_str(&mut s, preset);
    s
}

/// The position of the first run whose category differs from the first run's.
pub fn first_other_category(categories: &Vec<String>) -> (r: Option<usize>)
    ensures
        match r {
            Some(i) => 0 < i < categories@.len() && categories@[i as int]@ != categories@[0]@
                && forall|j: int| 0 <= j < i ==> (#[trigger] categories@[j])@ == categories@[0]@,
            None => forall|j: int|
                0 <= j < categories@.len() ==> (#[trigger] categories@[j])@ == categories@[0]@,
        },
{
    if categories.len() == 0 {
        return None;
    }
    let first = categories[0].as_str();
    let mut i: usize = 1;
    while i < categories.len()
        invariant
            categories@.len() > 0,
            first@ == categories@[0]@,
            1 <= i <= categories@.len(),
            forall|j: int| 0 <= j < i ==> (#[trigger] categories@[j])@ == categories@[0]@,
        decreases categories@.len() - i,
    {
        if !str_is(categories[i].as_str(), first) {
            return Some(i);
        }
        i += 1;
    }
    None
}

// ---------------------------------------------------------------------------
// The texts of a run in each view
// ---------------------------------------------------------------------------

/// The texts of a run in the history list.
pub struct HistoryTexts {
    pub name: String,
    pub category: String,
    pub preset: String,
    pub gpu_mode: String,
    pub status: String,
    pub date: String,
}

/// The texts of a run in the history list: its benchmark's name and category in
/// the current language, its preset (none for a methodology record), its GPU
/// mode and its status.
pub fn history_texts(i18n: &I18n, r: &RunTextFields) -> (h: HistoryTexts)
    ensures
        h.name@ == profile_text(*i18n, r.benchmark_id@, "_name"@, r.benchmark_id@),
        h.category@ == category_text(*i18n, r.category@),
        h.preset@ == if r.is_methodology {
            Seq::<char>::empty()
        } else {
            r.preset_or_version@
        },
        h.gpu_mode@ == history_gpu_mode_text(*i18n, r.gpu_mode@),
        h.status@ == history_status_text(*i18n, r.status@),
        h.date@ == date_or(utc_time_text(r.timestamp as int, "%m-%d %H:%M"@), "-"@),
{
    let (name, category, _) = get_localized_profile_info(
        i18n,
        r.benchmark_id.as_str(),
        r.benchmark_id.as_str(),
        r.category.as_str(),
        "",
    );
    HistoryTexts {
        name,
        category,
        preset: if r.is_methodology {
            String::new()
        } else {
            r.preset_or_version.clone()
        },
        gpu_mode: history_gpu_mode(i18n, r.gpu_mode.as_str()),
        status: history_status(i18n, r.status.as_str()),
        date: history_date_text(r.timestamp),
    }
}

/// The texts of a run in a column of the comparison dialog.
pub struct CompareTexts {
    pub title: String,
    pub preset: String,
    pub gpu_mode: String,
    pub power_profile: String,
    pub status: String,
    pub system_info: String,
    pub cpu_freq: String,
    pub gpu_freq: String,
    pub vram_freq: String,
    pub cpu_throttling: String,
    pub has_cpu_throttling: bool,
    pub gpu_throttling: String,
    pub has_gpu_throttling: bool,
    pub date: String,
}

/// A throttling note as the comparison dialog shows it.
pub open spec fn compare_throttling(i: I18n, note: Seq<char>) -> Seq<char> {
    if i.language() == Language::En {
        english_percent(throttling_text(i, note))
    } else {
        throttling_text(i, note)
    }
}

/// A throttling note as the comparison dialog and image show it.
pub fn compare_throttling_text(i18n: &I18n, note: &str) -> (r: String)
    ensures
        r@ == compare_throttling(*i18n, note@),
{
    let shown = localize_throttling(i18n, note);
    if i18n.is_english() {
        english_percent_text(shown.as_str())
    } else {
        shown
    }
}

/// The texts of a run in a column of the comparison dialog.
pub fn compare_texts(i18n: &I18n, r: &RunTextFields) -> (c: CompareTexts)
    ensures
        c.title@ == profile_text(*i18n, r.benchmark_id@, "_name"@, r.benchmark_id@),
        c.preset@ == r.preset_or_version@,
        c.gpu_mode@ == gpu_mode_text(*i18n, r.gpu_mode@),
        c.power_profile@ == power_profile_text(*i18n, r.power_profile@),
        c.status@ == status_text(*i18n, r.status@),
        c.system_info@ == if r.system_info_summary@.len() == 0 {
            "-"@
        } else {
            r.system_info_summary@
        },
        c.cpu_freq@ == dec(r.avg_cpu_freq_mhz as nat) + " MHz / "@ + dec(r.peak_cpu_freq_mhz as nat)
            + " MHz"@,
        c.gpu_freq@ == dec(r.avg_gpu_freq_mhz as nat) + " MHz / "@ + dec(r.peak_gpu_freq_mhz as nat)
            + " MHz"@,
        c.vram_freq@ == dec(r.avg_vram_freq_mhz as nat) + " MHz / "@ + dec(
            r.peak_vram_freq_mhz as nat,
        ) + " MHz"@,
        c.cpu_throttling@ == compare_throttling(*i18n, r.cpu_throttling@),
        c.has_cpu_throttling == throttling_noted(r.cpu_throttling@),
        c.gpu_throttling@ == compare_throttling(*i18n, r.gpu_throttling@),
        c.has_gpu_throttling == throttling_noted(r.gpu_throttling@),
        c.date@ == date_or(utc_time_text(r.timestamp as int, "%Y-%m-%d %H:%M"@), Seq::empty()),
{
    let (title, _, _) = get_localized_profile_info(
        i18n,
        r.benchmark_id.as_str(),
        r.benchmark_id.as_str(),
        r.category.as_str(),
        "",
    );
    CompareTexts {
        title,
        preset: r.preset_or_version.clone(),
        gpu_mode: localize_gpu_mode(i18n, r.gpu_mode.as_str()),
        power_profile: localize_power_profile(i18n, r.power_profile.as_str()),
        status: localize_status(i18n, r.status.as_str()),
        system_info: system_info_text(r.system_info_summary.as_str()),
        cpu_freq: freq_pair_text(r.avg_cpu_freq_mhz, r.peak_cpu_freq_mhz),
        gpu_freq: freq_pair_text(r.avg_gpu_freq_mhz, r.peak_gpu_freq_mhz),
        vram_freq: freq_pair_text(r.avg_vram_freq_mhz, r.peak_vram_freq_mhz),
        cpu_throttling: compare_throttling_text(i18n, r.cpu_throttling.as_str()),
        has_cpu_throttling: has_throttling(r.cpu_throttling.as_str()),
        gpu_throttling: compare_throttling_text(i18n, r.gpu_throttling.as_str()),
        has_gpu_throttling: has_throttling(r.gpu_throttling.as_str()),
        date: compare_date_text(r.timestamp),
    }
}

/// The texts of a run in the details dialog.
pub struct DetailsTexts {
    pub title: String,
    pub name: String,
    pub category: String,
    pub preset: String,
    pub gpu_mode: String,
    pub power_profile: String,
    pub status: String,
    pub cpu_throttling: String,
    pub gpu_throttling: String,
    pub avg_cpu_freq: String,
    pub peak_cpu_freq: String,
    pub avg_gpu_freq: String,
    pub peak_gpu_freq: String,
    pub avg_vram_freq: String,
    pub peak_vram_freq: String,
    pub date: String,
}

/// The texts of a run in the details dialog.
pub fn details_texts(i18n: &I18n, r: &RunTextFields) -> (d: DetailsTexts)
    ensures
        ({
            let name = profile_text(*i18n, r.benchmark_id@, "_name"@, r.benchmark_id@);
            &&& d.name@ == name
            &&& d.title@ == (if r.is_methodology {
                "🔍 [METODOLOJİ] "@
            } else {
                "🔍 "@
            }) + name + ": "@ + r.preset_or_version@
        }),
        d.category@ == category_text(*i18n, r.category@),
        d.preset@ == r.preset_or_version@,
        d.gpu_mode@ == gpu_mode_text(*i18n, r.gpu_mode@),
        d.power_profile@ == power_profile_text(*i18n, r.power_profile@),
        d.status@ == status_text(*i18n, r.status@),
        d.cpu_throttling@ == throttling_text(*i18n, r.cpu_throttling@),
        d.gpu_throttling@ == throttling_text(*i18n, r.gpu_throttling@),
        d.avg_cpu_freq@ == mhz_label(r.avg_cpu_freq_mhz),
        d.peak_cpu_freq@ == mhz_label(r.peak_cpu_freq_mhz),
        d.avg_gpu_freq@ == mhz_label(r.avg_gpu_freq_mhz),
        d.peak_gpu_freq@ == mhz_label(r.peak_gpu_freq_mhz),
        d.avg_vram_freq@ == mhz_label(r.avg_vram_freq_mhz),
        d.peak_vram_freq@ == mhz_label(r.peak_vram_freq_mhz),
        d.date@ == date_or(utc_time_text(r.timestamp as int, "%Y-%m-%d %H:%M:%S"@), "-"@),
{
    let (name, category, _) = get_localized_profile_info(
        i18n,
        r.benchmark_id.as_str(),
        r.benchmark_id.as_str(),
        r.category.as_str(),
        "",
    );
    let title = details_title(name.as_str(), r.preset_or_version.as_str(), r.is_methodology);
    DetailsTexts {
        title,
        name,
        category,
        preset: r.preset_or_version.clone(),
        gpu_mode: localize_gpu_mode(i18n, r.gpu_mode.as_str()),
        power_profile: localize_power_profile(i18n, r.power_profile.as_str()),
        status: localize_status(i18n, r.status.as_str()),
        cpu_throttling: localize_throttling(i18n, r.cpu_throttling.as_str()),
        gpu_throttling: localize_throttling(i18n, r.gpu_throttling.as_str()),
        avg_cpu_freq: mhz_text(r.avg_cpu_freq_mhz),
        peak_cpu_freq: mhz_text(r.peak_cpu_freq_mhz),
        avg_gpu_freq: mhz_text(r.avg_gpu_freq_mhz),
        peak_gpu_freq: mhz_text(r.peak_gpu_freq_mhz),
        avg_vram_freq: mhz_text(r.avg_vram_freq_mhz),
        peak_vram_freq: mhz_text(r.peak_vram_freq_mhz),
        date: full_date_text(r.timestamp),
    }
}

} // verus!
