//! The benchmark catalog: the name, category and description shown for each
//! profile in the current language, the version selected when the catalog is
//! first shown and the label it is given, the entry's changes as versions are
//! picked and installed, the "run all" queue, and the install and uninstall
//! dialogs.
use vstd::prelude::*;
use crate::eula::{eula_text, get_eula_for_benchmark};
use crate::i18n::{fill_placeholders, strs_view, t, t_fmt, I18n};
use crate::models::{
    download_size_label, profile_for_version, version_index, BenchmarkProfile,
    BenchmarkProfileView, BenchmarkVersionView,
};
use crate::text::{
    chars_of, contains, dec, dec_string, is_digit, push_str, str_contains, str_is, string_from,
};

verus! {

// ---------------------------------------------------------------------------
// Localised profile texts
// ---------------------------------------------------------------------------

/// The stem of the dictionary keys of a benchmark's name and description, for
/// the benchmarks the dictionaries describe.
pub open spec fn bench_key_stem(id: Seq<char>) -> Option<Seq<char>> {
    if id == "7zip"@ {
        Some("7zip"@)
    } else if id == "cray"@ {
        Some("cray"@)
    } else if id == "geekbench"@ {
        Some("geekbench"@)
    } else if id == "unigine"@ {
        Some("unigine"@)
    } else if id == "unigine_heaven"@ {
        Some("unigine_heaven"@)
    } else if id == "unigine_superposition"@ {
        Some("unigine_superposition"@)
    } else if id == "ffmpeg"@ {
        Some("ffmpeg"@)
    } else if id == "blender"@ {
        Some("blender"@)
    } else if id == "llama-bench"@ {
        Some("llama_bench"@)
    } else if id == "gravitymark"@ {
        Some("gravitymark"@)
    } else if id == "fio"@ {
        Some("fio"@)
    } else if id == "stream"@ {
        Some("stream"@)
    } else if id == "ycruncher"@ {
        Some("ycruncher"@)
    } else {
        None
    }
}

/// A profile text (`suffix` is `_name` or `_desc`): the dictionary entry
/// `bench_<stem><suffix>` for a known benchmark, else the profile's own text.
pub open spec fn profile_text(i: I18n, id: Seq<char>, suffix: Seq<char>, own: Seq<char>) -> Seq<
    char,
> {
    match bench_key_stem(id) {
        Some(stem) => i.text_for("bench_"@ + stem + suffix),
        None => own,
    }
}

/// The dictionary key of the full name of a category, found by the words the
/// category text holds (checked in this order).
pub open spec fn category_key(cat: Seq<char>) -> Option<Seq<char>> {
    if contains(cat, "Render"@) {
        Some("cat_render_full"@)
    } else if contains(cat, "Sistem"@) || contains(cat, "System"@) {
        Some("cat_system_full"@)
    } else if contains(cat, "GPU"@) || contains(cat, "Grafik"@) || contains(cat, "Graphics"@) {
        Some("cat_gpu_full"@)
    } else if contains(cat, "CPU"@) || contains(cat, "İşlemci"@) || contains(cat, "Processor"@) {
        Some("cat_cpu_full"@)
    } else if contains(cat, "LLM"@) || contains(cat, "Yapay Zeka"@) || contains(cat, "AI"@) {
        Some("cat_ai_full"@)
    } else if contains(cat, "Bellek"@) || contains(cat, "RAM"@) || contains(cat, "Memory"@) {
        Some("cat_ram_full"@)
    } else if contains(cat, "Depolama"@) || contains(cat, "Disk"@) || contains(cat, "Storage"@) {
        Some("cat_disk_full"@)
    } else {
        None
    }
}

/// The category shown: the full name in the current language for a category
/// that is recognised, else the category text itself.
pub open spec fn category_text(i: I18n, cat: Seq<char>) -> Seq<char> {
    match category_key(cat) {
        Some(key) => i.text_for(key),
        None => cat,
    }
}

fn bench_stem(id: &str) -> (r: Option<&'static str>)
    ensures
        match r {
            Some(s) => bench_key_stem(id@) == Some(s@),
            None => bench_key_stem(id@) is None,
        },
{
    if str_is(id, "7zip") {
        Some("7zip")
    } else if str_is(id, "cray") {
        Some("cray")
    } else if str_is(id, "geekbench") {
        Some("geekbench")
    } else if str_is(id, "unigine") {
        Some("unigine")
    } else if str_is(id, "unigine_heaven") {
        Some("unigine_heaven")
    } else if str_is(id, "unigine_superposition") {
        Some("unigine_superposition")
    } else if str_is(id, "ffmpeg") {
        Some("ffmpeg")
    } else if str_is(id, "blender") {
        Some("blender")
    } else if str_is(id, "llama-bench") {
        Some("llama_bench")
    } else if str_is(id, "gravitymark") {
        Some("gravitymark")
    } else if str_is(id, "fio") {
        Some("fio")
    } else if str_is(id, "stream") {
        Some("stream")
    } else if str_is(id, "ycruncher") {
        Some("ycruncher")
    } else {
        None
    }
}

fn profile_text_of(i18n: &I18n, id: &str, suffix: &str, own: &str) -> (r: String)
    ensures
        r@ == profile_text(*i18n, id@, suffix@, own@),
{
    match bench_stem(id) {
        Some(stem) => {
            let mut key = string_from("bench_");
            push_str(&mut key, stem);
            push_str(&mut key, suffix);
            t(i18n, key.as_str())
        },
        None => string_from(own),
    }
}

fn category_key_of(cat: &str) -> (r: Option<&'static str>)
    ensures
        match r {
            Some(k) => category_key(cat@) == Some(k@),
            None => category_key(cat@) is None,
        },
{
    if str_contains(cat, "Render") {
        Some("cat_render_full")
    } else if str_contains(cat, "Sistem") || str_contains(cat, "System") {
        Some("cat_system_full")
    } else if str_contains(cat, "GPU") || str_contains(cat, "Grafik") || str_contains(
        cat,
        "Graphics",
    ) {
        Some("cat_gpu_full")
    } else if str_contains(cat, "CPU") || str_contains(cat, "İşlemci") || str_contains(
        cat,
        "Processor",
    ) {
        Some("cat_cpu_full")
    } else if str_contains(cat, "LLM") || str_contains(cat, "Yapay Zeka") || str_contains(
        cat,
        "AI",
    ) {
        Some("cat_ai_full")
    } else if str_contains(cat, "Bellek") || str_contains(cat, "RAM") || str_contains(
        cat,
        "Memory",
    ) {
        Some("cat_ram_full")
    } else if str_contains(cat, "Depolama") || str_contains(cat, "Disk") || str_contains(
        cat,
        "Storage",
    ) {
        Some("cat_disk_full")
    } else {
        None
    }
}

/// The name, category and description of a profile in the current language;
/// the profile's own texts stand where the dictionaries know none.
pub fn get_localized_profile_info(
    i18n: &I18n,
    id: &str,
    default_name: &str,
    default_category: &str,
    default_desc: &str,
) -> (r: (String, String, String))
    ensures
        r.0@ == profile_text(*i18n, id@, "_name"@, default_name@),
        r.1@ == category_text(*i18n, default_category@),
        r.2@ == profile_text(*i18n, id@, "_desc"@, default_desc@),
{
    let name = profile_text_of(i18n, id, "_name", default_name);
    let desc = profile_text_of(i18n, id, "_desc", default_desc);
    let category = match category_key_of(default_category) {
        Some(key) => t(i18n, key),
        None => string_from(default_category),
    };
    (name, category, desc)
}

// ---------------------------------------------------------------------------
// Catalog entries
// ---------------------------------------------------------------------------

/// The version selected when the catalog is first shown: the default version,
/// else the first listed one, else the profile's own version, else none.
pub open spec fn initial_version(p: BenchmarkProfileView) -> Seq<char> {
    match p.default_version {
        Some(v) => v,
        None => if p.versions.len() > 0 {
            p.versions[0].version
        } else {
            match p.version {
                Some(v) => v,
                None => Seq::empty(),
            }
        },
    }
}

/// Benchmarks whose catalog entry lets the user pick one of several versions.
pub open spec fn offers_version_choice(p: BenchmarkProfileView) -> bool {
    p.versions.len() > 1 && (p.id == "7zip"@ || p.id == "unigine"@ || p.id == "geekbench"@ || p.id
        == "blender"@ || p.id == "ffmpeg"@)
}

/// The version label of a catalog entry: a fixed label for the benchmarks that
/// ship one build; the selected version where the user picks one; otherwise the
/// selected version with a `v` put before a leading digit ("v1.0" when none).
pub open spec fn version_label(id: Seq<char>, selected: Seq<char>, has_versions: bool) -> Seq<char> {
    if id == "cray"@ {
        "v1.1"@
    } else if id == "ycruncher"@ {
        "v0.8.7"@
    } else if id == "stream"@ {
        "v5.10"@
    } else if id == "fio"@ {
        "v3.38"@
    } else if id == "gravitymark"@ {
        "v1.89"@
    } else if id == "llama-bench"@ {
        "b10729"@
    } else if has_versions {
        selected
    } else if selected.len() == 0 {
        "v1.0"@
    } else if selected[0] == 'v' || selected[0] == 'b' {
        selected
    } else if is_digit(selected[0]) {
        "v"@ + selected
    } else {
        selected
    }
}

/// The position of the selected version among the listed ones (0 when it is not
/// listed).
pub open spec fn selected_index(vs: Seq<BenchmarkVersionView>, selected: Seq<char>) -> int {
    match version_index(vs, selected) {
        Some(i) => i,
        None => 0,
    }
}

/// One entry of the benchmark catalog.
pub struct CatalogItem {
    pub id: String,
    pub name: String,
    pub category: String,
    pub download_size: String,
    pub description: String,
    pub installed: bool,
    pub running: bool,
    pub has_versions: bool,
    pub versions: Vec<String>,
    pub selected_version: String,
    pub selected_version_index: usize,
    pub display_version: String,
}

/// The version selected when the catalog is first shown.
pub fn initial_version_of(p: &BenchmarkProfile) -> (r: String)
    ensures
        r@ == initial_version(p@),
{
    match &p.default_version {
        Some(v) => v.clone(),
        None => if p.versions.len() > 0 {
            proof {
                assert(p@.versions[0] == p.versions@[0]@);
            }
            p.versions[0].version.clone()
        } else {
            match &p.version {
                Some(v) => v.clone(),
                None => String::new(),
            }
        },
    }
}

/// Whether the catalog entry of `p` lets the user pick a version.
pub fn has_version_choice(p: &BenchmarkProfile) -> (r: bool)
    ensures
        r == offers_version_choice(p@),
{
    let id = p.id.as_str();
    p.versions.len() > 1 && (str_is(id, "7zip") || str_is(id, "unigine") || str_is(id, "geekbench")
        || str_is(id, "blender") || str_is(id, "ffmpeg"))
}

/// The version label shown in a catalog entry.
pub fn display_version(id: &str, selected: &str, has_versions: bool) -> (r: String)
    ensures
        r@ == version_label(id@, selected@, has_versions),
{
    if str_is(id, "cray") {
        string_from("v1.1")
    } else if str_is(id, "ycruncher") {
        string_from("v0.8.7")
    } else if str_is(id, "stream") {
        string_from("v5.10")
    } else if str_is(id, "fio") {
        string_from("v3.38")
    } else if str_is(id, "gravitymark") {
        string_from("v1.89")
    } else if str_is(id, "llama-bench") {
        string_from("b10729")
    } else if has_versions {
        string_from(selected)
    } else {
        let v = chars_of(selected);
        if v.len() == 0 {
            string_from("v1.0")
        } else if v[0] == 'v' || v[0] == 'b' {
            string_from(selected)
        } else if '0' <= v[0] && v[0] <= '9' {
            let mut s = string_from("v");
            push_str(&mut s, selected);
            s
        } else {
            string_from(selected)
        }
    }
}

/// The position of `selected` among the versions of `p` (0 when not listed).
pub fn selected_version_index(p: &BenchmarkProfile, selected: &str) -> (r: usize)
    ensures
        r as int == selected_index(p@.versions, selected@),
{
    let ghost vs = p@.versions;
    let mut i: usize = 0;
    while i < p.versions.len()
        invariant
            i <= p.versions@.len(),
            vs == p@.versions,
            vs.len() == p.versions@.len(),
            forall|j: int| 0 <= j < i ==> vs[j].version != selected@,
        decreases p.versions@.len() - i,
    {
        if str_is(p.versions[i].version.as_str(), selected) {
            assert(vs[i as int] == p.versions@[i as int]@);
            assert(version_index(vs, selected@) == Some(i as int));
            return i;
        }
        assert(vs[i as int] == p.versions@[i as int]@);
        i += 1;
    }
    assert(version_index(vs, selected@) is None);
    0
}

fn version_names(p: &BenchmarkProfile) -> (r: Vec<String>)
    ensures
        r.deep_view() == p@.versions.map_values(|v: BenchmarkVersionView| v.version),
{
    let mut r: Vec<String> = Vec::new();
    let mut i: usize = 0;
    while i < p.versions.len()
        invariant
            i <= p.versions@.len(),
            r@.len() == i,
            p@.versions.len() == p.versions@.len(),
            forall|j: int| 0 <= j < i ==> (#[trigger] r@[j])@ == p@.versions[j].version,
        decreases p.versions@.len() - i,
    {
        assert(p@.versions[i as int] == p.versions@[i as int]@);
        r.push(p.versions[i].version.clone());
        i += 1;
    }
    assert(r.deep_view() =~= p@.versions.map_values(|v: BenchmarkVersionView| v.version));
    r
}

/// The catalog entry of a profile, whose selected version is `installed` or not:
/// the texts are those of the profile for its initially selected version, in the
/// current language.
pub fn catalog_item(i18n: &I18n, p: &BenchmarkProfile, installed: bool) -> (r: CatalogItem)
    ensures
        ({
            let sel = initial_version(p@);
            let eff = profile_for_version(p@, sel);
            let has = offers_version_choice(p@);
            &&& r.id@ == p@.id
            &&& r.name@ == profile_text(*i18n, p@.id, "_name"@, eff.name)
            &&& r.category@ == category_text(*i18n, eff.category)
            &&& r.description@ == profile_text(
                *i18n,
                p@.id,
                "_desc"@,
                match eff.description {
                    Some(d) => d,
                    None => Seq::empty(),
                },
            )
            &&& r.download_size@ == download_size_label(eff)
            &&& r.installed == installed
            &&& !r.running
            &&& r.has_versions == has
            &&& r.versions.deep_view() == p@.versions.map_values(|v: BenchmarkVersionView| v.version)
            &&& r.selected_version@ == sel
            &&& r.selected_version_index as int == selected_index(p@.versions, sel)
            &&& r.display_version@ == version_label(p@.id, sel, has)
        }),
{
    let sel = initial_version_of(p);
    let eff = p.for_version(sel.as_str());
    let desc: String = match &eff.description {
        Some(d) => d.clone(),
        None => String::new(),
    };
    let (name, category, description) = get_localized_profile_info(
        i18n,
        p.id.as_str(),
        eff.name.as_str(),
        eff.category.as_str(),
        desc.as_str(),
    );
    let has_versions = has_version_choice(p);
    let index = selected_version_index(p, sel.as_str());
    let label = display_version(p.id.as_str(), sel.as_str(), has_versions);
    CatalogItem {
        id: p.id.clone(),
        name,
        category,
        download_size: eff.display_download_size(),
        description,
        installed,
        running: false,
        has_versions,
        versions: version_names(p),
        selected_version: sel,
        selected_version_index: index,
        display_version: label,
    }
}

// ---------------------------------------------------------------------------
// Catalog entries as the user works with them
// ---------------------------------------------------------------------------

impl CatalogItem {
    /// After the user picks `version`: the entry shows that version, its position
    /// and download size in `profile` when the profile is known, and whether it is
    /// `installed`.
    pub fn select_version(&mut self, profile: Option<&BenchmarkProfile>, version: &str, installed: bool)
        ensures
            final(self).selected_version@ == version@,
            final(self).display_version@ == version@,
            final(self).installed == installed,
            match profile {
                Some(p) => final(self).selected_version_index as int == selected_index(
                    p@.versions,
                    version@,
                ) && final(self).download_size@ == download_size_label(
                    profile_for_version(p@, version@),
                ),
                None => final(self).selected_version_index == old(self).selected_version_index
                    && final(self).download_size == old(self).download_size,
            },
            final(self).id == old(self).id,
            final(self).name == old(self).name,
            final(self).category == old(self).category,
            final(self).description == old(self).description,
            final(self).running == old(self).running,
            final(self).has_versions == old(self).has_versions,
            final(self).versions == old(self).versions,
    {
        self.selected_version = string_from(version);
        self.display_version = string_from(version);
        if let Some(p) = profile {
            self.selected_version_index = selected_version_index(p, version);
            let eff = p.for_version(version);
            self.download_size = eff.display_download_size();
        }
        self.installed = installed;
    }

    /// An install of the entry's benchmark has started.
    pub fn start_install(&mut self)
        ensures
            *final(self) == (CatalogItem { running: true, ..*old(self) }),
    {
        self.running = true;
    }

    /// An install of `version` ended, successfully or not: the entry is no longer
    /// busy, and counts as installed when the install succeeded for the version
    /// it shows.
    pub fn finish_install(&mut self, success: bool, version: &str)
        ensures
            *final(self) == (CatalogItem {
                running: false,
                installed: old(self).installed || (success && old(self).selected_version@ == version@),
                ..*old(self)
            }),
    {
        self.running = false;
        if success && str_is(self.selected_version.as_str(), version) {
            self.installed = true;
        }
    }
}

/// The first profile whose id is `id`.
pub open spec fn profile_index(profiles: Seq<BenchmarkProfile>, id: Seq<char>) -> Option<int> {
    if exists|i: int| 0 <= i < profiles.len() && profiles[i].id@ == id {
        Some(
            choose|i: int|
                0 <= i < profiles.len() && profiles[i].id@ == id && forall|j: int|
                    0 <= j < i ==> profiles[j].id@ != id,
        )
    } else {
        None
    }
}

/// One benchmark of the run queue: its id, the version to run and the position
/// of its profile.
#[derive(Debug, Clone, PartialEq, Eq)]
pub struct QueueEntry {
    pub id: String,
    pub version: String,
    pub profile: usize,
}

/// The queue of "run all": each catalog entry whose shown version is installed
/// and whose profile is known, in catalog order.
pub open spec fn queue_of(
    items: Seq<CatalogItem>,
    installed: Seq<bool>,
    profiles: Seq<BenchmarkProfile>,
) -> Seq<(Seq<char>, Seq<char>, int)>
    decreases items.len(),
{
    if items.len() == 0 || installed.len() < items.len() {
        Seq::empty()
    } else {
        let n = items.len() - 1;
        let rest = queue_of(items.take(n), installed.take(n), profiles);
        let it = items[n];
        if installed[n] && profile_index(profiles, it.id@) is Some {
            rest.push((it.id@, it.selected_version@, profile_index(profiles, it.id@)->0))
        } else {
            rest
        }
    }
}

fn find_profile(profiles: &[BenchmarkProfile], id: &str) -> (r: Option<usize>)
    ensures
        match r {
            Some(i) => profile_index(profiles@, id@) == Some(i as int),
            None => profile_index(profiles@, id@) is None,
        },
{
    let mut i: usize = 0;
    while i < profiles.len()
        invariant
            i <= profiles@.len(),
            forall|j: int| 0 <= j < i ==> profiles@[j].id@ != id@,
        decreases profiles@.len() - i,
    {
        if str_is(profiles[i].id.as_str(), id) {
            assert(profile_index(profiles@, id@) == Some(i as int));
            return Some(i);
        }
        i += 1;
    }
    None
}

/// The queue of "run all", given which entries have their shown version
/// installed (`installed[i]` for `items[i]`).
pub fn run_queue(items: &[CatalogItem], installed: &[bool], profiles: &[BenchmarkProfile]) -> (r: Vec<
    QueueEntry,
>)
    requires
        installed@.len() == items@.len(),
    ensures
        r@.map_values(|q: QueueEntry| (q.id@, q.version@, q.profile as int)) == queue_of(
            items@,
            installed@,
            profiles@,
        ),
{
    let mut r: Vec<QueueEntry> = Vec::new();
    let mut i: usize = 0;
    while i < items.len()
        invariant
            installed@.len() == items@.len(),
            i <= items@.len(),
            r@.map_values(|q: QueueEntry| (q.id@, q.version@, q.profile as int)) == queue_of(
                items@.take(i as int),
                installed@.take(i as int),
                profiles@,
            ),
        decreases items@.len() - i,
    {
        let ghost before = r@;
        proof {
            let its = items@.take(i + 1);
            assert(its.take(i as int) =~= items@.take(i as int));
            assert(installed@.take(i + 1).take(i as int) =~= installed@.take(i as int));
            assert(its[i as int] == items@[i as int]);
        }
        if installed[i] {
            if let Some(k) = find_profile(profiles, items[i].id.as_str()) {
                r.push(
                    QueueEntry {
                        id: items[i].id.clone(),
                        version: items[i].selected_version.clone(),
                        profile: k,
                    },
                );
                assert(r@.map_values(|q: QueueEntry| (q.id@, q.version@, q.profile as int))
                    =~= before.map_values(|q: QueueEntry| (q.id@, q.version@, q.profile as int)).push(
                    (items@[i as int].id@, items@[i as int].selected_version@, k as int),
                ));
            }
        }
        i += 1;
    }
    assert(items@.take(i as int) =~= items@);
    assert(installed@.take(i as int) =~= installed@);
    r
}

/// The status line while the queue runs benchmark `index` (counted from 0) of
/// `total`.
pub fn queue_message(i18n: &I18n, index: usize, total: usize, name: &str) -> (r: String)
    requires
        index < total,
    ensures
        r@ == fill_placeholders(
            i18n.text_for("queue_running_fmt"@),
            seq![dec((index + 1) as nat), dec(total as nat), name@],
        ),
{
    let a = dec_string((index + 1) as u64);
    let b = dec_string(total as u64);
    let args: [&str; 3] = [a.as_str(), b.as_str(), name];
    let r = t_fmt(i18n, "queue_running_fmt", &args);
    assert(strs_view(args@) =~= seq![dec((index + 1) as nat), dec(total as nat), name@]);
    r
}

// ---------------------------------------------------------------------------
// Install and uninstall dialogs
// ---------------------------------------------------------------------------

/// The texts of the install dialog.
pub struct InstallDialogTexts {
    pub title: String,
    pub name: String,
    pub category: String,
    pub size: String,
    pub description: String,
    pub eula: String,
}

/// The texts of the install dialog for `version` of `p`: its name in the
/// current language (followed by the version when one is named), category,
/// download size, description and licence text.
pub fn install_dialog_texts(i18n: &I18n, p: &BenchmarkProfile, version: &str) -> (r:
    InstallDialogTexts)
    ensures
        ({
            let eff = profile_for_version(p@, version@);
            let name = profile_text(*i18n, p@.id, "_name"@, eff.name);
            &&& r.name@ == name
            &&& r.title@ == if version@.len() == 0 {
                name
            } else {
                name + " "@ + version@
            }
            &&& r.category@ == category_text(*i18n, eff.category)
            &&& r.size@ == download_size_label(eff)
            &&& r.description@ == profile_text(
                *i18n,
                p@.id,
                "_desc"@,
                match eff.description {
                    Some(d) => d,
                    None => Seq::empty(),
                },
            )
            &&& r.eula@ == eula_text(p@.id)
        }),
{
    let eff = p.for_version(version);
    let desc: String = match &eff.description {
        Some(d) => d.clone(),
        None => String::new(),
    };
    let (name, category, description) = get_localized_profile_info(
        i18n,
        p.id.as_str(),
        eff.name.as_str(),
        eff.category.as_str(),
        desc.as_str(),
    );
    let title = if version.is_empty() {
        name.clone()
    } else {
        let mut s = name.clone();
        push_str(&mut s, " ");
        push_str(&mut s, version);
        s
    };
    InstallDialogTexts {
        title,
        name,
        category,
        size: eff.display_download_size(),
        description,
        eula: string_from(get_eula_for_benchmark(p.id.as_str())),
    }
}

/// The texts of the uninstall confirmation for `version` of `p`.
pub struct UninstallDialogTexts {
    pub title: String,
    pub name: String,
    pub category: String,
    pub location: String,
}

/// The texts of the uninstall confirmation for `version` of `p`: the title
/// "<uninstall>: <version>", the benchmark's name and category, and where it lies
/// ("runners/<id>/<version>").
pub fn uninstall_dialog_texts(i18n: &I18n, p: &BenchmarkProfile, version: &str) -> (r:
    UninstallDialogTexts)
    ensures
        ({
            let eff = profile_for_version(p@, version@);
            &&& r.title@ == i18n.text_for("uninstall"@) + ": "@ + version@
            &&& r.name@ == profile_text(*i18n, p@.id, "_name"@, eff.name)
            &&& r.category@ == category_text(*i18n, eff.category)
            &&& r.location@ == "runners/"@ + p@.id + "/"@ + version@
        }),
{
    let eff = p.for_version(version);
    let desc: String = match &eff.description {
        Some(d) => d.clone(),
        None => String::new(),
    };
    let (name, category, _) = get_localized_profile_info(
        i18n,
        p.id.as_str(),
        eff.name.as_str(),
        eff.category.as_str(),
        desc.as_str(),
    );
    let mut title = t(i18n, "uninstall");
    push_str(&mut title, ": ");
    push_str(&mut title, version);
    let mut location = string_from("runners/");
    push_str(&mut location, p.id.as_str());
    push_str(&mut location, "/");
    push_str(&mut location, version);
    UninstallDialogTexts { title, name, category, location }
}

} // verus!
