//! Benchmark profiles and versions, the GPU mode and the history sort orders.

use vstd::prelude::*;
use crate::text::{
    lemma_absent_prefix, lemma_contains_at, chars_of, clone_opt_string, clone_opt_strings, clone_strings, contains, contains_str, dec,
    dec_string, opt_strings_view, opt_view, push_str, starts_with, starts_with_str, string_from,
};

verus! {

// ---------------------------------------------------------------------------
// Benchmark profiles
// ---------------------------------------------------------------------------

/// Version-specific overrides of a benchmark profile.
#[derive(Debug, Clone, PartialEq, Default)]
pub struct BenchmarkVersion {
    pub version: String,
    pub download_size: Option<String>,
    pub download_cmd: Option<String>,
    pub download_url: Option<String>,
    pub run_cmd: Option<String>,
    pub run_args: Option<Vec<String>>,
    pub score_regex: Option<String>,
    pub archive_type: Option<String>,
    pub binary_relative_path: Option<String>,
    pub score_unit: Option<String>,
    pub approx_size_mb: Option<u64>,
}

/// The value of a `BenchmarkVersion`, with every string taken as its characters.
pub struct BenchmarkVersionView {
    pub version: Seq<char>,
    pub download_size: Option<Seq<char>>,
    pub download_cmd: Option<Seq<char>>,
    pub download_url: Option<Seq<char>>,
    pub run_cmd: Option<Seq<char>>,
    pub run_args: Option<Seq<Seq<char>>>,
    pub score_regex: Option<Seq<char>>,
    pub archive_type: Option<Seq<char>>,
    pub binary_relative_path: Option<Seq<char>>,
    pub score_unit: Option<Seq<char>>,
    pub approx_size_mb: Option<u64>,
}

impl View for BenchmarkVersion {
    type V = BenchmarkVersionView;

    open spec fn view(&self) -> BenchmarkVersionView {
        BenchmarkVersionView {
            version: self.version@,
            download_size: opt_view(self.download_size),
            download_cmd: opt_view(self.download_cmd),
            download_url: opt_view(self.download_url),
            run_cmd: opt_view(self.run_cmd),
            run_args: opt_strings_view(self.run_args),
            score_regex: opt_view(self.score_regex),
            archive_type: opt_view(self.archive_type),
            binary_relative_path: opt_view(self.binary_relative_path),
            score_unit: opt_view(self.score_unit),
            approx_size_mb: self.approx_size_mb,
        }
    }
}

/// A benchmark as described by its profile file.
#[derive(Debug, Clone, PartialEq, Default)]
pub struct BenchmarkProfile {
    pub id: String,
    pub name: String,
    pub category: String,
    pub download_size: Option<String>,
    pub description: Option<String>,
    pub download_url: Option<String>,
    pub download_cmd: Option<String>,
    pub run_cmd: String,
    pub run_args: Vec<String>,
    pub score_regex: Option<String>,
    pub versions: Vec<BenchmarkVersion>,
    pub default_version: Option<String>,
    pub version: Option<String>,
    pub archive_type: Option<String>,
    pub binary_relative_path: Option<String>,
    pub score_unit: Option<String>,
    pub approx_size_mb: Option<u64>,
}

/// The value of a `BenchmarkProfile`, with every string taken as its characters.
pub struct BenchmarkProfileView {
    pub id: Seq<char>,
    pub name: Seq<char>,
    pub category: Seq<char>,
    pub download_size: Option<Seq<char>>,
    pub description: Option<Seq<char>>,
    pub download_url: Option<Seq<char>>,
    pub download_cmd: Option<Seq<char>>,
    pub run_cmd: Seq<char>,
    pub run_args: Seq<Seq<char>>,
    pub score_regex: Option<Seq<char>>,
    pub versions: Seq<BenchmarkVersionView>,
    pub default_version: Option<Seq<char>>,
    pub version: Option<Seq<char>>,
    pub archive_type: Option<Seq<char>>,
    pub binary_relative_path: Option<Seq<char>>,
    pub score_unit: Option<Seq<char>>,
    pub approx_size_mb: Option<u64>,
}

impl View for BenchmarkProfile {
    type V = BenchmarkProfileView;

    open spec fn view(&self) -> BenchmarkProfileView {
        BenchmarkProfileView {
            id: self.id@,
            name: self.name@,
            category: self.category@,
            download_size: opt_view(self.download_size),
            description: opt_view(self.description),
            download_url: opt_view(self.download_url),
            download_cmd: opt_view(self.download_cmd),
            run_cmd: self.run_cmd@,
            run_args: self.run_args.deep_view(),
            score_regex: opt_view(self.score_regex),
            versions: self.versions@.map_values(|v: BenchmarkVersion| v@),
            default_version: opt_view(self.default_version),
            version: opt_view(self.version),
            archive_type: opt_view(self.archive_type),
            binary_relative_path: opt_view(self.binary_relative_path),
            score_unit: opt_view(self.score_unit),
            approx_size_mb: self.approx_size_mb,
        }
    }
}

/// `a` when present, else `b` (`Option::or`).
pub open spec fn or_else<T>(a: Option<T>, b: Option<T>) -> Option<T> {
    match a {
        Some(x) => Some(x),
        None => b,
    }
}

/// The command that runs a profile: its `run_cmd`, else its binary path made
/// relative to the runner directory, else nothing.
pub open spec fn run_cmd_of(p: BenchmarkProfileView) -> Seq<char> {
    if p.run_cmd.len() > 0 {
        p.run_cmd
    } else {
        match p.binary_relative_path {
            Some(rel) => if starts_with(rel, "./"@) || starts_with(rel, "/"@) {
                rel
            } else {
                "./"@ + rel
            },
            None => Seq::empty(),
        }
    }
}

/// The download size shown to the user.
pub open spec fn download_size_label(p: BenchmarkProfileView) -> Seq<char> {
    match p.download_size {
        Some(s) => s,
        None => match p.approx_size_mb {
            Some(mb) => "~"@ + dec(mb as nat) + " MB"@,
            None => "Bilinmiyor"@,
        },
    }
}

/// Index of the first version named `target`.
pub open spec fn version_index(vs: Seq<BenchmarkVersionView>, target: Seq<char>) -> Option<int> {
    if exists|i: int| 0 <= i < vs.len() && vs[i].version == target {
        Some(
            choose|i: int|
                0 <= i < vs.len() && vs[i].version == target && forall|j: int|
                    0 <= j < i ==> vs[j].version != target,
        )
    } else {
        None
    }
}

/// The version that `for_version` looks for: the requested one, or the default
/// version when none is requested.
pub open spec fn target_version(p: BenchmarkProfileView, requested: Seq<char>) -> Seq<char> {
    if requested.len() == 0 {
        match p.default_version {
            Some(d) => d,
            None => requested,
        }
    } else {
        requested
    }
}

/// The profile with the overrides of version `v` applied.
pub open spec fn apply_version(p: BenchmarkProfileView, v: BenchmarkVersionView)
    -> BenchmarkProfileView {
    BenchmarkProfileView {
        id: p.id,
        name: p.name + " ("@ + v.version + ")"@,
        category: p.category,
        download_size: or_else(v.download_size, p.download_size),
        description: p.description,
        download_url: or_else(v.download_url, p.download_url),
        download_cmd: or_else(v.download_cmd, p.download_cmd),
        run_cmd: match v.run_cmd {
            Some(c) => c,
            None => p.run_cmd,
        },
        run_args: match v.run_args {
            Some(a) => a,
            None => p.run_args,
        },
        score_regex: or_else(v.score_regex, p.score_regex),
        versions: Seq::empty(),
        default_version: p.default_version,
        version: Some(v.version),
        archive_type: or_else(v.archive_type, p.archive_type),
        binary_relative_path: or_else(v.binary_relative_path, p.binary_relative_path),
        score_unit: or_else(v.score_unit, p.score_unit),
        approx_size_mb: or_else(v.approx_size_mb, p.approx_size_mb),
    }
}

/// The profile for a version: with that version's overrides when the profile
/// lists it, else the profile unchanged.
pub open spec fn profile_for_version(p: BenchmarkProfileView, requested: Seq<char>)
    -> BenchmarkProfileView {
    match version_index(p.versions, target_version(p, requested)) {
        Some(i) => apply_version(p, p.versions[i]),
        None => p,
    }
}

fn or_else_string(a: &Option<String>, b: &Option<String>) -> (r: Option<String>)
    ensures
        opt_view(r) == or_else(opt_view(*a), opt_view(*b)),
{
    match a {
        Some(x) => Some(x.clone()),
        None => clone_opt_string(b),
    }
}

fn strings_eq(a: &String, b: &String) -> (r: bool)
    ensures
        r == (a@ == b@),
{
    crate::text::str_is(a.as_str(), b.as_str())
}

impl BenchmarkVersion {
    /// A field-by-field copy.
    pub fn copy(&self) -> (r: Self)
        ensures
            r@ == self@,
    {
        BenchmarkVersion {
            version: self.version.clone(),
            download_size: clone_opt_string(&self.download_size),
            download_cmd: clone_opt_string(&self.download_cmd),
            download_url: clone_opt_string(&self.download_url),
            run_cmd: clone_opt_string(&self.run_cmd),
            run_args: clone_opt_strings(&self.run_args),
            score_regex: clone_opt_string(&self.score_regex),
            archive_type: clone_opt_string(&self.archive_type),
            binary_relative_path: clone_opt_string(&self.binary_relative_path),
            score_unit: clone_opt_string(&self.score_unit),
            approx_size_mb: self.approx_size_mb,
        }
    }
}

fn copy_versions(vs: &Vec<BenchmarkVersion>) -> (r: Vec<BenchmarkVersion>)
    ensures
        r@.map_values(|v: BenchmarkVersion| v@) == vs@.map_values(|v: BenchmarkVersion| v@),
{
    let mut r: Vec<BenchmarkVersion> = Vec::new();
    let mut i: usize = 0;
    while i < vs.len()
        invariant
            i <= vs@.len(),
            r@.len() == i,
            forall|j: int| 0 <= j < i ==> (#[trigger] r@[j])@ == vs@[j]@,
        decreases vs@.len() - i,
    {
        let c = vs[i].copy();
        r.push(c);
        i += 1;
    }
    assert(r@.map_values(|v: BenchmarkVersion| v@) =~= vs@.map_values(|v: BenchmarkVersion| v@));
    r
}

impl BenchmarkProfile {
    /// A field-by-field copy.
    pub fn copy(&self) -> (r: Self)
        ensures
            r@ == self@,
    {
        let versions = copy_versions(&self.versions);
        BenchmarkProfile {
            id: self.id.clone(),
            name: self.name.clone(),
            category: self.category.clone(),
            download_size: clone_opt_string(&self.download_size),
            description: clone_opt_string(&self.description),
            download_url: clone_opt_string(&self.download_url),
            download_cmd: clone_opt_string(&self.download_cmd),
            run_cmd: self.run_cmd.clone(),
            run_args: clone_strings(&self.run_args),
            score_regex: clone_opt_string(&self.score_regex),
            versions,
            default_version: clone_opt_string(&self.default_version),
            version: clone_opt_string(&self.version),
            archive_type: clone_opt_string(&self.archive_type),
            binary_relative_path: clone_opt_string(&self.binary_relative_path),
            score_unit: clone_opt_string(&self.score_unit),
            approx_size_mb: self.approx_size_mb,
        }
    }

    /// Returns the command or binary path used to run the benchmark
    pub fn get_run_cmd(&self) -> (r: String)
        ensures
            r@ == run_cmd_of(self@),
    {
        if !self.run_cmd.as_str().is_empty() {
            self.run_cmd.clone()
        } else {
            match &self.binary_relative_path {
                Some(rel) => {
                    let rv = chars_of(rel.as_str());
                    if starts_with_str(rv.as_slice(), "./") || starts_with_str(rv.as_slice(), "/") {
                        rel.clone()
                    } else {
                        let mut s = string_from("./");
                        push_str(&mut s, rel.as_str());
                        s
                    }
                },
                None => String::new(),
            }
        }
    }

    /// Formats the download size for display in the UI
    pub fn display_download_size(&self) -> (r: String)
        ensures
            r@ == download_size_label(self@),
    {
        match &self.download_size {
            Some(s) => s.clone(),
            None => match self.approx_size_mb {
                Some(mb) => {
                    let mut s = string_from("~");
                    let d = dec_string(mb);
                    push_str(&mut s, d.as_str());
                    push_str(&mut s, " MB");
                    s
                },
                None => string_from("Bilinmiyor"),
            },
        }
    }

    /// Returns a profile with version-specific overrides applied
    pub fn for_version(&self, version_name: &str) -> (r: BenchmarkProfile)
        ensures
            r@ == profile_for_version(self@, version_name@),
    {
        let target: String = if version_name.is_empty() {
            match &self.default_version {
                Some(d) => d.clone(),
                None => string_from(version_name),
            }
        } else {
            string_from(version_name)
        };
        proof {
            if version_name@.len() == 0 {
                assert(version_name@.len() == 0);
            }
            assert(target@ == target_version(self@, version_name@));
        }
        let ghost vs = self@.versions;
        let mut i: usize = 0;
        while i < self.versions.len()
            invariant
                i <= self.versions@.len(),
                vs == self@.versions,
                vs.len() == self.versions@.len(),
                target@ == target_version(self@, version_name@),
                forall|j: int| 0 <= j < i ==> vs[j].version != target@,
            decreases self.versions@.len() - i,
        {
            if strings_eq(&self.versions[i].version, &target) {
                let v = &self.versions[i];
                assert(vs[i as int] == v@);
                assert(version_index(vs, target@) == Some(i as int));
                let mut name = self.name.clone();
                push_str(&mut name, " (");
                push_str(&mut name, v.version.as_str());
                push_str(&mut name, ")");
                let r = BenchmarkProfile {
                    id: self.id.clone(),
                    name,
                    category: self.category.clone(),
                    download_size: or_else_string(&v.download_size, &self.download_size),
                    description: clone_opt_string(&self.description),
                    download_url: or_else_string(&v.download_url, &self.download_url),
                    download_cmd: or_else_string(&v.download_cmd, &self.download_cmd),
                    run_cmd: match &v.run_cmd {
                        Some(c) => c.clone(),
                        None => self.run_cmd.clone(),
                    },
                    run_args: match &v.run_args {
                        Some(a) => clone_strings(a),
                        None => clone_strings(&self.run_args),
                    },
                    score_regex: or_else_string(&v.score_regex, &self.score_regex),
                    versions: Vec::new(),
                    default_version: clone_opt_string(&self.default_version),
                    version: Some(v.version.clone()),
                    archive_type: or_else_string(&v.archive_type, &self.archive_type),
                    binary_relative_path: or_else_string(
                        &v.binary_relative_path,
                        &self.binary_relative_path,
                    ),
                    score_unit: or_else_string(&v.score_unit, &self.score_unit),
                    approx_size_mb: match v.approx_size_mb {
                        Some(m) => Some(m),
                        None => self.approx_size_mb,
                    },
                };
                assert(r@.versions =~= Seq::<BenchmarkVersionView>::empty());
                assert(r@ == apply_version(self@, vs[i as int]));
                return r;
            }
            i += 1;
        }
        assert(version_index(vs, target@) is None);
        self.copy()
    }
}

// ---------------------------------------------------------------------------
// GPU mode
// ---------------------------------------------------------------------------

/// Which GPU a benchmark is steered to.
#[derive(Debug, Clone, Copy, PartialEq, Eq, Structural, Default)]
pub enum GpuMode {
    #[default]
    NvidiaDgpu,
    Integrated,
    Auto,
}

/// The GPU mode that a label names; the first rule that matches wins.
pub open spec fn gpu_mode_of(s: Seq<char>) -> GpuMode {
    if contains(s, "dGPU"@) || contains(s, "NVIDIA"@) || contains(s, "Harici"@) || contains(
        s,
        "Dedicated"@,
    ) {
        GpuMode::NvidiaDgpu
    } else if contains(s, "iGPU"@) || contains(s, "Dahili"@) || contains(s, "Integrated"@) {
        GpuMode::Integrated
    } else {
        GpuMode::Auto
    }
}

/// The label of each GPU mode.
pub open spec fn gpu_mode_label(m: GpuMode) -> Seq<char> {
    match m {
        GpuMode::NvidiaDgpu => "Harici GPU (NVIDIA)"@,
        GpuMode::Integrated => "Dahili GPU (iGPU)"@,
        GpuMode::Auto => "Sistem Varsayılanı"@,
    }
}

/// Reading a GPU mode's label back gives the same mode; so does the label
/// "System Default" that settings store for the automatic mode.
pub proof fn lemma_gpu_mode_label_round_trip(m: GpuMode)
    ensures
        gpu_mode_of(gpu_mode_label(m)) == m,
        gpu_mode_of("System Default"@) == GpuMode::Auto,
{
    reveal_strlit("Harici GPU (NVIDIA)");
    reveal_strlit("Dahili GPU (iGPU)");
    reveal_strlit("Sistem Varsayılanı");
    reveal_strlit("System Default");
    reveal_strlit("dGPU");
    reveal_strlit("NVIDIA");
    reveal_strlit("Harici");
    reveal_strlit("Dedicated");
    reveal_strlit("iGPU");
    reveal_strlit("Dahili");
    reveal_strlit("Integrated");
    let nv = "Harici GPU (NVIDIA)"@;
    let ig = "Dahili GPU (iGPU)"@;
    let au = "Sistem Varsayılanı"@;
    let sd = "System Default"@;
    lemma_contains_at(nv, "Harici"@, 0);
    lemma_absent_prefix(ig, "dGPU"@, 1);
    lemma_absent_prefix(ig, "NVIDIA"@, 1);
    lemma_absent_prefix(ig, "Harici"@, 1);
    lemma_absent_prefix(ig, "Dedicated"@, 2);
    lemma_contains_at(ig, "iGPU"@, 12);
    lemma_absent_prefix(au, "dGPU"@, 1);
    lemma_absent_prefix(au, "NVIDIA"@, 1);
    lemma_absent_prefix(au, "Harici"@, 1);
    lemma_absent_prefix(au, "Dedicated"@, 1);
    lemma_absent_prefix(au, "iGPU"@, 2);
    lemma_absent_prefix(au, "Dahili"@, 1);
    lemma_absent_prefix(au, "Integrated"@, 1);
    lemma_absent_prefix(sd, "dGPU"@, 1);
    lemma_absent_prefix(sd, "NVIDIA"@, 1);
    lemma_absent_prefix(sd, "Harici"@, 1);
    lemma_absent_prefix(sd, "Dedicated"@, 3);
    lemma_absent_prefix(sd, "iGPU"@, 1);
    lemma_absent_prefix(sd, "Dahili"@, 2);
    lemma_absent_prefix(sd, "Integrated"@, 1);
}

impl GpuMode {
    /// The GPU mode that a label names.
    pub fn from_display_str(s: &str) -> (r: Self)
        ensures
            r == gpu_mode_of(s@),
    {
        let v = chars_of(s);
        let c = v.as_slice();
        if contains_str(c, "dGPU") || contains_str(c, "NVIDIA") || contains_str(c, "Harici")
            || contains_str(c, "Dedicated") {
            GpuMode::NvidiaDgpu
        } else if contains_str(c, "iGPU") || contains_str(c, "Dahili") || contains_str(
            c,
            "Integrated",
        ) {
            GpuMode::Integrated
        } else {
            GpuMode::Auto
        }
    }

    /// The label of the GPU mode.
    pub fn to_display_str(&self) -> (r: &'static str)
        ensures
            r@ == gpu_mode_label(*self),
    {
        match self {
            GpuMode::NvidiaDgpu => "Harici GPU (NVIDIA)",
            GpuMode::Integrated => "Dahili GPU (iGPU)",
            GpuMode::Auto => "Sistem Varsayılanı",
        }
    }
}

// ---------------------------------------------------------------------------
// History sort order
// ---------------------------------------------------------------------------

/// The orders in which the run history can be listed.
#[derive(Debug, Clone, Copy, PartialEq, Eq, Structural, Default)]
pub enum HistorySortOrder {
    #[default]
    DateDesc,
    DateAsc,
    ScoreDesc,
    ScoreAsc,
    CpuTempPeak,
    GpuTempPeak,
    PowerAvg,
}

/// The sort order that a label names; the first rule that matches wins.
pub open spec fn sort_order_of(s: Seq<char>) -> HistorySortOrder {
    let score = contains(s, "Skor"@) || contains(s, "Score"@);
    if contains(s, "En Eski"@) || contains(s, "Oldest"@) {
        HistorySortOrder::DateAsc
    } else if score && (contains(s, "Yüksek"@) || contains(s, "High"@) || contains(s, "Azalan"@)) {
        HistorySortOrder::ScoreDesc
    } else if score && (contains(s, "Düşük"@) || contains(s, "Low"@) || contains(s, "Artan"@)) {
        HistorySortOrder::ScoreAsc
    } else if contains(s, "CPU"@) {
        HistorySortOrder::CpuTempPeak
    } else if contains(s, "GPU"@) {
        HistorySortOrder::GpuTempPeak
    } else if contains(s, "Güç"@) || contains(s, "Power"@) {
        HistorySortOrder::PowerAvg
    } else {
        HistorySortOrder::DateDesc
    }
}

/// The SQL `ORDER BY` clause of each sort order (runs without a score last).
pub open spec fn sort_order_clause(o: HistorySortOrder) -> Seq<char> {
    match o {
        HistorySortOrder::DateDesc => "timestamp DESC"@,
        HistorySortOrder::DateAsc => "timestamp ASC"@,
        HistorySortOrder::ScoreDesc => "CASE WHEN score IS NULL THEN 1 ELSE 0 END, score DESC"@,
        HistorySortOrder::ScoreAsc => "CASE WHEN score IS NULL THEN 1 ELSE 0 END, score ASC"@,
        HistorySortOrder::CpuTempPeak => "peak_cpu_temp DESC"@,
        HistorySortOrder::GpuTempPeak => "peak_gpu_temp DESC"@,
        HistorySortOrder::PowerAvg => "avg_power_w DESC"@,
    }
}

impl HistorySortOrder {
    /// The sort order that a label names.
    pub fn from_display_str(s: &str) -> (r: Self)
        ensures
            r == sort_order_of(s@),
    {
        let v = chars_of(s);
        let c = v.as_slice();
        let score = contains_str(c, "Skor") || contains_str(c, "Score");
        if contains_str(c, "En Eski") || contains_str(c, "Oldest") {
            HistorySortOrder::DateAsc
        } else if score && (contains_str(c, "Yüksek") || contains_str(c, "High") || contains_str(
            c,
            "Azalan",
        )) {
            HistorySortOrder::ScoreDesc
        } else if score && (contains_str(c, "Düşük") || contains_str(c, "Low") || contains_str(
            c,
            "Artan",
        )) {
            HistorySortOrder::ScoreAsc
        } else if contains_str(c, "CPU") {
            HistorySortOrder::CpuTempPeak
        } else if contains_str(c, "GPU") {
            HistorySortOrder::GpuTempPeak
        } else if contains_str(c, "Güç") || contains_str(c, "Power") {
            HistorySortOrder::PowerAvg
        } else {
            HistorySortOrder::DateDesc
        }
    }

    /// The SQL `ORDER BY` clause of the sort order.
    pub fn to_sql_order_clause(&self) -> (r: &'static str)
        ensures
            r@ == sort_order_clause(*self),
    {
        match self {
            HistorySortOrder::DateDesc => "timestamp DESC",
            HistorySortOrder::DateAsc => "timestamp ASC",
            HistorySortOrder::ScoreDesc => "CASE WHEN score IS NULL THEN 1 ELSE 0 END, score DESC",
            HistorySortOrder::ScoreAsc => "CASE WHEN score IS NULL THEN 1 ELSE 0 END, score ASC",
            HistorySortOrder::CpuTempPeak => "peak_cpu_temp DESC",
            HistorySortOrder::GpuTempPeak => "peak_gpu_temp DESC",
            HistorySortOrder::PowerAvg => "avg_power_w DESC",
        }
    }
}

/// The throttling value recorded when none was reported.
pub fn default_throttle_str() -> (r: String)
    ensures
        r@ == "none"@,
{
    string_from("none")
}

/// The power profile recorded when none was reported.
pub fn default_power_profile_str() -> (r: String)
    ensures
        r@ == "Bilinmiyor"@,
{
    string_from("Bilinmiyor")
}

} // verus!
