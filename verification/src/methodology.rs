//! Methodology records: several runs of one benchmark summed up in a single
//! record. This module computes the record's texts, its clock frequencies (mean
//! and peak in MHz) and its throttling notes from the runs it covers.
use vstd::prelude::*;
use crate::text::{dec, push_dec, push_str, str_is, string_from};

verus! {

/// What a methodology record takes from one of its runs, besides the
/// floating-point measurements.
pub struct MethodologyRun {
    pub benchmark_id: String,
    pub category: String,
    pub gpu_mode: String,
    pub cpu_throttling: String,
    pub gpu_throttling: String,
    pub avg_cpu_freq_mhz: u32,
    pub peak_cpu_freq_mhz: u32,
    pub avg_gpu_freq_mhz: u32,
    pub peak_gpu_freq_mhz: u32,
    pub avg_vram_freq_mhz: u32,
    pub peak_vram_freq_mhz: u32,
}

/// The summary part of a methodology record.
pub struct MethodologySummary {
    pub benchmark_id: String,
    pub category: String,
    pub preset_or_version: String,
    pub gpu_mode: String,
    pub status: String,
    pub cpu_throttling: String,
    pub gpu_throttling: String,
    pub avg_cpu_freq_mhz: u32,
    pub peak_cpu_freq_mhz: u32,
    pub avg_gpu_freq_mhz: u32,
    pub peak_gpu_freq_mhz: u32,
    pub avg_vram_freq_mhz: u32,
    pub peak_vram_freq_mhz: u32,
}

/// Why no methodology record can be made.
#[derive(Debug, Clone, Copy, PartialEq, Eq, Structural)]
pub enum MethodologyError {
    /// Fewer than two runs were chosen.
    TooFewRuns,
    /// The runs belong to different benchmarks.
    MixedBenchmarks,
}

impl MethodologyError {
    /// The message shown to the user.
    pub fn message(&self) -> (r: &'static str)
        ensures
            r@ == match *self {
                MethodologyError::TooFewRuns => "En az 2 test seçilmelidir."@,
                MethodologyError::MixedBenchmarks => "Tüm testlerin benchmark_id değeri aynı olmalıdır."@,
            },
    {
        match self {
            MethodologyError::TooFewRuns => "En az 2 test seçilmelidir.",
            MethodologyError::MixedBenchmarks => "Tüm testlerin benchmark_id değeri aynı olmalıdır.",
        }
    }
}

/// One of the six clock-frequency fields of a run.
#[derive(Debug, Clone, Copy, PartialEq, Eq, Structural)]
pub enum FreqField {
    AvgCpu,
    PeakCpu,
    AvgGpu,
    PeakGpu,
    AvgVram,
    PeakVram,
}

/// The value of a frequency field of a run, in MHz.
pub open spec fn freq_of(r: MethodologyRun, f: FreqField) -> u32 {
    match f {
        FreqField::AvgCpu => r.avg_cpu_freq_mhz,
        FreqField::PeakCpu => r.peak_cpu_freq_mhz,
        FreqField::AvgGpu => r.avg_gpu_freq_mhz,
        FreqField::PeakGpu => r.peak_gpu_freq_mhz,
        FreqField::AvgVram => r.avg_vram_freq_mhz,
        FreqField::PeakVram => r.peak_vram_freq_mhz,
    }
}

/// One frequency field over all runs, in order.
pub open spec fn column(runs: Seq<MethodologyRun>, f: FreqField) -> Seq<u32> {
    runs.map_values(|r: MethodologyRun| freq_of(r, f))
}

/// The sum of the values.
pub open spec fn total(s: Seq<u32>) -> nat
    decreases s.len(),
{
    if s.len() == 0 {
        0
    } else {
        total(s.drop_last()) + s.last() as nat
    }
}

/// The largest of the values (0 for none).
pub open spec fn peak(s: Seq<u32>) -> u32
    decreases s.len(),
{
    if s.len() == 0 {
        0
    } else if s.last() > peak(s.drop_last()) {
        s.last()
    } else {
        peak(s.drop_last())
    }
}

/// The mean of the values, rounded down.
pub open spec fn mean(s: Seq<u32>) -> nat {
    total(s) / s.len()
}

/// The note of the last entry that is not "Yok" ("Yok" when there is none).
pub open spec fn last_noted(notes: Seq<Seq<char>>) -> Seq<char>
    decreases notes.len(),
{
    if notes.len() == 0 {
        "Yok"@
    } else if notes.last() != "Yok"@ {
        notes.last()
    } else {
        last_noted(notes.drop_last())
    }
}

/// The CPU throttling notes of the runs, in order.
pub open spec fn cpu_notes(runs: Seq<MethodologyRun>) -> Seq<Seq<char>> {
    runs.map_values(|r: MethodologyRun| r.cpu_throttling@)
}

/// The GPU throttling notes of the runs, in order.
pub open spec fn gpu_notes(runs: Seq<MethodologyRun>) -> Seq<Seq<char>> {
    runs.map_values(|r: MethodologyRun| r.gpu_throttling@)
}

/// All runs belong to the benchmark of the first.
pub open spec fn same_benchmark(runs: Seq<MethodologyRun>) -> bool {
    forall|i: int| 0 <= i < runs.len() ==> (#[trigger] runs[i]).benchmark_id@ == runs[0].benchmark_id@
}

/// The GPU mode of the record: the runs' common mode, else "Karma".
pub open spec fn common_gpu_mode(runs: Seq<MethodologyRun>) -> Seq<char> {
    if forall|i: int| 0 <= i < runs.len() ==> (#[trigger] runs[i]).gpu_mode@ == runs[0].gpu_mode@ {
        runs[0].gpu_mode@
    } else {
        "Karma"@
    }
}

/// The summary made of runs that `summarize_methodology` accepts.
pub open spec fn summary_of(runs: Seq<MethodologyRun>, s: MethodologySummary) -> bool {
    &&& s.benchmark_id@ == runs[0].benchmark_id@
    &&& s.category@ == runs[0].category@
    &&& s.preset_or_version@ == dec(runs.len()) + " Test Ortalaması"@
    &&& s.gpu_mode@ == common_gpu_mode(runs)
    &&& s.status@ == "Tamamlandı"@
    &&& s.cpu_throttling@ == last_noted(cpu_notes(runs))
    &&& s.gpu_throttling@ == last_noted(gpu_notes(runs))
    &&& s.avg_cpu_freq_mhz as nat == mean(column(runs, FreqField::AvgCpu))
    &&& s.avg_gpu_freq_mhz as nat == mean(column(runs, FreqField::AvgGpu))
    &&& s.avg_vram_freq_mhz as nat == mean(column(runs, FreqField::AvgVram))
    &&& s.peak_cpu_freq_mhz == peak(column(runs, FreqField::PeakCpu))
    &&& s.peak_gpu_freq_mhz == peak(column(runs, FreqField::PeakGpu))
    &&& s.peak_vram_freq_mhz == peak(column(runs, FreqField::PeakVram))
}

proof fn lemma_total_bound(s: Seq<u32>)
    ensures
        total(s) <= s.len() * (u32::MAX as nat),
    decreases s.len(),
{
    if s.len() > 0 {
        lemma_total_bound(s.drop_last());
    }
}

proof fn lemma_mean_fits(s: Seq<u32>)
    requires
        s.len() > 0,
    ensures
        mean(s) <= u32::MAX,
{
    lemma_total_bound(s);
    let n = s.len();
    let t = total(s);
    assert(t / n <= u32::MAX) by (nonlinear_arith)
        requires
            t <= n * (u32::MAX as nat),
            n > 0,
    ;
}

fn column_of(runs: &[MethodologyRun], f: FreqField) -> (r: Vec<u32>)
    ensures
        r@ == column(runs@, f),
{
    let mut r: Vec<u32> = Vec::new();
    let mut i: usize = 0;
    while i < runs.len()
        invariant
            i <= runs@.len(),
            r@ == column(runs@.take(i as int), f),
        decreases runs@.len() - i,
    {
        let run = &runs[i];
        let v = match f {
            FreqField::AvgCpu => run.avg_cpu_freq_mhz,
            FreqField::PeakCpu => run.peak_cpu_freq_mhz,
            FreqField::AvgGpu => run.avg_gpu_freq_mhz,
            FreqField::PeakGpu => run.peak_gpu_freq_mhz,
            FreqField::AvgVram => run.avg_vram_freq_mhz,
            FreqField::PeakVram => run.peak_vram_freq_mhz,
        };
        r.push(v);
        assert(column(runs@.take(i + 1), f) =~= column(runs@.take(i as int), f).push(v));
        i += 1;
    }
    assert(runs@.take(i as int) =~= runs@);
    r
}

fn mean_of(v: &Vec<u32>) -> (r: u32)
    requires
        v@.len() > 0,
    ensures
        r as nat == mean(v@),
{
    let mut sum: u128 = 0;
    let mut i: usize = 0;
    while i < v.len()
        invariant
            i <= v@.len(),
            sum as nat == total(v@.take(i as int)),
            sum <= i * (u32::MAX as nat),
        decreases v@.len() - i,
    {
        assert(v@.take(i + 1).drop_last() =~= v@.take(i as int));
        sum = sum + v[i] as u128;
        i += 1;
    }
    assert(v@.take(i as int) =~= v@);
    proof {
        lemma_mean_fits(v@);
    }
    (sum / (v.len() as u128)) as u32
}

fn peak_of(v: &Vec<u32>) -> (r: u32)
    ensures
        r == peak(v@),
{
    let mut best: u32 = 0;
    let mut i: usize = 0;
    while i < v.len()
        invariant
            i <= v@.len(),
            best == peak(v@.take(i as int)),
        decreases v@.len() - i,
    {
        assert(v@.take(i + 1).drop_last() =~= v@.take(i as int));
        if v[i] > best {
            best = v[i];
        }
        i += 1;
    }
    assert(v@.take(i as int) =~= v@);
    best
}

fn last_noted_of(runs: &[MethodologyRun], gpu: bool) -> (r: String)
    ensures
        r@ == last_noted(if gpu {
            gpu_notes(runs@)
        } else {
            cpu_notes(runs@)
        }),
{
    let ghost notes = if gpu {
        gpu_notes(runs@)
    } else {
        cpu_notes(runs@)
    };
    let mut note = string_from("Yok");
    let mut i: usize = 0;
    while i < runs.len()
        invariant
            i <= runs@.len(),
            notes == (if gpu {
                gpu_notes(runs@)
            } else {
                cpu_notes(runs@)
            }),
            note@ == last_noted(notes.take(i as int)),
        decreases runs@.len() - i,
    {
        assert(notes.take(i + 1).drop_last() =~= notes.take(i as int));
        let t = if gpu {
            &runs[i].gpu_throttling
        } else {
            &runs[i].cpu_throttling
        };
        assert(notes.take(i + 1).last() == t@);
        if !str_is(t.as_str(), "Yok") {
            note = t.clone();
        }
        i += 1;
    }
    assert(notes.take(i as int) =~= notes);
    note
}

fn common_gpu_mode_of(runs: &[MethodologyRun]) -> (r: String)
    requires
        runs@.len() > 0,
    ensures
        r@ == common_gpu_mode(runs@),
{
    let first = runs[0].gpu_mode.as_str();
    let mut i: usize = 0;
    while i < runs.len()
        invariant
            runs@.len() > 0,
            first@ == runs@[0].gpu_mode@,
            i <= runs@.len(),
            forall|j: int| 0 <= j < i ==> (#[trigger] runs@[j]).gpu_mode@ == runs@[0].gpu_mode@,
        decreases runs@.len() - i,
    {
        if !str_is(runs[i].gpu_mode.as_str(), first) {
            return string_from("Karma");
        }
        i += 1;
    }
    string_from(first)
}

/// The summary of a methodology record made of `runs`: it needs two runs or more,
/// all of one benchmark. Its texts come from the first run, its GPU mode is the
/// runs' common mode ("Karma" when they differ), its mean frequencies are the
/// rounded-down means of the runs' means, its peak frequencies the largest of
/// their peaks, and its throttling notes those of the last run that noted any.
pub fn summarize_methodology(runs: &[MethodologyRun]) -> (r: Result<
    MethodologySummary,
    MethodologyError,
>)
    ensures
        runs@.len() < 2 ==> r == Err::<MethodologySummary, MethodologyError>(
            MethodologyError::TooFewRuns,
        ),
        runs@.len() >= 2 && !same_benchmark(runs@) ==> r == Err::<
            MethodologySummary,
            MethodologyError,
        >(MethodologyError::MixedBenchmarks),
        runs@.len() >= 2 && same_benchmark(runs@) ==> (r matches Ok(s) && summary_of(runs@, s)),
{
    if runs.len() < 2 {
        return Err(MethodologyError::TooFewRuns);
    }
    let first = runs[0].benchmark_id.as_str();
    let mut i: usize = 0;
    while i < runs.len()
        invariant
            runs@.len() >= 2,
            first@ == runs@[0].benchmark_id@,
            i <= runs@.len(),
            forall|j: int| 0 <= j < i ==> (#[trigger] runs@[j]).benchmark_id@ == runs@[0].benchmark_id@,
        decreases runs@.len() - i,
    {
        if !str_is(runs[i].benchmark_id.as_str(), first) {
            return Err(MethodologyError::MixedBenchmarks);
        }
        i += 1;
    }
    let mut label = String::new();
    push_dec(&mut label, runs.len() as u64);
    push_str(&mut label, " Test Ortalaması");
    let avg_cpu = column_of(runs, FreqField::AvgCpu);
    let avg_gpu = column_of(runs, FreqField::AvgGpu);
    let avg_vram = column_of(runs, FreqField::AvgVram);
    let peak_cpu = column_of(runs, FreqField::PeakCpu);
    let peak_gpu = column_of(runs, FreqField::PeakGpu);
    let peak_vram = column_of(runs, FreqField::PeakVram);
    Ok(
        MethodologySummary {
            benchmark_id: runs[0].benchmark_id.clone(),
            category: runs[0].category.clone(),
            preset_or_version: label,
            gpu_mode: common_gpu_mode_of(runs),
            status: string_from("Tamamlandı"),
            cpu_throttling: last_noted_of(runs, false),
            gpu_throttling: last_noted_of(runs, true),
            avg_cpu_freq_mhz: mean_of(&avg_cpu),
            peak_cpu_freq_mhz: peak_of(&peak_cpu),
            avg_gpu_freq_mhz: mean_of(&avg_gpu),
            peak_gpu_freq_mhz: peak_of(&peak_gpu),
            avg_vram_freq_mhz: mean_of(&avg_vram),
            peak_vram_freq_mhz: peak_of(&peak_vram),
        },
    )
}

// ---------------------------------------------------------------------------
// Laws
// ---------------------------------------------------------------------------

/// The peak of a series is one of its values and no value exceeds it.
pub proof fn lemma_peak_is_largest(s: Seq<u32>)
    ensures
        forall|i: int| 0 <= i < s.len() ==> s[i] <= peak(s),
        s.len() > 0 ==> exists|i: int| 0 <= i < s.len() && s[i] == peak(s),
    decreases s.len(),
{
    if s.len() > 0 {
        let rest = s.drop_last();
        lemma_peak_is_largest(rest);
        assert forall|i: int| 0 <= i < s.len() implies s[i] <= peak(s) by {
            if i < s.len() - 1 {
                assert(s[i] == rest[i]);
            }
        }
        if s.last() > peak(rest) || rest.len() == 0 {
            assert(s[s.len() - 1] == peak(s));
        } else {
            let k = choose|k: int| 0 <= k < rest.len() && rest[k] == peak(rest);
            assert(s[k] == peak(s));
        }
    }
}

/// The rounded-down mean of a non-empty series never exceeds its peak.
pub proof fn lemma_mean_at_most_peak(s: Seq<u32>)
    requires
        s.len() > 0,
    ensures
        mean(s) <= peak(s),
{
    lemma_total_at_most_peaks(s);
    let n = s.len();
    let t = total(s);
    let p = peak(s) as nat;
    assert(t / n <= p) by (nonlinear_arith)
        requires
            t <= n * p,
            n > 0,
    ;
}

proof fn lemma_total_at_most_peaks(s: Seq<u32>)
    ensures
        total(s) <= s.len() * (peak(s) as nat),
    decreases s.len(),
{
    if s.len() > 0 {
        let rest = s.drop_last();
        lemma_total_at_most_peaks(rest);
        let n = rest.len();
        let a = peak(rest) as nat;
        let b = peak(s) as nat;
        assert(a <= b);
        assert(n * a <= n * b) by (nonlinear_arith)
            requires
                a <= b,
        ;
        assert(s.last() <= b);
        assert((n + 1) * b == n * b + b) by (nonlinear_arith);
    }
}

/// A methodology record notes throttling exactly when one of its runs did: its
/// note is "Yok" if and only if every run's note is.
pub proof fn lemma_throttling_noted_iff_any(notes: Seq<Seq<char>>)
    ensures
        last_noted(notes) == "Yok"@ <==> forall|i: int| 0 <= i < notes.len() ==> notes[i] == "Yok"@,
        last_noted(notes) != "Yok"@ ==> exists|i: int| 0 <= i < notes.len() && notes[i] == last_noted(notes),
    decreases notes.len(),
{
    if notes.len() > 0 {
        let rest = notes.drop_last();
        lemma_throttling_noted_iff_any(rest);
        if notes.last() != "Yok"@ {
            assert(notes[notes.len() - 1] == last_noted(notes));
        } else {
            assert forall|i: int| 0 <= i < rest.len() implies notes[i] == rest[i] by {}
            if last_noted(notes) != "Yok"@ {
                let k = choose|k: int| 0 <= k < rest.len() && rest[k] == last_noted(rest);
                assert(notes[k] == last_noted(notes));
            }
        }
    }
}

} // verus!
