//! Sensor discovery rules and the sensor diagnosis line. Reading the sysfs
//! directories is left to the caller; these functions decide, from the names and
//! contents it read, which files serve as which sensor.
use vstd::prelude::*;
use crate::engine::{join_path, path_join};
use crate::text::{
    chars_of, contains, contains_char, contains_str, dec, dec_string, ends_with, ends_with_str,
    eq_str, index_of, join, join_strings, lowercase, push_str, replace_seq, starts_with,
    starts_with_str, string_of, to_lowercase, trim, trim_chars,
};

verus! {

/// The sensor files found on this machine, by role.
pub struct SensorCache {
    pub cpu_power_paths: Vec<String>,
    pub gpu_power_paths: Vec<String>,
    pub apu_power_paths: Vec<String>,
    pub battery_power_paths: Vec<String>,
    pub ac_online_path: Option<String>,
    pub cpu_temp_paths: Vec<String>,
    pub gpu_temp_paths: Vec<String>,
    pub gpu_usage_paths: Vec<String>,
    pub gpu_freq_paths: Vec<String>,
    pub vram_freq_paths: Vec<String>,
    pub vram_used_paths: Vec<String>,
    pub processor_cooling_cur_states: Vec<String>,
}

/// A sensor cache with its paths as character sequences.
pub struct SensorCacheView {
    pub cpu_power: Seq<Seq<char>>,
    pub gpu_power: Seq<Seq<char>>,
    pub apu_power: Seq<Seq<char>>,
    pub battery_power: Seq<Seq<char>>,
    pub ac_online: Option<Seq<char>>,
    pub cpu_temp: Seq<Seq<char>>,
    pub gpu_temp: Seq<Seq<char>>,
    pub gpu_usage: Seq<Seq<char>>,
    pub gpu_freq: Seq<Seq<char>>,
    pub vram_freq: Seq<Seq<char>>,
    pub vram_used: Seq<Seq<char>>,
    pub cooling: Seq<Seq<char>>,
}

impl View for SensorCache {
    type V = SensorCacheView;

    open spec fn view(&self) -> SensorCacheView {
        SensorCacheView {
            cpu_power: self.cpu_power_paths.deep_view(),
            gpu_power: self.gpu_power_paths.deep_view(),
            apu_power: self.apu_power_paths.deep_view(),
            battery_power: self.battery_power_paths.deep_view(),
            ac_online: crate::text::opt_view(self.ac_online_path),
            cpu_temp: self.cpu_temp_paths.deep_view(),
            gpu_temp: self.gpu_temp_paths.deep_view(),
            gpu_usage: self.gpu_usage_paths.deep_view(),
            gpu_freq: self.gpu_freq_paths.deep_view(),
            vram_freq: self.vram_freq_paths.deep_view(),
            vram_used: self.vram_used_paths.deep_view(),
            cooling: self.processor_cooling_cur_states.deep_view(),
        }
    }
}

impl SensorCache {
    /// A cache with no sensor yet.
    pub fn new() -> (r: Self)
        ensures
            r@ == (SensorCacheView {
                cpu_power: Seq::empty(),
                gpu_power: Seq::empty(),
                apu_power: Seq::empty(),
                battery_power: Seq::empty(),
                ac_online: None,
                cpu_temp: Seq::empty(),
                gpu_temp: Seq::empty(),
                gpu_usage: Seq::empty(),
                gpu_freq: Seq::empty(),
                vram_freq: Seq::empty(),
                vram_used: Seq::empty(),
                cooling: Seq::empty(),
            }),
    {
        let r = SensorCache {
            cpu_power_paths: Vec::new(),
            gpu_power_paths: Vec::new(),
            apu_power_paths: Vec::new(),
            battery_power_paths: Vec::new(),
            ac_online_path: None,
            cpu_temp_paths: Vec::new(),
            gpu_temp_paths: Vec::new(),
            gpu_usage_paths: Vec::new(),
            gpu_freq_paths: Vec::new(),
            vram_freq_paths: Vec::new(),
            vram_used_paths: Vec::new(),
            processor_cooling_cur_states: Vec::new(),
        };
        assert(r@.cpu_power =~= Seq::empty());
        assert(r@.gpu_power =~= Seq::empty());
        assert(r@.apu_power =~= Seq::empty());
        assert(r@.battery_power =~= Seq::empty());
        assert(r@.cpu_temp =~= Seq::empty());
        assert(r@.gpu_temp =~= Seq::empty());
        assert(r@.gpu_usage =~= Seq::empty());
        assert(r@.gpu_freq =~= Seq::empty());
        assert(r@.vram_freq =~= Seq::empty());
        assert(r@.vram_used =~= Seq::empty());
        assert(r@.cooling =~= Seq::empty());
        r
    }
}

// ---------------------------------------------------------------------------
// hwmon devices
// ---------------------------------------------------------------------------

/// A hwmon device name as compared: trimmed and lower-cased.
pub open spec fn hwmon_name(content: Seq<char>) -> Seq<char> {
    lowercase(trim(content))
}

/// Whether a hwmon device name is that of a CPU sensor chip.
pub open spec fn hwmon_is_cpu(name: Seq<char>) -> bool {
    contains(name, "k10temp"@) || contains(name, "coretemp"@) || contains(name, "zenpower"@)
        || contains(name, "cpu"@) || contains(name, "soc_thermal"@)
}

/// Whether a hwmon device name is that of an AMD integrated GPU (APU).
pub open spec fn hwmon_is_apu(name: Seq<char>) -> bool {
    contains(name, "amdgpu"@)
}

/// Whether a hwmon device name is that of a discrete or Intel GPU.
pub open spec fn hwmon_is_dgpu(name: Seq<char>) -> bool {
    contains(name, "nouveau"@) || contains(name, "nvidia"@) || contains(name, "i915"@) || contains(
        name,
        "xe"@,
    )
}

/// Whether a file of a hwmon directory is a temperature input.
pub open spec fn is_temp_input(f: Seq<char>) -> bool {
    starts_with(f, "temp"@) && ends_with(f, "_input"@)
}

/// The paths (in `dir`) of the files that `keep` accepts, in order.
pub open spec fn paths_where(dir: Seq<char>, files: Seq<Seq<char>>, keep: spec_fn(Seq<char>) -> bool)
    -> Seq<Seq<char>>
    decreases files.len(),
{
    if files.len() == 0 {
        Seq::empty()
    } else {
        paths_where(dir, files.drop_last(), keep) + if keep(files.last()) {
            seq![path_join(dir, files.last())]
        } else {
            Seq::<Seq<char>>::empty()
        }
    }
}

/// Indices of the power files a hwmon directory offers: the last `power*_average`,
/// and the last `power*_input` seen before any `power*_average`.
pub open spec fn power_pick(files: Seq<Seq<char>>) -> (Option<nat>, Option<nat>)
    decreases files.len(),
{
    if files.len() == 0 {
        (None, None)
    } else {
        let (a, i) = power_pick(files.drop_last());
        let k = (files.len() - 1) as nat;
        let f = files.last();
        if starts_with(f, "power"@) && ends_with(f, "_average"@) {
            (Some(k), i)
        } else if starts_with(f, "power"@) && ends_with(f, "_input"@) && a is None {
            (a, Some(k))
        } else {
            (a, i)
        }
    }
}

/// The single power file used for a hwmon device: the average if there is one,
/// else the input.
pub open spec fn chosen_power(dir: Seq<char>, files: Seq<Seq<char>>) -> Option<Seq<char>> {
    match power_pick(files) {
        (Some(k), _) => Some(path_join(dir, files[k as int])),
        (None, Some(k)) => Some(path_join(dir, files[k as int])),
        (None, None) => None,
    }
}

/// The temperature and clock files of a hwmon directory added to the cache.
pub open spec fn hwmon_files_update(
    c: SensorCacheView,
    dir: Seq<char>,
    cpu: bool,
    gpu: bool,
    files: Seq<Seq<char>>,
) -> SensorCacheView {
    let temps = paths_where(dir, files, |f: Seq<char>| is_temp_input(f));
    let none = Seq::<Seq<char>>::empty();
    SensorCacheView {
        cpu_temp: c.cpu_temp + if cpu {
            temps
        } else {
            none
        },
        gpu_temp: c.gpu_temp + if !cpu && gpu {
            temps
        } else {
            none
        },
        gpu_freq: c.gpu_freq + if gpu {
            paths_where(dir, files, |f: Seq<char>| f == "freq1_input"@)
        } else {
            none
        },
        vram_freq: c.vram_freq + if gpu {
            paths_where(dir, files, |f: Seq<char>| f == "freq2_input"@)
        } else {
            none
        },
        ..c
    }
}

/// The chosen power file of a hwmon device added to the list of its kind.
pub open spec fn hwmon_power_update(
    c: SensorCacheView,
    power: Option<Seq<char>>,
    cpu: bool,
    apu: bool,
    dgpu: bool,
) -> SensorCacheView {
    match power {
        Some(p) => if cpu {
            SensorCacheView { cpu_power: c.cpu_power.push(p), ..c }
        } else if apu {
            SensorCacheView { apu_power: c.apu_power.push(p), ..c }
        } else if dgpu {
            SensorCacheView { gpu_power: c.gpu_power.push(p), ..c }
        } else {
            c
        },
        None => c,
    }
}

/// The cache after looking at one hwmon directory `dir`, whose `name` file holds
/// `name_content` and which lists `files`.
pub open spec fn hwmon_update(
    c: SensorCacheView,
    dir: Seq<char>,
    name_content: Seq<char>,
    files: Seq<Seq<char>>,
) -> SensorCacheView {
    let name = hwmon_name(name_content);
    let cpu = hwmon_is_cpu(name);
    let apu = hwmon_is_apu(name);
    let dgpu = hwmon_is_dgpu(name);
    hwmon_power_update(
        hwmon_files_update(c, dir, cpu, apu || dgpu, files),
        chosen_power(dir, files),
        cpu,
        apu,
        dgpu,
    )
}

fn push_path(v: &mut Vec<String>, dir: &str, file: &str)
    ensures
        final(v).deep_view() == old(v).deep_view().push(path_join(dir@, file@)),
{
    let p = join_path(dir, file);
    crate::text::push_string(v, p);
}

impl SensorCache {
    /// Records the sensors of one hwmon directory: its temperature inputs, its GPU
    /// clocks, and one power file (the average if there is one, else the input),
    /// each filed by the kind of device that the name names.
    pub fn add_hwmon_device(&mut self, dir: &str, name_content: &str, files: &Vec<String>)
        ensures
            final(self)@ == hwmon_update(old(self)@, dir@, name_content@, files.deep_view()),
    {
        let nv = chars_of(name_content);
        let tv = trim_chars(nv.as_slice());
        let ts = string_of(tv.as_slice());
        let lower = to_lowercase(ts.as_str());
        let lv = chars_of(lower.as_str());
        let l = lv.as_slice();
        let cpu = contains_str(l, "k10temp") || contains_str(l, "coretemp") || contains_str(
            l,
            "zenpower",
        ) || contains_str(l, "cpu") || contains_str(l, "soc_thermal");
        let apu = contains_str(l, "amdgpu");
        let dgpu = contains_str(l, "nouveau") || contains_str(l, "nvidia") || contains_str(l, "i915")
            || contains_str(l, "xe");
        let gpu = apu || dgpu;
        let ghost fv = files.deep_view();
        let ghost c0 = self@;
        let mut avg: Option<usize> = None;
        let mut inp: Option<usize> = None;
        let mut i: usize = 0;
        assert(fv.take(0) =~= Seq::<Seq<char>>::empty());
        assert(c0 =~= hwmon_files_update(c0, dir@, cpu, gpu, fv.take(0)));
        while i < files.len()
            invariant
                fv == files.deep_view(),
                i <= fv.len(),
                self@ == hwmon_files_update(c0, dir@, cpu, gpu, fv.take(i as int)),
                power_pick(fv.take(i as int)) == (
                    match avg {
                        Some(k) => Some(k as nat),
                        None => None,
                    },
                    match inp {
                        Some(k) => Some(k as nat),
                        None => None,
                    },
                ),
                avg matches Some(k) ==> k < i,
                inp matches Some(k) ==> k < i,
            decreases fv.len() - i,
        {
            let ghost before = self@;
            let ghost t = fv.take(i as int);
            let ghost t1 = fv.take(i + 1);
            assert(t1.drop_last() =~= t);
            assert(t1.last() == fv[i as int]);
            assert(fv[i as int] == files@[i as int]@);
            let fname = files[i].as_str();
            let fc = chars_of(fname);
            let f = fc.as_slice();
            let is_power = starts_with_str(f, "power");
            if is_power {
                if ends_with_str(f, "_average") {
                    avg = Some(i);
                } else if ends_with_str(f, "_input") && avg.is_none() {
                    inp = Some(i);
                }
            }
            if starts_with_str(f, "temp") && ends_with_str(f, "_input") {
                if cpu {
                    push_path(&mut self.cpu_temp_paths, dir, fname);
                } else if gpu {
                    push_path(&mut self.gpu_temp_paths, dir, fname);
                }
            }
            if gpu {
                if eq_str(f, "freq1_input") {
                    push_path(&mut self.gpu_freq_paths, dir, fname);
                } else if eq_str(f, "freq2_input") {
                    push_path(&mut self.vram_freq_paths, dir, fname);
                }
            }
            proof {
                reveal_strlit("freq1_input");
                reveal_strlit("freq2_input");
                assert("freq1_input"@[4] != "freq2_input"@[4]);
                let temps = |g: Seq<char>| is_temp_input(g);
                let f1 = |g: Seq<char>| g == "freq1_input"@;
                let f2 = |g: Seq<char>| g == "freq2_input"@;
                let new = hwmon_files_update(c0, dir@, cpu, gpu, t1);
                assert(paths_where(dir@, t1, temps) == paths_where(dir@, t, temps) + if temps(fv[i as int]) {
                    seq![path_join(dir@, fv[i as int])]
                } else {
                    Seq::<Seq<char>>::empty()
                });
                assert(paths_where(dir@, t1, f1) == paths_where(dir@, t, f1) + if f1(fv[i as int]) {
                    seq![path_join(dir@, fv[i as int])]
                } else {
                    Seq::<Seq<char>>::empty()
                });
                assert(paths_where(dir@, t1, f2) == paths_where(dir@, t, f2) + if f2(fv[i as int]) {
                    seq![path_join(dir@, fv[i as int])]
                } else {
                    Seq::<Seq<char>>::empty()
                });
                assert(self@.cpu_temp =~= new.cpu_temp);
                assert(self@.gpu_temp =~= new.gpu_temp);
                assert(self@.gpu_freq =~= new.gpu_freq);
                assert(self@.vram_freq =~= new.vram_freq);
                assert(self@ =~= new);
            }
            i += 1;
        }
        assert(fv.take(fv.len() as int) =~= fv);
        let chosen = match avg {
            Some(k) => Some(k),
            None => inp,
        };
        match chosen {
            Some(k) => {
                assert(files@[k as int]@ == fv[k as int]);
                let fname = files[k].as_str();
                if cpu {
                    push_path(&mut self.cpu_power_paths, dir, fname);
                } else if apu {
                    push_path(&mut self.apu_power_paths, dir, fname);
                } else if dgpu {
                    push_path(&mut self.gpu_power_paths, dir, fname);
                }
            },
            None => {},
        }
    }

    /// When no CPU power file was found, the APU package power (CPU and SoC) of an
    /// AMD APU is used for the CPU.
    pub fn use_apu_power_for_cpu(&mut self)
        ensures
            final(self)@ == if old(self)@.cpu_power.len() == 0 && old(self)@.apu_power.len() > 0 {
                SensorCacheView { cpu_power: old(self)@.apu_power, ..old(self)@ }
            } else {
                old(self)@
            },
    {
        if self.cpu_power_paths.len() == 0 && self.apu_power_paths.len() > 0 {
            self.cpu_power_paths = crate::text::clone_strings(&self.apu_power_paths);
        }
    }
}

// ---------------------------------------------------------------------------
// Power supplies, thermal zones and DRM cards
// ---------------------------------------------------------------------------

/// Whether a power-supply entry is a battery.
pub open spec fn is_battery_supply(name: Seq<char>) -> bool {
    starts_with(name, "BAT"@) || contains(name, "battery"@)
}

/// Whether a power-supply entry is a mains adapter.
pub open spec fn is_mains_supply(name: Seq<char>) -> bool {
    starts_with(name, "AC"@) || contains(name, "mains"@)
}

/// The cache after looking at the power-supply entry `dir` named `name`, given
/// whether its `power_now` and `online` files exist.
pub open spec fn power_supply_update(
    c: SensorCacheView,
    dir: Seq<char>,
    name: Seq<char>,
    power_now_exists: bool,
    online_exists: bool,
) -> SensorCacheView {
    if is_battery_supply(name) {
        if power_now_exists {
            SensorCacheView { battery_power: c.battery_power.push(path_join(dir, "power_now"@)), ..c }
        } else {
            c
        }
    } else if is_mains_supply(name) {
        if online_exists {
            SensorCacheView { ac_online: Some(path_join(dir, "online"@)), ..c }
        } else {
            c
        }
    } else {
        c
    }
}

/// Whether a thermal-zone type names a CPU zone.
pub open spec fn is_cpu_zone_type(type_content: Seq<char>) -> bool {
    let t = lowercase(type_content);
    contains(t, "cpu"@) || contains(t, "acpi"@) || contains(t, "pkg"@)
}

/// The cache after looking at the thermal entry `dir` named `name`, whose `type`
/// file holds `type_content`, given whether its `cur_state` file present. A CPU
/// thermal zone is used only while no CPU temperature sensor is known.
pub open spec fn thermal_update(
    c: SensorCacheView,
    dir: Seq<char>,
    name: Seq<char>,
    type_content: Seq<char>,
    cur_state_exists: bool,
) -> SensorCacheView {
    if starts_with(name, "thermal_zone"@) && c.cpu_temp.len() == 0 {
        if is_cpu_zone_type(type_content) {
            SensorCacheView { cpu_temp: c.cpu_temp.push(path_join(dir, "temp"@)), ..c }
        } else {
            c
        }
    } else if starts_with(name, "cooling_device"@) {
        if lowercase(trim(type_content)) == "processor"@ && cur_state_exists {
            SensorCacheView { cooling: c.cooling.push(path_join(dir, "cur_state"@)), ..c }
        } else {
            c
        }
    } else {
        c
    }
}

/// The files probed under a DRM card directory, in the order their existence
/// is reported to `add_drm_card`.
pub open spec fn drm_probe_files() -> Seq<Seq<char>> {
    seq![
        "device/gpu_busy_percent"@,
        "device/pp_dpm_sclk"@,
        "device/current_gfxclk"@,
        "gt_act_freq_mhz"@,
        "gt_cur_freq_mhz"@,
        "device/pp_dpm_mclk"@,
        "device/mem_info_vram_used"@,
    ]
}

/// Whether a DRM entry is a card itself rather than one of its connectors.
pub open spec fn is_drm_card(name: Seq<char>) -> bool {
    starts_with(name, "card"@) && !name.contains('-')
}

/// The path of probe file `k` of `dir`, if it present.
pub open spec fn probed(dir: Seq<char>, present: Seq<bool>, k: int) -> Seq<Seq<char>> {
    if present[k] {
        seq![path_join(dir, drm_probe_files()[k])]
    } else {
        Seq::empty()
    }
}

/// The cache after looking at the DRM entry `dir` named `name`, given which of
/// the probe files exist: GPU busy percentage, GPU clocks, VRAM clock and VRAM use.
pub open spec fn drm_update(c: SensorCacheView, dir: Seq<char>, name: Seq<char>, present: Seq<bool>)
    -> SensorCacheView {
    if is_drm_card(name) {
        SensorCacheView {
            gpu_usage: c.gpu_usage + probed(dir, present, 0),
            gpu_freq: c.gpu_freq + probed(dir, present, 1) + probed(dir, present, 2) + probed(
                dir,
                present,
                3,
            ) + probed(dir, present, 4),
            vram_freq: c.vram_freq + probed(dir, present, 5),
            vram_used: c.vram_used + probed(dir, present, 6),
            ..c
        }
    } else {
        c
    }
}

/// The files to probe under a DRM card directory (see `add_drm_card`).
pub fn drm_card_probe_files() -> (r: Vec<&'static str>)
    ensures
        r@.len() == 7,
        r@.map_values(|f: &str| f@) == drm_probe_files(),
{
    let r = vec![
        "device/gpu_busy_percent",
        "device/pp_dpm_sclk",
        "device/current_gfxclk",
        "gt_act_freq_mhz",
        "gt_cur_freq_mhz",
        "device/pp_dpm_mclk",
        "device/mem_info_vram_used",
    ];
    assert(r@.map_values(|f: &str| f@) =~= drm_probe_files());
    r
}

fn push_probed(v: &mut Vec<String>, dir: &str, present: bool, file: &str)
    ensures
        final(v).deep_view() == old(v).deep_view() + if present {
            seq![path_join(dir@, file@)]
        } else {
            Seq::<Seq<char>>::empty()
        },
{
    let ghost d = v.deep_view();
    if present {
        push_path(v, dir, file);
        assert(v.deep_view() =~= d + seq![path_join(dir@, file@)]);
    } else {
        assert(d + Seq::<Seq<char>>::empty() =~= d);
    }
}

impl SensorCache {
    /// Records a battery's power file or a mains adapter's online file.
    pub fn add_power_supply(
        &mut self,
        dir: &str,
        name: &str,
        power_now_exists: bool,
        online_exists: bool,
    )
        ensures
            final(self)@ == power_supply_update(old(self)@, dir@, name@, power_now_exists, online_exists),
    {
        let nv = chars_of(name);
        let n = nv.as_slice();
        if starts_with_str(n, "BAT") || contains_str(n, "battery") {
            if power_now_exists {
                push_path(&mut self.battery_power_paths, dir, "power_now");
            }
        } else if starts_with_str(n, "AC") || contains_str(n, "mains") {
            if online_exists {
                self.ac_online_path = Some(join_path(dir, "online"));
            }
        }
    }

    /// Records a CPU thermal zone (while no CPU temperature sensor is known) or a
    /// processor cooling device.
    pub fn add_thermal_entry(
        &mut self,
        dir: &str,
        name: &str,
        type_content: &str,
        cur_state_exists: bool,
    )
        ensures
            final(self)@ == thermal_update(old(self)@, dir@, name@, type_content@, cur_state_exists),
    {
        let nv = chars_of(name);
        let n = nv.as_slice();
        if starts_with_str(n, "thermal_zone") && self.cpu_temp_paths.len() == 0 {
            let lower = to_lowercase(type_content);
            let lv = chars_of(lower.as_str());
            let l = lv.as_slice();
            if contains_str(l, "cpu") || contains_str(l, "acpi") || contains_str(l, "pkg") {
                push_path(&mut self.cpu_temp_paths, dir, "temp");
            }
        } else if starts_with_str(n, "cooling_device") {
            let tv = chars_of(type_content);
            let tt = trim_chars(tv.as_slice());
            let ts = string_of(tt.as_slice());
            let lower = to_lowercase(ts.as_str());
            let lv = chars_of(lower.as_str());
            if eq_str(lv.as_slice(), "processor") && cur_state_exists {
                push_path(&mut self.processor_cooling_cur_states, dir, "cur_state");
            }
        }
    }

    /// Records the usage, clock and VRAM files of a DRM card; `present` tells, in the
    /// order of `drm_card_probe_files`, which of them exist.
    pub fn add_drm_card(&mut self, dir: &str, name: &str, present: &Vec<bool>)
        requires
            present@.len() == 7,
        ensures
            final(self)@ == drm_update(old(self)@, dir@, name@, present@),
    {
        let nv = chars_of(name);
        let n = nv.as_slice();
        if starts_with_str(n, "card") && !contains_char(n, '-') {
            let files = drm_card_probe_files();
            let ghost c0 = self@;
            push_probed(&mut self.gpu_usage_paths, dir, present[0], files[0]);
            push_probed(&mut self.gpu_freq_paths, dir, present[1], files[1]);
            push_probed(&mut self.gpu_freq_paths, dir, present[2], files[2]);
            push_probed(&mut self.gpu_freq_paths, dir, present[3], files[3]);
            push_probed(&mut self.gpu_freq_paths, dir, present[4], files[4]);
            push_probed(&mut self.vram_freq_paths, dir, present[5], files[5]);
            push_probed(&mut self.vram_used_paths, dir, present[6], files[6]);
            proof {
                let fs = drm_probe_files();
                assert(files@[0]@ == fs[0]);
                assert(files@[1]@ == fs[1]);
                assert(files@[2]@ == fs[2]);
                assert(files@[3]@ == fs[3]);
                assert(files@[4]@ == fs[4]);
                assert(files@[5]@ == fs[5]);
                assert(files@[6]@ == fs[6]);
                assert(self@ =~= drm_update(c0, dir@, name@, present@));
            }
        }
    }
}

// ---------------------------------------------------------------------------
// Diagnosis
// ---------------------------------------------------------------------------

/// One phrase in the language chosen by `en`.
pub open spec fn phrase(en: bool, english: Seq<char>, turkish: Seq<char>) -> Seq<char> {
    if en {
        english
    } else {
        turkish
    }
}

/// The parts of the sensor diagnosis: CPU temperature sensors, GPU sensors, GPU
/// power, and the power source used.
pub open spec fn diagnosis_parts(c: SensorCacheView, has_nvml: bool, has_rapl: bool, en: bool) -> Seq<
    Seq<char>,
> {
    let cpu = if c.cpu_temp.len() > 0 {
        dec(c.cpu_temp.len()) + phrase(en, " CPU Temperature Sensor(s)"@, " CPU Sıcaklık Sensörü"@)
    } else {
        phrase(en, "No CPU Temp Sensor"@, "CPU Sıcaklık Sensörü Yok"@)
    };
    let gpu = if has_nvml {
        seq![phrase(en, "NVIDIA NVML (dGPU) Active"@, "NVIDIA NVML (Harici GPU) Sensörü Aktif"@)]
    } else if c.gpu_temp.len() > 0 {
        seq![dec(c.gpu_temp.len()) + phrase(en, " GPU Sensor(s)"@, " GPU Sensörü"@)]
    } else {
        Seq::empty()
    };
    let gpu_power = if has_nvml || c.gpu_power.len() > 0 {
        seq![phrase(en, "GPU Power Sensor Active (W)"@, "GPU Güç Sensörü Aktif (W)"@)]
    } else {
        Seq::empty()
    };
    let power = if has_rapl {
        phrase(en, "Intel RAPL Energy/Power Active"@, "Intel RAPL Enerji/Güç Ölçer Aktif"@)
    } else if c.cpu_power.len() > 0 {
        phrase(en, "CPU Power Sensor Active"@, "CPU Güç Sensörü Aktif"@)
    } else if c.battery_power.len() > 0 {
        phrase(en, "Battery / AC Power Sensor Active"@, "Pil / AC Güç Sensörü Aktif"@)
    } else {
        phrase(en, "No Power Sensor Found"@, "Güç Sensörü Bulunamadı"@)
    };
    seq![cpu] + gpu + gpu_power + seq![power]
}

fn lit_in(en: bool, english: &str, turkish: &str) -> (r: String)
    ensures
        r@ == phrase(en, english@, turkish@),
{
    if en {
        String::from_str(english)
    } else {
        String::from_str(turkish)
    }
}

fn count_phrase(n: usize, en: bool, english: &str, turkish: &str) -> (r: String)
    ensures
        r@ == dec(n as nat) + phrase(en, english@, turkish@),
{
    let mut r = dec_string(n as u64);
    if en {
        push_str(&mut r, english);
    } else {
        push_str(&mut r, turkish);
    }
    r
}

/// One line describing which sensors were found, in English when `is_en` and in
/// Turkish otherwise; `has_nvml` and `has_rapl` tell whether NVML and Intel RAPL
/// are available.
pub fn get_sensor_diagnosis(cache: &SensorCache, has_nvml: bool, has_rapl: bool, is_en: bool) -> (r:
    String)
    ensures
        r@ == join(diagnosis_parts(cache@, has_nvml, has_rapl, is_en), "  •  "@),
{
    let mut parts: Vec<String> = Vec::new();
    if cache.cpu_temp_paths.len() > 0 {
        crate::text::push_string(
            &mut parts,
            count_phrase(
                cache.cpu_temp_paths.len(),
                is_en,
                " CPU Temperature Sensor(s)",
                " CPU Sıcaklık Sensörü",
            ),
        );
    } else {
        crate::text::push_string(
            &mut parts,
            lit_in(is_en, "No CPU Temp Sensor", "CPU Sıcaklık Sensörü Yok"),
        );
    }
    let ghost p1 = parts.deep_view();
    if has_nvml {
        crate::text::push_string(
            &mut parts,
            lit_in(is_en, "NVIDIA NVML (dGPU) Active", "NVIDIA NVML (Harici GPU) Sensörü Aktif"),
        );
    } else if cache.gpu_temp_paths.len() > 0 {
        crate::text::push_string(
            &mut parts,
            count_phrase(cache.gpu_temp_paths.len(), is_en, " GPU Sensor(s)", " GPU Sensörü"),
        );
    }
    let ghost p2 = parts.deep_view();
    if has_nvml || cache.gpu_power_paths.len() > 0 {
        crate::text::push_string(
            &mut parts,
            lit_in(is_en, "GPU Power Sensor Active (W)", "GPU Güç Sensörü Aktif (W)"),
        );
    }
    let ghost p3 = parts.deep_view();
    if has_rapl {
        crate::text::push_string(
            &mut parts,
            lit_in(is_en, "Intel RAPL Energy/Power Active", "Intel RAPL Enerji/Güç Ölçer Aktif"),
        );
    } else if cache.cpu_power_paths.len() > 0 {
        crate::text::push_string(
            &mut parts,
            lit_in(is_en, "CPU Power Sensor Active", "CPU Güç Sensörü Aktif"),
        );
    } else if cache.battery_power_paths.len() > 0 {
        crate::text::push_string(
            &mut parts,
            lit_in(is_en, "Battery / AC Power Sensor Active", "Pil / AC Güç Sensörü Aktif"),
        );
    } else {
        crate::text::push_string(
            &mut parts,
            lit_in(is_en, "No Power Sensor Found", "Güç Sensörü Bulunamadı"),
        );
    }
    assert(parts.deep_view() =~= diagnosis_parts(cache@, has_nvml, has_rapl, is_en));
    join_strings(&parts, "  •  ")
}

// ---------------------------------------------------------------------------
// Power profile
// ---------------------------------------------------------------------------

/// The power-profile daemon's answer, trimmed and named; `None` when empty.
pub open spec fn profile_from_daemon(out: Seq<char>) -> Option<Seq<char>> {
    let t = trim(out);
    if t.len() == 0 {
        None
    } else if t == "performance"@ {
        Some("Performans (performance)"@)
    } else if t == "balanced"@ {
        Some("Dengeli (balanced)"@)
    } else if t == "power-saver"@ {
        Some("Güç Tasarrufu (power-saver)"@)
    } else {
        Some(t)
    }
}

/// The ACPI platform profile, trimmed and named; `None` when empty.
pub open spec fn profile_from_platform(content: Seq<char>) -> Option<Seq<char>> {
    let t = trim(content);
    if t.len() == 0 {
        None
    } else if t == "performance"@ {
        Some("Performans (performance)"@)
    } else if t == "balanced"@ || t == "balanced-performance"@ {
        Some("Dengeli (balanced)"@)
    } else if t == "low-power"@ || t == "power-saver"@ || t == "quiet"@ || t == "cool"@ {
        Some("Güç Tasarrufu (power-saver)"@)
    } else {
        Some(t)
    }
}

/// The CPU frequency governor, trimmed and named; `None` when empty.
pub open spec fn profile_from_governor(content: Seq<char>) -> Option<Seq<char>> {
    let t = trim(content);
    if t.len() == 0 {
        None
    } else if t == "performance"@ {
        Some("Performans (performance)"@)
    } else if t == "schedutil"@ || t == "ondemand"@ {
        Some("Dengeli (schedutil)"@)
    } else if t == "powersave"@ {
        Some("Güç Tasarrufu (powersave)"@)
    } else {
        Some(t)
    }
}

/// The power profile: from the daemon's answer, else the platform profile, else
/// the CPU governor (each when it was read and is not empty), else "Bilinmiyor".
pub open spec fn power_profile_text(daemon: Option<Seq<char>>, platform: Option<Seq<char>>, governor: Option<Seq<char>>) -> Seq<char> {
    match (match daemon {
        Some(d) => profile_from_daemon(d),
        None => None,
    }) {
        Some(p) => p,
        None => match (match platform {
            Some(c) => profile_from_platform(c),
            None => None,
        }) {
            Some(p) => p,
            None => match (match governor {
                Some(c) => profile_from_governor(c),
                None => None,
            }) {
                Some(p) => p,
                None => "Bilinmiyor"@,
            },
        },
    }
}

/// When the power-profile daemon answers, the recorded power profile names its
/// answer (trimmed): "performance" is recorded as "Performans (performance)",
/// "balanced" as "Dengeli (balanced)", "power-saver" as
/// "Güç Tasarrufu (power-saver)", and any other answer as it was given; the
/// platform profile and the governor are then not consulted.
pub proof fn lemma_power_profile_names_daemon_answer(
    answer: Seq<char>,
    platform: Option<Seq<char>>,
    governor: Option<Seq<char>>,
)
    requires
        trim(answer).len() > 0,
    ensures
        ({
            let r = power_profile_text(Some(answer), platform, governor);
            let t = trim(answer);
            &&& contains(r, t)
            &&& t == "performance"@ ==> r == "Performans (performance)"@
            &&& t == "balanced"@ ==> r == "Dengeli (balanced)"@
            &&& t == "power-saver"@ ==> r == "Güç Tasarrufu (power-saver)"@
            &&& t != "performance"@ && t != "balanced"@ && t != "power-saver"@ ==> r == t
        }),
{
    let r = power_profile_text(Some(answer), platform, governor);
    let t = trim(answer);
    reveal_strlit("performance");
    reveal_strlit("balanced");
    reveal_strlit("power-saver");
    reveal_strlit("Performans (performance)");
    reveal_strlit("Dengeli (balanced)");
    reveal_strlit("Güç Tasarrufu (power-saver)");
    if t == "performance"@ {
        crate::text::lemma_contains_at(r, t, 12);
    } else if t == "balanced"@ {
        crate::text::lemma_contains_at(r, t, 9);
    } else if t == "power-saver"@ {
        assert("power-saver"@[1] != "performance"@[1]);
        assert(t != "performance"@);
        crate::text::lemma_contains_at(r, t, 15);
    } else {
        crate::text::lemma_contains_at(r, t, 0);
    }
}

/// When the daemon gave no answer, the ACPI platform profile (trimmed) is
/// recorded by what it names: "performance" as performance; "balanced" and
/// "balanced-performance" as balanced; "low-power", "power-saver", "quiet" and
/// "cool" as power saving; anything else as it was read.
pub proof fn lemma_power_profile_from_platform(platform: Seq<char>, governor: Option<Seq<char>>)
    requires
        trim(platform).len() > 0,
    ensures
        ({
            let r = power_profile_text(None, Some(platform), governor);
            let t = trim(platform);
            &&& t == "performance"@ ==> r == "Performans (performance)"@
            &&& (t == "balanced"@ || t == "balanced-performance"@) ==> r == "Dengeli (balanced)"@
            &&& (t == "low-power"@ || t == "power-saver"@ || t == "quiet"@ || t == "cool"@) ==> r
                == "Güç Tasarrufu (power-saver)"@
            &&& t != "performance"@ && t != "balanced"@ && t != "balanced-performance"@ && t != "low-power"@
                && t != "power-saver"@ && t != "quiet"@ && t != "cool"@ ==> r == t
        }),
{
    let t = trim(platform);
    reveal_strlit("performance");
    reveal_strlit("balanced");
    reveal_strlit("balanced-performance");
    reveal_strlit("low-power");
    reveal_strlit("power-saver");
    reveal_strlit("quiet");
    reveal_strlit("cool");
    if t == "power-saver"@ {
        assert("power-saver"@[1] != "performance"@[1]);
    }
}

/// When neither the daemon nor the platform profile gave an answer, the CPU
/// governor (trimmed) is recorded by what it names: "performance" as
/// performance, "schedutil" and "ondemand" as balanced (schedutil), "powersave"
/// as power saving; anything else as it was read; with no governor either, the
/// profile is unknown ("Bilinmiyor").
pub proof fn lemma_power_profile_from_governor(governor: Option<Seq<char>>)
    ensures
        ({
            let r = power_profile_text(None, None, governor);
            match governor {
                None => r == "Bilinmiyor"@,
                Some(g) => trim(g).len() > 0 ==> {
                    let t = trim(g);
                    &&& t == "performance"@ ==> r == "Performans (performance)"@
                    &&& (t == "schedutil"@ || t == "ondemand"@) ==> r == "Dengeli (schedutil)"@
                    &&& t == "powersave"@ ==> r == "Güç Tasarrufu (powersave)"@
                    &&& t != "performance"@ && t != "schedutil"@ && t != "ondemand"@ && t != "powersave"@
                        ==> r == t
                },
            }
        }),
{
    reveal_strlit("performance");
    reveal_strlit("schedutil");
    reveal_strlit("ondemand");
    reveal_strlit("powersave");
    assert("schedutil"@[0] != "powersave"@[0]);
    assert("schedutil"@ != "powersave"@);
}

fn trimmed(s: &str) -> (r: Vec<char>)
    ensures
        r@ == trim(s@),
{
    let v = chars_of(s);
    trim_chars(v.as_slice())
}

fn daemon_profile(out: &str) -> (r: Option<String>)
    ensures
        crate::text::opt_view(r) == profile_from_daemon(out@),
{
    let t = trimmed(out);
    let c = t.as_slice();
    if t.len() == 0 {
        None
    } else if eq_str(c, "performance") {
        Some(String::from_str("Performans (performance)"))
    } else if eq_str(c, "balanced") {
        Some(String::from_str("Dengeli (balanced)"))
    } else if eq_str(c, "power-saver") {
        Some(String::from_str("Güç Tasarrufu (power-saver)"))
    } else {
        Some(string_of(c))
    }
}

fn platform_profile(content: &str) -> (r: Option<String>)
    ensures
        crate::text::opt_view(r) == profile_from_platform(content@),
{
    let t = trimmed(content);
    let c = t.as_slice();
    if t.len() == 0 {
        None
    } else if eq_str(c, "performance") {
        Some(String::from_str("Performans (performance)"))
    } else if eq_str(c, "balanced") || eq_str(c, "balanced-performance") {
        Some(String::from_str("Dengeli (balanced)"))
    } else if eq_str(c, "low-power") || eq_str(c, "power-saver") || eq_str(c, "quiet") || eq_str(
        c,
        "cool",
    ) {
        Some(String::from_str("Güç Tasarrufu (power-saver)"))
    } else {
        Some(string_of(c))
    }
}

fn governor_profile(content: &str) -> (r: Option<String>)
    ensures
        crate::text::opt_view(r) == profile_from_governor(content@),
{
    let t = trimmed(content);
    let c = t.as_slice();
    if t.len() == 0 {
        None
    } else if eq_str(c, "performance") {
        Some(String::from_str("Performans (performance)"))
    } else if eq_str(c, "schedutil") || eq_str(c, "ondemand") {
        Some(String::from_str("Dengeli (schedutil)"))
    } else if eq_str(c, "powersave") {
        Some(String::from_str("Güç Tasarrufu (powersave)"))
    } else {
        Some(string_of(c))
    }
}

/// The power profile from what was read: the power-profile daemon's answer (when
/// it succeeded), the ACPI platform profile and the CPU governor (when readable).
pub fn get_power_profile(daemon: Option<&str>, platform: Option<&str>, governor: Option<&str>) -> (r:
    String)
    ensures
        r@ == power_profile_text(
            match daemon {
                Some(d) => Some(d@),
                None => None,
            },
            match platform {
                Some(c) => Some(c@),
                None => None,
            },
            match governor {
                Some(c) => Some(c@),
                None => None,
            },
        ),
{
    match daemon {
        Some(d) => match daemon_profile(d) {
            Some(p) => { return p; },
            None => {},
        },
        None => {},
    }
    match platform {
        Some(c) => match platform_profile(c) {
            Some(p) => { return p; },
            None => {},
        },
        None => {},
    }
    match governor {
        Some(c) => match governor_profile(c) {
            Some(p) => { return p; },
            None => {},
        },
        None => {},
    }
    String::from_str("Bilinmiyor")
}

// ---------------------------------------------------------------------------
// GPU names
// ---------------------------------------------------------------------------

/// `s` without all leading copies of `p` (`str::trim_start_matches`).
pub open spec fn without_prefixes(s: Seq<char>, p: Seq<char>) -> Seq<char>
    decreases s.len(),
{
    if p.len() > 0 && starts_with(s, p) {
        without_prefixes(s.skip(p.len() as int), p)
    } else {
        s
    }
}

/// The model that an NVIDIA driver information file names: the first `Model:`
/// line with a non-empty value, trimmed.
pub open spec fn nvidia_model_in(lines: Seq<Seq<char>>) -> Option<Seq<char>>
    decreases lines.len(),
{
    if lines.len() == 0 {
        None
    } else {
        let l = lines[0];
        let m = trim(without_prefixes(l, "Model:"@));
        if starts_with(l, "Model:"@) && m.len() > 0 {
            Some(m)
        } else {
            nvidia_model_in(lines.drop_first())
        }
    }
}

fn without_model_prefixes(l: &Vec<char>) -> (r: Vec<char>)
    ensures
        r@ == without_prefixes(l@, "Model:"@),
{
    proof {
        reveal_strlit("Model:");
    }
    let n = l.len();
    let mut i: usize = 0;
    assert(l@.skip(0) =~= l@);
    while n - i >= 6 && l[i] == 'M' && l[i + 1] == 'o' && l[i + 2] == 'd' && l[i + 3] == 'e' && l[i
        + 4] == 'l' && l[i + 5] == ':'
        invariant
            n == l@.len(),
            i <= n,
            without_prefixes(l@, "Model:"@) == without_prefixes(l@.skip(i as int), "Model:"@),
        decreases n - i,
    {
        proof {
            reveal_strlit("Model:");
        }
        let ghost rest = l@.skip(i as int);
        assert(rest.take(6) =~= "Model:"@);
        assert(rest.skip(6) =~= l@.skip(i + 6));
        i += 6;
    }
    proof {
        reveal_strlit("Model:");
        let rest = l@.skip(i as int);
        if starts_with(rest, "Model:"@) {
            assert(rest.take(6)[0] == rest[0]);
            assert(rest.take(6)[1] == rest[1]);
            assert(rest.take(6)[2] == rest[2]);
            assert(rest.take(6)[3] == rest[3]);
            assert(rest.take(6)[4] == rest[4]);
            assert(rest.take(6)[5] == rest[5]);
        }
    }
    let mut r: Vec<char> = Vec::new();
    let mut j = i;
    while j < n
        invariant
            n == l@.len(),
            i <= j <= n,
            r@ == l@.subrange(i as int, j as int),
        decreases n - j,
    {
        r.push(l[j]);
        assert(l@.subrange(i as int, j + 1) =~= l@.subrange(i as int, j as int).push(l@[j as int]));
        j += 1;
    }
    assert(l@.subrange(i as int, n as int) =~= l@.skip(i as int));
    r
}

/// The model named in an NVIDIA driver information file, if any.
pub fn nvidia_model(information: &str) -> (r: Option<String>)
    ensures
        crate::text::opt_view(r) == nvidia_model_in(crate::text::text_lines(information@)),
{
    let lines = crate::text::lines_of(information);
    let ghost lv = lines@.map_values(|l: Vec<char>| l@);
    assert(lv =~= crate::text::text_lines(information@));
    let mut i: usize = 0;
    assert(lv.skip(0) =~= lv);
    while i < lines.len()
        invariant
            i <= lines@.len(),
            lv == lines@.map_values(|l: Vec<char>| l@),
            lv == crate::text::text_lines(information@),
            nvidia_model_in(lv) == nvidia_model_in(lv.skip(i as int)),
        decreases lines@.len() - i,
    {
        let l = &lines[i];
        assert(lv.skip(i as int)[0] == l@);
        assert(lv.skip(i as int).drop_first() =~= lv.skip(i + 1));
        if starts_with_str(l.as_slice(), "Model:") {
            let rest = without_model_prefixes(l);
            let m = trim_chars(rest.as_slice());
            if m.len() > 0 {
                assert(nvidia_model_in(lv.skip(i as int)) == Some(m@));
                return Some(string_of(m.as_slice()));
            }
        }
        i += 1;
    }
    None
}

/// The names of the dedicated and the integrated GPU found so far.
pub type GpuNames = (Option<Seq<char>>, Option<Seq<char>>);

/// Whether a device listing line describes a display controller.
pub open spec fn is_display_line(line: Seq<char>) -> bool {
    let lower = lowercase(line);
    contains(lower, "vga compatible controller"@) || contains(lower, "3d controller"@) || contains(
        lower,
        "display controller"@,
    )
}

/// Whether a device listing line names an AMD device.
pub open spec fn is_amd_line(line: Seq<char>) -> bool {
    contains(line, "AMD"@) || contains(line, "Advanced Micro Devices"@)
}

/// Whether reading a line at this point takes the name in its brackets.
pub open spec fn takes_name(state: GpuNames, line: Seq<char>) -> bool {
    is_display_line(line) && if contains(line, "NVIDIA"@) {
        state.0 is None
    } else if is_amd_line(line) {
        state.1 is None
    } else {
        contains(line, "Intel"@) && state.1 is None
    }
}

/// The part of a line between its first `[` and its first `]`, or the whole line
/// when either is missing.
pub open spec fn bracketed(line: Seq<char>) -> Seq<char> {
    match (index_of(line, "["@), index_of(line, "]"@)) {
        (Some(s), Some(e)) => line.subrange(s as int + 1, e as int),
        _ => line,
    }
}

/// Whether the brackets of a line, if both are there, come in order.
pub open spec fn brackets_in_order(line: Seq<char>) -> bool {
    match (index_of(line, "["@), index_of(line, "]"@)) {
        (Some(s), Some(e)) => s < e,
        _ => true,
    }
}

/// The GPU names after one device listing line: the first NVIDIA display
/// controller gives the dedicated GPU, the first AMD or Intel one the integrated GPU.
pub open spec fn gpu_names_step(state: GpuNames, line: Seq<char>) -> GpuNames {
    if !takes_name(state, line) {
        state
    } else if contains(line, "NVIDIA"@) {
        (Some("NVIDIA "@ + trim(bracketed(line))), state.1)
    } else if is_amd_line(line) {
        (
            state.0,
            Some(
                "AMD "@ + trim(
                    replace_seq(
                        replace_seq(bracketed(line), "AMD/ATI"@, Seq::empty()),
                        "Advanced Micro Devices"@,
                        Seq::empty(),
                    ),
                ),
            ),
        )
    } else {
        (state.0, Some("Intel "@ + trim(bracketed(line))))
    }
}

/// The GPU names after the listing lines, in order.
pub open spec fn gpu_names_scan(state: GpuNames, lines: Seq<Seq<char>>) -> GpuNames
    decreases lines.len(),
{
    if lines.len() == 0 {
        state
    } else {
        gpu_names_scan(gpu_names_step(state, lines[0]), lines.drop_first())
    }
}

/// Whether every line whose name is taken has its brackets in order.
pub open spec fn gpu_scan_well_formed(state: GpuNames, lines: Seq<Seq<char>>) -> bool
    decreases lines.len(),
{
    if lines.len() == 0 {
        true
    } else {
        (takes_name(state, lines[0]) ==> brackets_in_order(lines[0])) && gpu_scan_well_formed(
            gpu_names_step(state, lines[0]),
            lines.drop_first(),
        )
    }
}

fn takes_name_exec(d: bool, i: bool, line: &Vec<char>) -> (r: bool)
    ensures
        forall|s: GpuNames| s.0 is Some == d && s.1 is Some == i ==> r == takes_name(s, line@),
{
    let ls = string_of(line.as_slice());
    let lower = to_lowercase(ls.as_str());
    let lv = chars_of(lower.as_str());
    let l = lv.as_slice();
    let display = contains_str(l, "vga compatible controller") || contains_str(l, "3d controller")
        || contains_str(l, "display controller");
    let c = line.as_slice();
    display && if contains_str(c, "NVIDIA") {
        !d
    } else if contains_str(c, "AMD") || contains_str(c, "Advanced Micro Devices") {
        !i
    } else {
        contains_str(c, "Intel") && !i
    }
}

fn bracket_order_ok(line: &Vec<char>) -> (r: bool)
    ensures
        r == brackets_in_order(line@),
{
    match (crate::text::index_of_str(line.as_slice(), "["), crate::text::index_of_str(line.as_slice(), "]")) {
        (Some(s), Some(e)) => s < e,
        _ => true,
    }
}

fn bracketed_exec(line: &Vec<char>) -> (r: Vec<char>)
    requires
        brackets_in_order(line@),
    ensures
        r@ == bracketed(line@),
{
    proof {
        reveal_strlit("]");
    }
    match (crate::text::index_of_str(line.as_slice(), "["), crate::text::index_of_str(line.as_slice(), "]")) {
        (Some(s), Some(e)) => {
            let mut r: Vec<char> = Vec::new();
            let mut j = s + 1;
            while j < e
                invariant
                    s < e <= line@.len(),
                    s + 1 <= j <= e,
                    r@ == line@.subrange(s + 1, j as int),
                decreases e - j,
            {
                r.push(line[j]);
                assert(line@.subrange(s + 1, j + 1) =~= line@.subrange(s + 1, j as int).push(line@[j as int]));
                j += 1;
            }
            r
        },
        _ => {
            let mut r: Vec<char> = Vec::new();
            let mut j: usize = 0;
            while j < line.len()
                invariant
                    j <= line@.len(),
                    r@ == line@.take(j as int),
                decreases line@.len() - j,
            {
                r.push(line[j]);
                assert(line@.take(j + 1) =~= line@.take(j as int).push(line@[j as int]));
                j += 1;
            }
            assert(line@.take(line@.len() as int) =~= line@);
            r
        },
    }
}

fn prefixed(prefix: &str, name: &Vec<char>) -> (r: String)
    ensures
        r@ == prefix@ + trim(name@),
{
    let t = trim_chars(name.as_slice());
    let mut r = String::from_str(prefix);
    crate::text::push_chars(&mut r, t.as_slice());
    r
}

/// Whether `gpu_names_from_listing` can read the listing: every line whose name
/// it takes has its brackets in order.
pub fn gpu_listing_is_well_formed(dgpu: &Option<String>, listing: &str) -> (r: bool)
    ensures
        r == gpu_scan_well_formed((crate::text::opt_view(*dgpu), None), crate::text::text_lines(listing@)),
{
    let lines = crate::text::lines_of(listing);
    let ghost lv = lines@.map_values(|l: Vec<char>| l@);
    assert(lv =~= crate::text::text_lines(listing@));
    let mut d = dgpu.is_some();
    let mut ig = false;
    let ghost mut state: GpuNames = (crate::text::opt_view(*dgpu), None);
    let mut i: usize = 0;
    assert(lv.skip(0) =~= lv);
    while i < lines.len()
        invariant
            i <= lines@.len(),
            lv == lines@.map_values(|l: Vec<char>| l@),
            lv == crate::text::text_lines(listing@),
            state.0 is Some == d,
            state.1 is Some == ig,
            gpu_scan_well_formed((crate::text::opt_view(*dgpu), None), lv) == gpu_scan_well_formed(state, lv.skip(i as int)),
        decreases lines@.len() - i,
    {
        let line = &lines[i];
        assert(lv.skip(i as int)[0] == line@);
        assert(lv.skip(i as int).drop_first() =~= lv.skip(i + 1));
        let takes = takes_name_exec(d, ig, line);
        assert(takes == takes_name(state, line@));
        if takes && !bracket_order_ok(line) {
            return false;
        }
        proof {
            state = gpu_names_step(state, line@);
        }
        if takes {
            if contains_str(line.as_slice(), "NVIDIA") {
                d = true;
            } else {
                ig = true;
            }
        }
        i += 1;
    }
    true
}

/// The names of the dedicated and the integrated GPU: `dgpu` when the driver named
/// one, and else the first NVIDIA display controller of the device listing; the
/// integrated one from the first AMD or Intel display controller.
pub fn gpu_names_from_listing(dgpu: Option<String>, listing: &str) -> (r: (Option<String>, Option<String>))
    requires
        gpu_scan_well_formed((crate::text::opt_view(dgpu), None), crate::text::text_lines(listing@)),
    ensures
        (crate::text::opt_view(r.0), crate::text::opt_view(r.1)) == gpu_names_scan(
            (crate::text::opt_view(dgpu), None),
            crate::text::text_lines(listing@),
        ),
{
    proof {
        reveal_strlit("");
    }
    let lines = crate::text::lines_of(listing);
    let ghost lv = lines@.map_values(|l: Vec<char>| l@);
    assert(lv =~= crate::text::text_lines(listing@));
    let ghost init: GpuNames = (crate::text::opt_view(dgpu), None);
    let mut d = dgpu;
    let mut ig: Option<String> = None;
    let mut i: usize = 0;
    assert(lv.skip(0) =~= lv);
    while i < lines.len()
        invariant
            i <= lines@.len(),
            lv == lines@.map_values(|l: Vec<char>| l@),
            gpu_names_scan(init, lv) == gpu_names_scan(
                (crate::text::opt_view(d), crate::text::opt_view(ig)),
                lv.skip(i as int),
            ),
            gpu_scan_well_formed((crate::text::opt_view(d), crate::text::opt_view(ig)), lv.skip(i as int)),
        decreases lines@.len() - i,
    {
        let line = &lines[i];
        proof {
            reveal_strlit("");
            assert(""@ =~= Seq::<char>::empty());
        }
        let ghost st: GpuNames = (crate::text::opt_view(d), crate::text::opt_view(ig));
        assert(lv.skip(i as int)[0] == line@);
        assert(lv.skip(i as int).drop_first() =~= lv.skip(i + 1));
        let takes = takes_name_exec(d.is_some(), ig.is_some(), line);
        assert(takes == takes_name(st, line@));
        if takes {
            let inner = bracketed_exec(line);
            if contains_str(line.as_slice(), "NVIDIA") {
                let name = prefixed("NVIDIA ", &inner);
                assert(name@ == gpu_names_step(st, line@).0->Some_0);
                d = Some(name);
            } else if contains_str(line.as_slice(), "AMD") || contains_str(
                line.as_slice(),
                "Advanced Micro Devices",
            ) {
                let a = crate::text::replace_str_chars(inner.as_slice(), "AMD/ATI", "");
                let b = crate::text::replace_str_chars(a.as_slice(), "Advanced Micro Devices", "");
                assert(b@ == replace_seq(replace_seq(inner@, "AMD/ATI"@, Seq::empty()), "Advanced Micro Devices"@, Seq::empty()));
                let name = prefixed("AMD ", &b);
                assert(name@ == gpu_names_step(st, line@).1->Some_0);
                ig = Some(name);
            } else {
                let name = prefixed("Intel ", &inner);
                assert(name@ == gpu_names_step(st, line@).1->Some_0);
                ig = Some(name);
            }
        }
        assert((crate::text::opt_view(d), crate::text::opt_view(ig)) == gpu_names_step(st, line@));
        i += 1;
    }
    (d, ig)
}

// ---------------------------------------------------------------------------
// System summary
// ---------------------------------------------------------------------------

fn strip_prefixes(l: &Vec<char>, p: &str) -> (r: Vec<char>)
    ensures
        r@ == without_prefixes(l@, p@),
{
    let pv = chars_of(p);
    let n = l.len();
    let m = pv.len();
    let mut i: usize = 0;
    assert(l@.skip(0) =~= l@);
    if m > 0 {
        loop
            invariant
                n == l@.len(),
                pv@ == p@,
                m == p@.len(),
                m > 0,
                i <= n,
                without_prefixes(l@, p@) == without_prefixes(l@.skip(i as int), p@),
            ensures
                i <= n,
                without_prefixes(l@, p@) == without_prefixes(l@.skip(i as int), p@),
                !starts_with(l@.skip(i as int), p@),
            decreases n - i,
        {
            let at = crate::text::occurs_at_exec(l.as_slice(), pv.as_slice(), i);
            let ghost rest = l@.skip(i as int);
            if !at {
                proof {
                    if starts_with(rest, p@) {
                        assert(rest.take(m as int) =~= l@.subrange(i as int, i + m));
                    }
                }
                break;
            }
            assert(i + m <= n);
            assert(rest.take(m as int) =~= l@.subrange(i as int, i + m));
            assert(rest.skip(m as int) =~= l@.skip(i + m));
            i += m;
        }
    }
    let mut r: Vec<char> = Vec::new();
    let mut j = i;
    while j < n
        invariant
            n == l@.len(),
            i <= j <= n,
            r@ == l@.subrange(i as int, j as int),
        decreases n - j,
    {
        r.push(l[j]);
        assert(l@.subrange(i as int, j + 1) =~= l@.subrange(i as int, j as int).push(l@[j as int]));
        j += 1;
    }
    assert(l@.subrange(i as int, n as int) =~= l@.skip(i as int));
    r
}

fn trimmed_after(l: &Vec<char>, k: usize) -> (r: Vec<char>)
    requires
        k < l@.len(),
    ensures
        r@ == trim(l@.skip(k + 1)),
{
    let n = l.len();
    let mut rest: Vec<char> = Vec::new();
    let mut j = k + 1;
    while j < n
        invariant
            n == l@.len(),
            k < n,
            k + 1 <= j <= n,
            rest@ == l@.subrange(k + 1, j as int),
        decreases l@.len() - j,
    {
        rest.push(l[j]);
        assert(l@.subrange(k + 1, j + 1) =~= l@.subrange(k + 1, j as int).push(l@[j as int]));
        j += 1;
    }
    assert(rest@ =~= l@.skip(k + 1));
    trim_chars(rest.as_slice())
}

/// The value of the first `model name` line of `/proc/cpuinfo` that has a `:`,
/// trimmed.
pub open spec fn cpuinfo_model_in(lines: Seq<Seq<char>>) -> Option<Seq<char>>
    decreases lines.len(),
{
    if lines.len() == 0 {
        None
    } else {
        let l = lines[0];
        if starts_with(l, "model name"@) && index_of(l, ":"@) is Some {
            Some(trim(l.skip(index_of(l, ":"@)->0 as int + 1)))
        } else {
            cpuinfo_model_in(lines.drop_first())
        }
    }
}

/// The processor model named in the text of `/proc/cpuinfo`, if any.
pub fn cpuinfo_model_name(cpuinfo: &str) -> (r: Option<String>)
    ensures
        crate::text::opt_view(r) == cpuinfo_model_in(crate::text::text_lines(cpuinfo@)),
{
    let lines = crate::text::lines_of(cpuinfo);
    let ghost lv = lines@.map_values(|l: Vec<char>| l@);
    assert(lv =~= crate::text::text_lines(cpuinfo@));
    let mut i: usize = 0;
    assert(lv.skip(0) =~= lv);
    while i < lines.len()
        invariant
            i <= lines@.len(),
            lv == lines@.map_values(|l: Vec<char>| l@),
            lv == crate::text::text_lines(cpuinfo@),
            cpuinfo_model_in(lv) == cpuinfo_model_in(lv.skip(i as int)),
        decreases lines@.len() - i,
    {
        let l = &lines[i];
        assert(lv.skip(i as int)[0] == l@);
        assert(lv.skip(i as int).drop_first() =~= lv.skip(i + 1));
        if starts_with_str(l.as_slice(), "model name") {
            if let Some(k) = crate::text::index_of_str(l.as_slice(), ":") {
                proof {
                    reveal_strlit(":");
                }
                assert(":"@.len() == 1);
                let m = trimmed_after(l, k);
                assert(cpuinfo_model_in(lv.skip(i as int)) == Some(m@));
                return Some(string_of(m.as_slice()));
            }
        }
        i += 1;
    }
    None
}

/// The processor name shown: the brand the system reports, trimmed, when not
/// empty; else the model in `/proc/cpuinfo`; else "CPU".
pub fn cpu_display_name(brand: Option<&str>, cpuinfo: Option<&str>) -> (r: String)
    ensures
        r@ == match brand {
            Some(b) if trim(b@).len() > 0 => trim(b@),
            _ => match cpuinfo {
                Some(c) => match cpuinfo_model_in(crate::text::text_lines(c@)) {
                    Some(m) => m,
                    None => "CPU"@,
                },
                None => "CPU"@,
            },
        },
{
    if let Some(b) = brand {
        let bv = chars_of(b);
        let t = trim_chars(bv.as_slice());
        if t.len() > 0 {
            return string_of(t.as_slice());
        }
    }
    match cpuinfo {
        Some(c) => match cpuinfo_model_name(c) {
            Some(m) => m,
            None => String::from_str("CPU"),
        },
        None => String::from_str("CPU"),
    }
}

/// The GPU name shown for a kernel driver.
pub open spec fn gpu_of_driver(driver: Seq<char>) -> Seq<char> {
    if driver == "nvidia"@ {
        "NVIDIA GPU"@
    } else if driver == "amdgpu"@ {
        "AMD Radeon GPU"@
    } else if driver == "i915"@ {
        "Intel Graphics"@
    } else if driver == "xe"@ {
        "Intel Arc GPU"@
    } else if driver == "nouveau"@ {
        "NVIDIA (Nouveau)"@
    } else {
        driver
    }
}

/// The GPU names a device's `uevent` text gives: one per `DRIVER=` line, from
/// the driver named after the prefix, trimmed.
pub open spec fn uevent_gpus(lines: Seq<Seq<char>>) -> Seq<Seq<char>>
    decreases lines.len(),
{
    if lines.len() == 0 {
        Seq::empty()
    } else {
        let rest = uevent_gpus(lines.drop_last());
        let l = lines.last();
        if starts_with(l, "DRIVER="@) {
            rest.push(gpu_of_driver(trim(without_prefixes(l, "DRIVER="@))))
        } else {
            rest
        }
    }
}

/// `names` with `name` added at the end unless already listed.
pub open spec fn add_once(names: Seq<Seq<char>>, name: Seq<char>) -> Seq<Seq<char>> {
    if names.contains(name) {
        names
    } else {
        names.push(name)
    }
}

/// `names` with each of `more` added in turn unless already listed.
pub open spec fn add_all_once(names: Seq<Seq<char>>, more: Seq<Seq<char>>) -> Seq<Seq<char>>
    decreases more.len(),
{
    if more.len() == 0 {
        names
    } else {
        add_once(add_all_once(names, more.drop_last()), more.last())
    }
}

fn gpu_name_of_driver(driver: &[char]) -> (r: String)
    ensures
        r@ == gpu_of_driver(driver@),
{
    if eq_str(driver, "nvidia") {
        String::from_str("NVIDIA GPU")
    } else if eq_str(driver, "amdgpu") {
        String::from_str("AMD Radeon GPU")
    } else if eq_str(driver, "i915") {
        String::from_str("Intel Graphics")
    } else if eq_str(driver, "xe") {
        String::from_str("Intel Arc GPU")
    } else if eq_str(driver, "nouveau") {
        String::from_str("NVIDIA (Nouveau)")
    } else {
        string_of(driver)
    }
}

fn list_has(names: &Vec<String>, name: &String) -> (r: bool)
    ensures
        r == names.deep_view().contains(name@),
{
    let ghost d = names.deep_view();
    let mut i: usize = 0;
    while i < names.len()
        invariant
            d == names.deep_view(),
            d.len() == names@.len(),
            i <= d.len(),
            forall|j: int| 0 <= j < i ==> d[j] != name@,
        decreases d.len() - i,
    {
        if crate::text::str_is(names[i].as_str(), name.as_str()) {
            assert(d[i as int] == name@);
            return true;
        }
        i += 1;
    }
    false
}

/// Adds the GPUs that a device's `uevent` text names to `names`, each once.
pub fn add_uevent_gpus(names: &mut Vec<String>, uevent: &str)
    ensures
        final(names).deep_view() == add_all_once(
            old(names).deep_view(),
            uevent_gpus(crate::text::text_lines(uevent@)),
        ),
{
    let lines = crate::text::lines_of(uevent);
    let ghost lv = lines@.map_values(|l: Vec<char>| l@);
    assert(lv =~= crate::text::text_lines(uevent@));
    let ghost start = names.deep_view();
    let mut i: usize = 0;
    while i < lines.len()
        invariant
            i <= lines@.len(),
            lv == lines@.map_values(|l: Vec<char>| l@),
            names.deep_view() == add_all_once(start, uevent_gpus(lv.take(i as int))),
        decreases lines@.len() - i,
    {
        let l = &lines[i];
        let ghost lt = lv.take(i + 1);
        assert(lt.drop_last() =~= lv.take(i as int));
        assert(lt.last() == l@);
        if starts_with_str(l.as_slice(), "DRIVER=") {
            let d = strip_prefixes(l, "DRIVER=");
            let t = trim_chars(d.as_slice());
            let g = gpu_name_of_driver(t.as_slice());
            assert(uevent_gpus(lt) == uevent_gpus(lv.take(i as int)).push(g@));
            assert(uevent_gpus(lt).drop_last() =~= uevent_gpus(lv.take(i as int)));
            if !list_has(names, &g) {
                let ghost before = names.deep_view();
                names.push(g);
                assert(names.deep_view() =~= before.push(uevent_gpus(lt).last()));
            }
        }
        i += 1;
    }
    assert(lv.take(i as int) =~= lv);
}

/// The system summary stored with a run: processor, GPUs (joined with " + ",
/// "Standart GPU" when none was found) and the system with its kernel version.
pub open spec fn system_summary_text(cpu: Seq<char>, gpus: Seq<Seq<char>>, os: Seq<char>, kernel: Seq<char>)
    -> Seq<char> {
    let g = if gpus.len() > 0 {
        join(gpus, " + "@)
    } else {
        "Standart GPU"@
    };
    if kernel.len() == 0 {
        cpu + " | "@ + g + " | "@ + os
    } else {
        cpu + " | "@ + g + " | "@ + os + " "@ + kernel
    }
}

/// The system summary stored with a run.
pub fn system_summary(cpu: &str, gpus: &Vec<String>, os: &str, kernel: &str) -> (r: String)
    ensures
        r@ == system_summary_text(cpu@, gpus.deep_view(), os@, kernel@),
{
    let mut s = String::from_str(cpu);
    push_str(&mut s, " | ");
    if gpus.len() > 0 {
        let g = join_strings(gpus, " + ");
        push_str(&mut s, g.as_str());
    } else {
        push_str(&mut s, "Standart GPU");
    }
    push_str(&mut s, " | ");
    push_str(&mut s, os);
    if !kernel.is_empty() {
        push_str(&mut s, " ");
        push_str(&mut s, kernel);
    }
    s
}

/// Whether an entry of `/sys/class/drm` is a graphics card itself (`card0`),
/// not one of its connectors (`card0-HDMI-A-1`).
pub fn is_drm_card_name(name: &str) -> (r: bool)
    ensures
        r == (starts_with(name@, "card"@) && !name@.contains('-')),
{
    let v = chars_of(name);
    starts_with_str(v.as_slice(), "card") && !crate::text::contains_char(v.as_slice(), '-')
}

// ---------------------------------------------------------------------------
// Clock frequency files
// ---------------------------------------------------------------------------

/// `s` without all trailing copies of `p` (`str::trim_end_matches`).
pub open spec fn without_suffixes(s: Seq<char>, p: Seq<char>) -> Seq<char>
    decreases s.len(),
{
    if p.len() > 0 && ends_with(s, p) {
        without_suffixes(s.take(s.len() - p.len()), p)
    } else {
        s
    }
}

/// A word of a `pp_dpm_*` line without its trailing `*`, `Mhz`, `MHz` and `:`
/// marks, stripped in that order.
pub open spec fn freq_token(w: Seq<char>) -> Seq<char> {
    without_suffixes(
        without_suffixes(without_suffixes(without_suffixes(w, "*"@), "Mhz"@), "MHz"@),
        ":"@,
    )
}

/// The cleaned words of the lines that hold a `*`, in order.
pub open spec fn starred_tokens(lines: Seq<Seq<char>>) -> Seq<Seq<char>>
    decreases lines.len(),
{
    if lines.len() == 0 {
        Seq::empty()
    } else {
        let l = lines.last();
        let rest = starred_tokens(lines.drop_last());
        if l.contains('*') {
            rest + crate::text::words(l).map_values(|w: Seq<char>| freq_token(w))
        } else {
            rest
        }
    }
}

/// The candidate clock values of a frequency file in the `pp_dpm_sclk` form, in
/// the order they are tried: the cleaned words of each line marked with `*`;
/// none when the text holds no `*`.
pub open spec fn dpm_frequency_candidates(content: Seq<char>) -> Seq<Seq<char>> {
    if content.contains('*') {
        starred_tokens(crate::text::text_lines(content))
    } else {
        Seq::empty()
    }
}

fn strip_suffixes(l: &[char], p: &str) -> (r: Vec<char>)
    ensures
        r@ == without_suffixes(l@, p@),
{
    let pv = chars_of(p);
    let m = pv.len();
    let mut e: usize = l.len();
    assert(l@.take(e as int) =~= l@);
    if m > 0 {
        loop
            invariant
                e <= l@.len(),
                pv@ == p@,
                m == p@.len(),
                m > 0,
                without_suffixes(l@, p@) == without_suffixes(l@.take(e as int), p@),
            ensures
                e <= l@.len(),
                without_suffixes(l@, p@) == l@.take(e as int),
            decreases e,
        {
            let ghost t = l@.take(e as int);
            if e >= m && crate::text::occurs_at_exec(l, pv.as_slice(), e - m) {
                assert(t.skip(t.len() - m) =~= l@.subrange(e - m, e as int));
                assert(t.take(t.len() - m) =~= l@.take(e - m));
                e -= m;
            } else {
                proof {
                    if ends_with(t, p@) {
                        assert(t.skip(t.len() - m) =~= l@.subrange(e - m, e as int));
                    }
                }
                break;
            }
        }
    }
    let mut r: Vec<char> = Vec::new();
    let mut j: usize = 0;
    while j < e
        invariant
            e <= l@.len(),
            j <= e,
            r@ == l@.take(j as int),
        decreases e - j,
    {
        r.push(l[j]);
        assert(l@.take(j + 1) =~= l@.take(j as int).push(l@[j as int]));
        j += 1;
    }
    r
}

fn clean_freq_token(w: &String) -> (r: String)
    ensures
        r@ == freq_token(w@),
{
    let v = chars_of(w.as_str());
    let a = strip_suffixes(v.as_slice(), "*");
    let b = strip_suffixes(a.as_slice(), "Mhz");
    let c = strip_suffixes(b.as_slice(), "MHz");
    let d = strip_suffixes(c.as_slice(), ":");
    string_of(d.as_slice())
}

/// The candidate clock values of a frequency file in the `pp_dpm_sclk` form:
/// the words of each line marked with `*`, without their `*`, `Mhz`, `MHz` and
/// `:` marks. The first that reads as a clock in range is the current one.
pub fn dpm_frequency_tokens(content: &str) -> (r: Vec<String>)
    ensures
        r.deep_view() == dpm_frequency_candidates(content@),
{
    let cv = chars_of(content);
    let mut r: Vec<String> = Vec::new();
    if !contains_char(cv.as_slice(), '*') {
        assert(r.deep_view() =~= Seq::<Seq<char>>::empty());
        return r;
    }
    let lines = crate::text::lines_of(content);
    let ghost lv = lines@.map_values(|l: Vec<char>| l@);
    assert(lv =~= crate::text::text_lines(content@));
    let mut i: usize = 0;
    assert(lv.take(0) =~= Seq::<Seq<char>>::empty());
    assert(r.deep_view() =~= Seq::<Seq<char>>::empty());
    while i < lines.len()
        invariant
            i <= lines@.len(),
            lv == lines@.map_values(|l: Vec<char>| l@),
            lv == crate::text::text_lines(content@),
            content@.contains('*'),
            r.deep_view() == starred_tokens(lv.take(i as int)),
        decreases lines@.len() - i,
    {
        let l = &lines[i];
        let ghost lt = lv.take(i + 1);
        assert(lt.drop_last() =~= lv.take(i as int));
        assert(lt.last() == l@);
        if contains_char(l.as_slice(), '*') {
            let ws = crate::text::split_whitespace_chars(l.as_slice());
            let ghost base = r.deep_view();
            let ghost wv = ws.deep_view();
            let mut j: usize = 0;
            assert(wv.take(0).map_values(|w: Seq<char>| freq_token(w)) =~= Seq::<Seq<char>>::empty());
            assert(base + Seq::<Seq<char>>::empty() =~= base);
            while j < ws.len()
                invariant
                    j <= ws@.len(),
                    wv == ws.deep_view(),
                    wv.len() == ws@.len(),
                    r.deep_view() == base + wv.take(j as int).map_values(|w: Seq<char>| freq_token(w)),
                decreases ws@.len() - j,
            {
                let t = clean_freq_token(&ws[j]);
                let ghost before = r.deep_view();
                r.push(t);
                assert(wv.take(j + 1).map_values(|w: Seq<char>| freq_token(w)) =~= wv.take(
                    j as int,
                ).map_values(|w: Seq<char>| freq_token(w)).push(freq_token(wv[j as int])));
                assert(r.deep_view() =~= before.push(freq_token(wv[j as int])));
                j += 1;
            }
            assert(wv.take(j as int) =~= wv);
        }
        i += 1;
    }
    assert(lv.take(i as int) =~= lv);
    r
}

/// Whether an entry of `/sys/devices/system/cpu` is a processor core: `cpu`
/// followed only by ASCII digits.
pub fn is_cpu_core_dir_name(name: &str) -> (r: bool)
    ensures
        r == (starts_with(name@, "cpu"@) && forall|k: int|
            3 <= k < name@.len() ==> crate::text::is_digit(#[trigger] name@[k])),
{
    let v = chars_of(name);
    if !starts_with_str(v.as_slice(), "cpu") {
        return false;
    }
    proof {
        reveal_strlit("cpu");
    }
    let mut i: usize = 3;
    while i < v.len()
        invariant
            v@ == name@,
            3 <= i <= v@.len(),
            forall|k: int| 3 <= k < i ==> crate::text::is_digit(#[trigger] name@[k]),
        decreases v@.len() - i,
    {
        let c = v[i];
        if !('0' <= c && c <= '9') {
            return false;
        }
        i += 1;
    }
    true
}

/// Whether an entry of `/sys/class/powercap` is an Intel RAPL zone.
pub fn is_rapl_zone_name(name: &str) -> (r: bool)
    ensures
        r == starts_with(name@, "intel-rapl"@),
{
    let v = chars_of(name);
    starts_with_str(v.as_slice(), "intel-rapl")
}

// ---------------------------------------------------------------------------
// Throttling over a run
// ---------------------------------------------------------------------------

/// A sample's throttling note that names thermal throttling.
pub open spec fn is_thermal_note(n: Seq<char>) -> bool {
    contains(n, "Termal"@) || contains(n, "thermal"@)
}

/// A sample's throttling note that names a power limit.
pub open spec fn is_power_note(n: Seq<char>) -> bool {
    contains(n, "Güç"@) || contains(n, "power"@)
}

/// A sample's throttling note that reports some throttling.
pub open spec fn is_detected_note(n: Seq<char>) -> bool {
    n.len() > 0 && n != "Yok"@ && n != "none"@ && n != "-"@
}

/// The number of notes that name thermal throttling.
pub open spec fn thermal_count(notes: Seq<Seq<char>>) -> nat
    decreases notes.len(),
{
    if notes.len() == 0 {
        0
    } else {
        thermal_count(notes.drop_last()) + if is_thermal_note(notes.last()) {
            1nat
        } else {
            0nat
        }
    }
}

/// The number of notes that name a power limit.
pub open spec fn power_count(notes: Seq<Seq<char>>) -> nat
    decreases notes.len(),
{
    if notes.len() == 0 {
        0
    } else {
        power_count(notes.drop_last()) + if is_power_note(notes.last()) {
            1nat
        } else {
            0nat
        }
    }
}

/// A run is summed up as thermally throttled exactly when one of its samples
/// names thermal throttling, and the count never exceeds the samples.
pub proof fn lemma_thermal_count_iff_any(notes: Seq<Seq<char>>)
    ensures
        (thermal_count(notes) > 0) <==> exists|i: int| 0 <= i < notes.len() && is_thermal_note(#[trigger] notes[i]),
        thermal_count(notes) <= notes.len(),
    decreases notes.len(),
{
    if notes.len() > 0 {
        let rest = notes.drop_last();
        lemma_thermal_count_iff_any(rest);
        if thermal_count(rest) > 0 {
            let i = choose|i: int| 0 <= i < rest.len() && is_thermal_note(#[trigger] rest[i]);
            assert(notes[i] == rest[i]);
        }
        if !is_thermal_note(notes.last()) && thermal_count(rest) == 0 {
            assert forall|i: int| 0 <= i < notes.len() implies !is_thermal_note(#[trigger] notes[i]) by {
                if i < notes.len() - 1 {
                    assert(notes[i] == rest[i]);
                }
            }
        }
    }
}

/// A GPU run is summed up under a power limit only when one of its samples names
/// one.
pub proof fn lemma_power_count_iff_any(notes: Seq<Seq<char>>)
    ensures
        (power_count(notes) > 0) <==> exists|i: int| 0 <= i < notes.len() && is_power_note(#[trigger] notes[i]),
        power_count(notes) <= notes.len(),
    decreases notes.len(),
{
    if notes.len() > 0 {
        let rest = notes.drop_last();
        lemma_power_count_iff_any(rest);
        if power_count(rest) > 0 {
            let i = choose|i: int| 0 <= i < rest.len() && is_power_note(#[trigger] rest[i]);
            assert(notes[i] == rest[i]);
        }
        if !is_power_note(notes.last()) && power_count(rest) == 0 {
            assert forall|i: int| 0 <= i < notes.len() implies !is_power_note(#[trigger] notes[i]) by {
                if i < notes.len() - 1 {
                    assert(notes[i] == rest[i]);
                }
            }
        }
    }
}

/// The throttling notes of a run's samples, counted.
pub struct ThrottleTally {
    pub samples: usize,
    pub thermal: usize,
    pub power: usize,
    pub detected: bool,
}

/// How a run's throttling is summed up.
#[derive(Debug, Clone, Copy, PartialEq, Eq, Structural)]
pub enum ThrottleVerdict {
    Thermal,
    PowerLimit,
    Detected,
    NoThrottling,
}

/// Counts the throttling notes of a run's samples: how many name thermal
/// throttling, how many a power limit, and whether any reports throttling.
pub fn tally_throttle_notes(notes: &Vec<String>) -> (r: ThrottleTally)
    ensures
        r.samples == notes@.len(),
        r.thermal == thermal_count(notes.deep_view()),
        r.power == power_count(notes.deep_view()),
        r.detected == exists|i: int| 0 <= i < notes@.len() && is_detected_note(#[trigger] notes.deep_view()[i]),
{
    let ghost d = notes.deep_view();
    let mut thermal: usize = 0;
    let mut power: usize = 0;
    let mut detected = false;
    let mut i: usize = 0;
    assert(d.take(0) =~= Seq::<Seq<char>>::empty());
    while i < notes.len()
        invariant
            d == notes.deep_view(),
            d.len() == notes@.len(),
            i <= d.len(),
            thermal == thermal_count(d.take(i as int)),
            power == power_count(d.take(i as int)),
            thermal <= i,
            power <= i,
            detected == exists|j: int| 0 <= j < i && is_detected_note(#[trigger] d[j]),
        decreases d.len() - i,
    {
        let n = notes[i].as_str();
        let ghost t = d.take(i + 1);
        assert(t.drop_last() =~= d.take(i as int));
        assert(t.last() == n@);
        if crate::text::str_contains(n, "Termal") || crate::text::str_contains(n, "thermal") {
            thermal += 1;
        }
        if crate::text::str_contains(n, "Güç") || crate::text::str_contains(n, "power") {
            power += 1;
        }
        let noted = !n.is_empty() && !crate::text::str_is(n, "Yok") && !crate::text::str_is(n, "none")
            && !crate::text::str_is(n, "-");
        proof {
            if noted {
                assert(is_detected_note(d[i as int]));
            }
            if !noted && !detected {
                assert forall|j: int| 0 <= j < i + 1 implies !is_detected_note(#[trigger] d[j]) by {
                    if j == i {
                        assert(d[j] == n@);
                    }
                }
            }
        }
        detected = detected || noted;
        i += 1;
    }
    assert(d.take(i as int) =~= d);
    ThrottleTally { samples: notes.len(), thermal, power, detected }
}

/// How the processor's throttling over a run is summed up: thermal when any
/// sample names it, else detected when any sample reports throttling.
pub fn cpu_throttle_verdict(t: &ThrottleTally) -> (v: ThrottleVerdict)
    ensures
        v == if t.thermal > 0 {
            ThrottleVerdict::Thermal
        } else if t.detected {
            ThrottleVerdict::Detected
        } else {
            ThrottleVerdict::NoThrottling
        },
{
    if t.thermal > 0 {
        ThrottleVerdict::Thermal
    } else if t.detected {
        ThrottleVerdict::Detected
    } else {
        ThrottleVerdict::NoThrottling
    }
}

/// How the graphics card's throttling over a run is summed up: thermal when any
/// sample names it, else a power limit when any names one, else detected when
/// any sample reports throttling.
pub fn gpu_throttle_verdict(t: &ThrottleTally) -> (v: ThrottleVerdict)
    ensures
        v == if t.thermal > 0 {
            ThrottleVerdict::Thermal
        } else if t.power > 0 {
            ThrottleVerdict::PowerLimit
        } else if t.detected {
            ThrottleVerdict::Detected
        } else {
            ThrottleVerdict::NoThrottling
        },
{
    if t.thermal > 0 {
        ThrottleVerdict::Thermal
    } else if t.power > 0 {
        ThrottleVerdict::PowerLimit
    } else if t.detected {
        ThrottleVerdict::Detected
    } else {
        ThrottleVerdict::NoThrottling
    }
}

/// The number of samples behind a verdict, whose share of all samples is shown
/// with it: those that name a power limit for a power-limit verdict, else those
/// that name thermal throttling.
pub fn verdict_sample_count(v: ThrottleVerdict, t: &ThrottleTally) -> (r: usize)
    ensures
        r == if v == ThrottleVerdict::PowerLimit {
            t.power
        } else {
            t.thermal
        },
{
    match v {
        ThrottleVerdict::PowerLimit => t.power,
        _ => t.thermal,
    }
}

/// The stored throttling value of a run; `percent` is the share of samples, in
/// percent, behind a thermal or power-limit verdict.
pub open spec fn throttle_summary(v: ThrottleVerdict, percent: u32) -> Seq<char> {
    match v {
        ThrottleVerdict::Thermal => "Termal Kısma (%"@ + dec(percent as nat) + ")"@,
        ThrottleVerdict::PowerLimit => "Güç Limiti (%"@ + dec(percent as nat) + ")"@,
        ThrottleVerdict::Detected => "detected"@,
        ThrottleVerdict::NoThrottling => "none"@,
    }
}

/// The stored throttling value of a run; `percent` is the share of samples, in
/// percent, behind a thermal or power-limit verdict.
pub fn throttle_summary_text(v: ThrottleVerdict, percent: u32) -> (r: String)
    ensures
        r@ == throttle_summary(v, percent),
{
    match v {
        ThrottleVerdict::Thermal => {
            let mut s = crate::text::string_from("Termal Kısma (%");
            crate::text::push_dec(&mut s, percent as u64);
            push_str(&mut s, ")");
            s
        },
        ThrottleVerdict::PowerLimit => {
            let mut s = crate::text::string_from("Güç Limiti (%");
            crate::text::push_dec(&mut s, percent as u64);
            push_str(&mut s, ")");
            s
        },
        ThrottleVerdict::Detected => crate::text::string_from("detected"),
        ThrottleVerdict::NoThrottling => crate::text::string_from("none"),
    }
}

} // verus!
