//! Which parts of the telemetry display need redrawing, and the unit a byte
//! count is shown in.
use vstd::prelude::*;

verus! {

/// Which telemetry values changed enough to be redrawn.
#[derive(Debug, Clone, Copy, PartialEq, Eq, Structural)]
pub struct TelemetryUpdateDiff {
    pub update_cpu_temp: bool,
    pub update_gpu_temp: bool,
    pub update_cpu_freq: bool,
    pub update_power_w: bool,
    pub update_cpu_throttle: bool,
    pub update_gpu_throttle: bool,
}

impl TelemetryUpdateDiff {
    /// Whether any value needs redrawing.
    pub fn has_updates(&self) -> (r: bool)
        ensures
            r == (self.update_cpu_temp || self.update_gpu_temp || self.update_cpu_freq
                || self.update_power_w || self.update_cpu_throttle || self.update_gpu_throttle),
    {
        self.update_cpu_temp || self.update_gpu_temp || self.update_cpu_freq || self.update_power_w
            || self.update_cpu_throttle || self.update_gpu_throttle
    }
}

/// The unit a byte count is shown in.
#[derive(Debug, Clone, Copy, PartialEq, Eq, Structural)]
pub enum ByteUnit {
    Bytes,
    Kilobytes,
    Megabytes,
    Gigabytes,
}

/// The largest unit (of 1024 bytes, 1024 KB and 1024 MB) that the count reaches;
/// bytes below 1024.
pub open spec fn byte_unit_of(bytes: u64) -> ByteUnit {
    if bytes >= 1024 * 1024 * 1024 {
        ByteUnit::Gigabytes
    } else if bytes >= 1024 * 1024 {
        ByteUnit::Megabytes
    } else if bytes >= 1024 {
        ByteUnit::Kilobytes
    } else {
        ByteUnit::Bytes
    }
}

/// The unit a byte count is shown in.
pub fn byte_unit(bytes: u64) -> (u: ByteUnit)
    ensures
        u == byte_unit_of(bytes),
{
    if bytes >= 1024 * 1024 * 1024 {
        ByteUnit::Gigabytes
    } else if bytes >= 1024 * 1024 {
        ByteUnit::Megabytes
    } else if bytes >= 1024 {
        ByteUnit::Kilobytes
    } else {
        ByteUnit::Bytes
    }
}

impl ByteUnit {
    /// The number of bytes in one of this unit.
    pub fn divisor(&self) -> (d: u64)
        ensures
            d == match *self {
                ByteUnit::Bytes => 1int,
                ByteUnit::Kilobytes => 1024int,
                ByteUnit::Megabytes => 1024int * 1024,
                ByteUnit::Gigabytes => 1024int * 1024 * 1024,
            },
    {
        match self {
            ByteUnit::Bytes => 1,
            ByteUnit::Kilobytes => 1024,
            ByteUnit::Megabytes => 1024 * 1024,
            ByteUnit::Gigabytes => 1024 * 1024 * 1024,
        }
    }

    /// The unit's symbol.
    pub fn label(&self) -> (r: &'static str)
        ensures
            r@ == match *self {
                ByteUnit::Bytes => "B"@,
                ByteUnit::Kilobytes => "KB"@,
                ByteUnit::Megabytes => "MB"@,
                ByteUnit::Gigabytes => "GB"@,
            },
    {
        match self {
            ByteUnit::Bytes => "B",
            ByteUnit::Kilobytes => "KB",
            ByteUnit::Megabytes => "MB",
            ByteUnit::Gigabytes => "GB",
        }
    }
}

} // verus!
