//! Conversion of raw readings into derived values: counter deltas,
//! utilization, unit scaling and rounding.
use vstd::prelude::*;

verus! {

/// What a cumulative counter advanced by between two samples. A counter that
/// went backwards (a driver reload) starts a new baseline and reports zero.
pub open spec fn delta(prev: int, curr: int) -> int {
    if curr >= prev {
        curr - prev
    } else {
        0
    }
}

pub fn counter_delta(prev: u64, curr: u64) -> (r: u64)
    ensures
        r == delta(prev as int, curr as int),
{
    if curr >= prev {
        curr - prev
    } else {
        0
    }
}

/// Busy share of an interval in tenths of a percent, rounded down:
/// `1000 * (total - idle) / total`. An empty interval, or one whose idle part
/// exceeds the whole, counts as zero.
pub open spec fn utilization(total_diff: int, idle_diff: int) -> int {
    if total_diff <= 0 || idle_diff > total_diff {
        0
    } else {
        1000 * (total_diff - idle_diff) / total_diff
    }
}

pub fn utilization_tenths(total_diff: u64, idle_diff: u64) -> (r: u64)
    ensures
        r == utilization(total_diff as int, idle_diff as int),
        r <= 1000,
{
    if total_diff == 0 || idle_diff > total_diff {
        return 0;
    }
    let busy = (total_diff - idle_diff) as u128;
    let total = total_diff as u128;
    assert((busy as int) * 1000 / (total as int) <= 1000) by (nonlinear_arith)
        requires
            busy <= total,
            total > 0,
    ;
    (busy * 1000 / total) as u64
}

/// Whole megahertz in a frequency given in kilohertz.
pub fn khz_to_mhz(khz: u64) -> (r: u64)
    ensures
        r == khz / 1000,
{
    khz / 1000
}

/// Whole megahertz in a frequency given in hertz.
pub fn hz_to_mhz(hz: u64) -> (r: u64)
    ensures
        r == hz / 1_000_000,
{
    hz / 1_000_000
}

/// `x / d` rounded to the nearest integer, halves away from zero.
pub open spec fn round_div(x: int, d: int) -> int {
    if x >= 0 {
        (x + d / 2) / d
    } else {
        -((-x + d / 2) / d)
    }
}

/// Kibibytes to mebibytes, rounded to the nearest.
pub fn kib_to_mib(kib: i128) -> (r: i128)
    requires
        -0x1_0000_0000_0000_0000_0000 <= kib <= 0x1_0000_0000_0000_0000_0000,
    ensures
        r == round_div(kib as int, 1024),
{
    if kib >= 0 {
        (kib + 512) / 1024
    } else {
        -((-kib + 512) / 1024)
    }
}

/// Power of a rail in milliwatts from its current (mA) and voltage (mV),
/// rounded to the nearest.
pub open spec fn power_of(current: int, voltage: int) -> int {
    round_div(current * voltage, 1000)
}

pub fn power_mw(current: u32, voltage: u32) -> (r: u64)
    ensures
        r == power_of(current as int, voltage as int),
{
    assert((current as int) * (voltage as int) <= 0xffff_fffe_0000_0001) by (nonlinear_arith)
        requires
            current <= 0xffff_ffff,
            voltage <= 0xffff_ffff,
    ;
    let p = current as u64 * voltage as u64;
    (p + 500) / 1000
}

/// A load given in tenths of a percent, as a whole percent rounded to the nearest.
pub fn load_percent(raw: u64) -> (r: u64)
    ensures
        r == round_div(raw as int, 10),
{
    raw / 10 + if raw % 10 >= 5 {
        1
    } else {
        0
    }
}

/// Whole days, hours, minutes and seconds in a number of seconds.
pub open spec fn split_duration(secs: int) -> (int, int, int, int) {
    (secs / 86400, (secs / 3600) % 24, (secs / 60) % 60, secs % 60)
}

pub fn duration_parts(secs: u64) -> (r: (u64, u64, u64, u64))
    ensures
        (r.0 as int, r.1 as int, r.2 as int, r.3 as int) == split_duration(secs as int),
{
    (secs / 86400, (secs / 3600) % 24, (secs / 60) % 60, secs % 60)
}

} // verus!
