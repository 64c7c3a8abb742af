//! Properties of the refresh rules as a whole.
use vstd::prelude::*;
use crate::cpu::{CPU, Core, advance_core, core_frequency, refreshed_frequency, utilization_after};
use crate::disk::{DiskIO, DiskSpace, advance_io, refreshed_io, refreshed_space};
use crate::fan::{Profile, refreshed_profile, refreshed_rpm};
use crate::gpu::{GPUFrequency, refreshed_gpu_frequency, refreshed_load};
use crate::memory::{EMC, Mem, meminfo, refreshed_emc, refreshed_mem};
use crate::metric::{delta, utilization};
use crate::power::{Channel, NVPMode, channel_after, mode_after, nvp_refreshed};
use crate::system::{Loadavg, Uptime, refreshed_loadavg, refreshed_uptime};
use crate::thermal::{Sensor, sensor_after};

verus! {

/// Between two samples of a counter that did not go backwards, the delta is
/// exactly the difference.
pub proof fn counter_delta_is_difference(prev: u64, curr: u64)
    requires
        curr >= prev,
    ensures
        delta(prev as int, curr as int) == curr - prev,
{
}

/// The disk counters report exactly what each counter advanced by since the
/// previous sample, when neither went backwards.
pub proof fn disk_delta_is_difference(io: DiskIO, reads: u64, writes: u64)
    requires
        reads >= io.reads,
        writes >= io.writes,
    ensures
        advance_io(io, Some((reads, writes))).read_delta == reads - io.reads,
        advance_io(io, Some((reads, writes))).write_delta == writes - io.writes,
        advance_io(io, Some((reads, writes))).reads == reads,
        advance_io(io, Some((reads, writes))).writes == writes,
{
}

/// A core's utilization is that of the interval between its baseline and the
/// new sample, when neither counter went backwards.
pub proof fn core_utilization_over_interval(c: Core, idle: u64, total: u64)
    requires
        total >= c.total_time,
        idle >= c.idle_time,
    ensures
        advance_core(c, idle as int, total as int).utilization == utilization(
            total - c.total_time,
            idle - c.idle_time,
        ),
        advance_core(c, idle as int, total as int).total_time == total,
        advance_core(c, idle as int, total as int).idle_time == idle,
{
    let t = total - c.total_time;
    let i = idle - c.idle_time;
    if t > 0 && i <= t {
        assert(1000 * (t - i) / t <= 1000) by (nonlinear_arith)
            requires
                t > 0,
                0 <= i <= t,
        ;
    }
}

/// A source absent at discovery is never refreshed into existence, whatever
/// is read later.
pub proof fn absent_stays_absent(
    cpu: CPU,
    stat: Option<Seq<u8>>,
    reading: Option<Vec<u8>>,
    text: Option<Seq<u8>>,
    other: Option<Seq<u8>>,
    fs_stats: Option<(u64, u64, u64)>,
    dev: Seq<u8>,
)
    requires
        !cpu.has_stat,
    ensures
        utilization_after(cpu, stat) == cpu.cores@,
        refreshed_frequency(None, reading) is None,
        refreshed_mem(None, text) is None,
        refreshed_emc(None, text, other) is None,
        refreshed_load(None, text) is None,
        refreshed_gpu_frequency(None, text, other) is None,
        refreshed_rpm(None, text) is None,
        refreshed_profile(None, text) is None,
        refreshed_loadavg(None, text) is None,
        refreshed_uptime(None, text) is None,
        refreshed_space(None, fs_stats) is None,
        refreshed_io(None, text, dev) is None,
{
}

/// A reading that fails leaves the previous value of its metric in place.
pub proof fn failed_reading_keeps_value(
    m: Mem,
    e: EMC,
    load: u64,
    f: GPUFrequency,
    rpm: u64,
    p: Profile,
    l: Loadavg,
    u: Uptime,
    freq: u64,
    s: Sensor,
    ch: Channel,
    io: DiskIO,
    text: Seq<u8>,
    other: Seq<u8>,
    dev: Seq<u8>,
    reading: Vec<u8>,
    pair: (Vec<u8>, Vec<u8>),
)
    requires
        meminfo(text) is None,
        crate::memory::clock_mhz(text) is None,
        crate::gpu::gpu_load_of(text) is None,
        crate::text::single_value(text) is None,
        crate::fan::profile_of(text) is None,
        crate::system::loadavg_of(text) is None,
        crate::system::uptime_of(text) is None,
        crate::disk::disk_sectors(text, dev) is None,
        core_frequency(reading@) is None,
        crate::thermal::sensor_temperature(reading@) is None,
        crate::power::rail_power(pair.0@, pair.1@) is None,
    ensures
        refreshed_mem(Some(m), Some(text)) == Some(m),
        refreshed_emc(Some(e), Some(text), Some(other)) == Some(e),
        refreshed_load(Some(load), Some(text)) == Some(load),
        refreshed_gpu_frequency(Some(f), Some(text), Some(other)) == Some(f),
        refreshed_rpm(Some(rpm), Some(text)) == Some(rpm),
        refreshed_profile(Some(p), Some(text)) == Some(p),
        refreshed_loadavg(Some(l), Some(text)) == Some(l),
        refreshed_uptime(Some(u), Some(text)) == Some(u),
        refreshed_io(Some(io), Some(text), dev) == Some(io),
        refreshed_frequency(Some(freq), Some(reading)) == Some(freq),
        sensor_after(s, Some(reading)) == s,
        channel_after(ch, Some(pair)) == ch,
{
}

/// Refreshing a gauge twice from unchanged content gives the value of the
/// first refresh again.
pub proof fn unchanged_content_same_value(
    m: Option<Mem>,
    e: Option<EMC>,
    load: Option<u64>,
    f: Option<GPUFrequency>,
    rpm: Option<u64>,
    p: Option<Profile>,
    l: Option<Loadavg>,
    u: Option<Uptime>,
    freq: Option<u64>,
    sp: Option<DiskSpace>,
    s: Sensor,
    ch: Channel,
    text: Option<Seq<u8>>,
    other: Option<Seq<u8>>,
    fs_stats: Option<(u64, u64, u64)>,
    reading: Option<Vec<u8>>,
    pair: Option<(Vec<u8>, Vec<u8>)>,
)
    ensures
        refreshed_mem(refreshed_mem(m, text), text) == refreshed_mem(m, text),
        refreshed_emc(refreshed_emc(e, text, other), text, other) == refreshed_emc(e, text, other),
        refreshed_load(refreshed_load(load, text), text) == refreshed_load(load, text),
        refreshed_gpu_frequency(refreshed_gpu_frequency(f, text, other), text, other)
            == refreshed_gpu_frequency(f, text, other),
        refreshed_rpm(refreshed_rpm(rpm, text), text) == refreshed_rpm(rpm, text),
        refreshed_profile(refreshed_profile(p, text), text) == refreshed_profile(p, text),
        refreshed_loadavg(refreshed_loadavg(l, text), text) == refreshed_loadavg(l, text),
        refreshed_uptime(refreshed_uptime(u, text), text) == refreshed_uptime(u, text),
        refreshed_frequency(refreshed_frequency(freq, reading), reading) == refreshed_frequency(
            freq,
            reading,
        ),
        refreshed_space(refreshed_space(sp, fs_stats), fs_stats) == refreshed_space(sp, fs_stats),
        sensor_after(sensor_after(s, reading), reading) == sensor_after(s, reading),
        channel_after(channel_after(ch, pair), pair) == channel_after(ch, pair),
{
}

/// Refreshing the power profile twice from an unchanged status file gives
/// the profile of the first refresh again.
pub proof fn unchanged_status_same_profile(n: NVPMode, once: NVPMode, status: Option<Seq<u8>>)
    requires
        nvp_refreshed(n, once, status),
    ensures
        mode_after(once, status) == mode_after(n, status),
{
}

/// Refreshing the disk counters twice from unchanged content keeps the same
/// baseline, and the second interval shows no activity.
pub proof fn unchanged_counters_show_no_activity(io: DiskIO, text: Seq<u8>, dev: Seq<u8>)
    requires
        crate::disk::disk_sectors(text, dev) is Some,
    ensures
        ({
            let once = refreshed_io(Some(io), Some(text), dev)->0;
            let twice = refreshed_io(Some(once), Some(text), dev)->0;
            twice.reads == once.reads && twice.writes == once.writes && twice.read_delta == 0
                && twice.write_delta == 0
        }),
{
}

} // verus!
