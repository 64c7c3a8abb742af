//! The refresh orchestrator: discovery of every subsystem, then one refresh
//! of each per tick, in a fixed order, each from its own readings only.
use vstd::prelude::*;
use crate::board::{Board, bytes_opt, l4t_of, bios_of};
use crate::cpu::{CPU, cores_after, cpu_discovered};
use crate::disk::{
    Disk, refreshed_space, refreshed_io, name_view, root_device, base_name, stats_view, first_io,
};
use crate::engine::{Engine, engines_upto};
use crate::fan::{Fan, refreshed_rpm, refreshed_profile, first_rpm, first_profile};
use crate::gpu::{GPU, refreshed_load, refreshed_gpu_frequency, first_load, gpu_frequency_of};
use crate::memory::{Memory, opt_view, refreshed_mem, refreshed_emc, meminfo, mem_of, emc_of};
use crate::network::{Network, ifaces_view, interfaces_of};
use crate::power::{
    Power, channel_after, pair_at, nvp_refreshed, nvp_discovered, channel_view, channels_upto,
};
use crate::system::{System, refreshed_loadavg, refreshed_uptime, first_loadavg, first_uptime};
use crate::thermal::{Thermal, sensor_after, sensor_view, sensors_upto};
use crate::cpu::reading_at;

verus! {

/// What discovery reads once, at startup. `None` stands for a source that is
/// missing or could not be read.
pub struct Discovery {
    pub board_model: Option<Vec<u8>>,
    pub board_release: Option<Vec<u8>>,
    pub board_bios: Option<Vec<u8>>,
    pub stat: Option<Vec<u8>>,
    /// One reading per core found in `stat`, in the same order.
    pub core_frequencies: Vec<Option<Vec<u8>>>,
    pub mounts: Option<Vec<u8>>,
    /// Root filesystem statistics: blocks, available blocks, fragment size.
    pub fs_stats: Option<(u64, u64, u64)>,
    pub diskstats: Option<Vec<u8>>,
    pub fan_rpm: Option<Vec<u8>>,
    pub fan_conf: Option<Vec<u8>>,
    pub gpu_load: Option<Vec<u8>>,
    pub gpu_current: Option<Vec<u8>>,
    pub gpu_max: Option<Vec<u8>>,
    pub meminfo: Option<Vec<u8>>,
    pub emc_current: Option<Vec<u8>>,
    pub emc_max: Option<Vec<u8>>,
    pub nvp_conf: Option<Vec<u8>>,
    pub nvp_status: Option<Vec<u8>>,
    /// Label, current and voltage of each rail of the power monitor.
    pub rails: Vec<(Vec<u8>, Vec<u8>, Vec<u8>)>,
    pub loadavg: Option<Vec<u8>>,
    pub uptime: Option<Vec<u8>>,
    /// `type` and `temp` of each thermal zone.
    pub zones: Vec<(Vec<u8>, Vec<u8>)>,
}

/// What one tick reads. `None` stands for a read that failed or a source
/// that has no handle.
pub struct Readings {
    pub stat: Option<Vec<u8>>,
    /// One reading per core, in the order of the cores.
    pub core_frequencies: Vec<Option<Vec<u8>>>,
    pub fs_stats: Option<(u64, u64, u64)>,
    pub diskstats: Option<Vec<u8>>,
    /// Enable count and rate of each engine's clock, in the order of `HWName::all`.
    pub engines: Vec<Option<(Vec<u8>, Vec<u8>)>>,
    pub fan_rpm: Option<Vec<u8>>,
    pub fan_conf: Option<Vec<u8>>,
    pub gpu_load: Option<Vec<u8>>,
    pub gpu_current: Option<Vec<u8>>,
    pub gpu_max: Option<Vec<u8>>,
    pub meminfo: Option<Vec<u8>>,
    pub emc_current: Option<Vec<u8>>,
    pub emc_max: Option<Vec<u8>>,
    /// The host's address entries: interface name and IPv4 address, if any.
    pub interfaces: Vec<(Vec<u8>, Option<u32>)>,
    pub nvp_status: Option<Vec<u8>>,
    /// Current and voltage of each rail, in the order of the rails.
    pub rails: Vec<Option<(Vec<u8>, Vec<u8>)>>,
    pub loadavg: Option<Vec<u8>>,
    pub uptime: Option<Vec<u8>>,
    /// One `temp` reading per sensor, in the order of the sensors.
    pub temperatures: Vec<Option<Vec<u8>>>,
}

/// The snapshot of every subsystem, and whether the program still runs.
pub struct App {
    pub board: Board,
    pub cpu: CPU,
    pub disk: Disk,
    pub engine: Engine,
    pub fan: Fan,
    pub gpu: GPU,
    pub memory: Memory,
    pub network: Network,
    pub power: Power,
    pub system: System,
    pub thermal: Thermal,
    pub running: bool,
}

fn slice_of(o: &Option<Vec<u8>>) -> (r: Option<&[u8]>)
    ensures
        opt_view(r) == bytes_opt(*o),
{
    match o {
        Some(v) => Some(v.as_slice()),
        None => None,
    }
}

impl App {
    /// Discovery of every subsystem; none of them can stop the others.
    pub fn new(d: &Discovery) -> (r: App)
        ensures
            r.running,
            bytes_opt(r.board.name) == bytes_opt(d.board_model),
            bytes_opt(r.board.l4t) == (match d.board_release {
                Some(c) => l4t_of(c@),
                None => None,
            }),
            bytes_opt(r.board.bios) == (match d.board_bios {
                Some(c) => Some(bios_of(c@)),
                None => None,
            }),
            cpu_discovered(r.cpu, bytes_opt(d.stat), d.core_frequencies@),
            (match d.mounts {
                Some(m) => root_device(m@),
                None => None,
            }) matches Some(dev) ==> r.disk.device_name is Some && name_view(r.disk.device_name)
                == base_name(dev) && r.disk.space == stats_view(d.fs_stats) && r.disk.io == first_io(
                bytes_opt(d.diskstats),
                base_name(dev),
            ),
            (match d.mounts {
                Some(m) => root_device(m@),
                None => None,
            }) is None ==> r.disk.device_name is None && r.disk.space is None && r.disk.io is None,
            r.engine.hws@.len() == 0,
            r.fan.rpm == first_rpm(bytes_opt(d.fan_rpm)),
            r.fan.profile == first_profile(bytes_opt(d.fan_conf)),
            r.gpu.load == first_load(bytes_opt(d.gpu_load)),
            r.gpu.frequency == gpu_frequency_of(bytes_opt(d.gpu_current), bytes_opt(d.gpu_max)),
            r.memory.mem == (match d.meminfo {
                Some(c) => match meminfo(c@) {
                    Some(v) => Some(mem_of(v)),
                    None => None,
                },
                None => None,
            }),
            r.memory.emc == emc_of(bytes_opt(d.emc_current), bytes_opt(d.emc_max)),
            r.network.interfaces@.len() == 0,
            Seq::new(r.power.channels@.len(), |i: int| channel_view(r.power.channels@[i]))
                == channels_upto(d.rails@, d.rails@.len() as int),
            d.nvp_conf is None ==> r.power.nvpmode is None,
            d.nvp_conf is Some ==> nvp_discovered(
                d.nvp_conf->0@,
                bytes_opt(d.nvp_status),
                r.power.nvpmode,
            ),
            r.system.loadavg == first_loadavg(bytes_opt(d.loadavg)),
            r.system.uptime == first_uptime(bytes_opt(d.uptime)),
            Seq::new(r.thermal.sensors@.len(), |i: int| sensor_view(r.thermal.sensors@[i]))
                == sensors_upto(d.zones@, d.zones@.len() as int),
    {
        let board = Board::new(
            slice_of(&d.board_model),
            slice_of(&d.board_release),
            slice_of(&d.board_bios),
        );
        let cpu = CPU::discover(slice_of(&d.stat), &d.core_frequencies);
        let disk = Disk::new(slice_of(&d.mounts), d.fs_stats, slice_of(&d.diskstats));
        let fan = Fan::new(slice_of(&d.fan_rpm), slice_of(&d.fan_conf));
        let gpu = GPU::new(slice_of(&d.gpu_load), slice_of(&d.gpu_current), slice_of(&d.gpu_max));
        let memory = Memory::new(slice_of(&d.meminfo), slice_of(&d.emc_current), slice_of(&d.emc_max));
        let power = Power::new(slice_of(&d.nvp_conf), slice_of(&d.nvp_status), &d.rails);
        let system = System::new(slice_of(&d.loadavg), slice_of(&d.uptime));
        let thermal = Thermal::new(&d.zones);
        App {
            board,
            cpu,
            disk,
            engine: Engine::new(),
            fan,
            gpu,
            memory,
            network: Network::new(),
            power,
            system,
            thermal,
            running: true,
        }
    }

    /// One tick: refreshes every subsystem in a fixed order, each from its
    /// own readings. Each subsystem's new state depends on its previous state
    /// and its own readings alone; a reading that fails keeps its previous
    /// value, and a part that was absent at discovery stays absent.
    pub fn tick(&mut self, r: &Readings)
        ensures
            final(self).board == old(self).board,
            final(self).running == old(self).running,
            final(self).cpu.has_stat == old(self).cpu.has_stat,
            final(self).cpu.cores@ == cores_after(old(self).cpu, bytes_opt(r.stat), r.core_frequencies@),
            final(self).disk.device_name == old(self).disk.device_name,
            final(self).disk.space == refreshed_space(old(self).disk.space, r.fs_stats),
            old(self).disk.device_name is Some ==> final(self).disk.io == refreshed_io(
                old(self).disk.io,
                bytes_opt(r.diskstats),
                name_view(old(self).disk.device_name),
            ),
            old(self).disk.device_name is None ==> final(self).disk.io == old(self).disk.io,
            final(self).engine.hws@ == engines_upto(r.engines@, 10),
            final(self).fan.rpm == refreshed_rpm(old(self).fan.rpm, bytes_opt(r.fan_rpm)),
            final(self).fan.profile == refreshed_profile(old(self).fan.profile, bytes_opt(r.fan_conf)),
            final(self).gpu.load == refreshed_load(old(self).gpu.load, bytes_opt(r.gpu_load)),
            final(self).gpu.frequency == refreshed_gpu_frequency(
                old(self).gpu.frequency,
                bytes_opt(r.gpu_current),
                bytes_opt(r.gpu_max),
            ),
            final(self).memory.mem == refreshed_mem(old(self).memory.mem, bytes_opt(r.meminfo)),
            final(self).memory.emc == refreshed_emc(
                old(self).memory.emc,
                bytes_opt(r.emc_current),
                bytes_opt(r.emc_max),
            ),
            ifaces_view(final(self).network.interfaces@) == interfaces_of(r.interfaces@),
            final(self).power.nvpmode is Some == old(self).power.nvpmode is Some,
            old(self).power.nvpmode is Some ==> nvp_refreshed(
                old(self).power.nvpmode->0,
                final(self).power.nvpmode->0,
                bytes_opt(r.nvp_status),
            ),
            final(self).power.channels@.len() == old(self).power.channels@.len(),
            forall|i: int|
                0 <= i < old(self).power.channels@.len() ==> #[trigger] final(self).power.channels@[i]
                    == channel_after(old(self).power.channels@[i], pair_at(r.rails@, i)),
            final(self).system.loadavg == refreshed_loadavg(old(self).system.loadavg, bytes_opt(r.loadavg)),
            final(self).system.uptime == refreshed_uptime(old(self).system.uptime, bytes_opt(r.uptime)),
            final(self).thermal.sensors@.len() == old(self).thermal.sensors@.len(),
            forall|i: int|
                0 <= i < old(self).thermal.sensors@.len() ==> #[trigger] final(self).thermal.sensors@[i]
                    == sensor_after(old(self).thermal.sensors@[i], reading_at(r.temperatures@, i)),
    {
        self.cpu.refresh(slice_of(&r.stat), &r.core_frequencies);
        self.disk.refresh(r.fs_stats, slice_of(&r.diskstats));
        self.engine.refresh(&r.engines);
        self.fan.refresh(slice_of(&r.fan_rpm), slice_of(&r.fan_conf));
        self.gpu.refresh(slice_of(&r.gpu_load), slice_of(&r.gpu_current), slice_of(&r.gpu_max));
        self.memory.refresh(slice_of(&r.meminfo), slice_of(&r.emc_current), slice_of(&r.emc_max));
        self.network.refresh(&r.interfaces);
        self.power.refresh(slice_of(&r.nvp_status), &r.rails);
        self.system.refresh(slice_of(&r.loadavg), slice_of(&r.uptime));
        self.thermal.refresh(&r.temperatures);
    }

    /// Stops the program at the next check of the running flag.
    pub fn quit(&mut self)
        ensures
            !final(self).running,
    {
        self.running = false;
    }
}

} // verus!
