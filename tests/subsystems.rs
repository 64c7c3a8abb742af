use tegratop::board::{parse_bios, parse_l4t, Board};
use tegratop::cpu::{parse_stat, CPU};
use tegratop::disk::{device_base_name, parse_diskstats, Disk, DiskSpace};
use tegratop::engine::{Engine, HWName, HWState};
use tegratop::fan::{parse_profile, Fan, Profile};
use tegratop::gpu::{is_gpu_node, parse_gpu_load, GPU};
use tegratop::memory::{clock_rate_mhz, parse_meminfo, EMC, Mem, Memory};
use tegratop::network::Network;
use tegratop::power::{channel_index, is_power_monitor, parse_modes, parse_status, Channel, NVPMode, Power};
use tegratop::system::{parse_hundredths, parse_loadavg, parse_uptime, System};
use tegratop::thermal::{is_thermal_zone, parse_sensor_name, Sensor, Thermal};

const STAT: &[u8] = b"cpu  10 0 10 100 0 0 0 0 0 0\n\
cpu0 100 0 100 800 0 0 0 0 0 0\n\
cpu1 50 0 50 900 0 0 0 0 0 0\n\
intr 12345\n";

const STAT_NEXT: &[u8] = b"cpu  10 0 10 100 0 0 0 0 0 0\n\
cpu0 300 0 300 1400 0 0 0 0 0 0\n\
cpu1 50 0 50 1900 0 0 0 0 0 0\n\
intr 12345\n";

#[test]
fn stat_lines_read_per_core() {
    let samples = parse_stat(STAT).unwrap();
    assert_eq!(samples.len(), 2);
    assert_eq!(samples[0].name, b"cpu0".to_vec());
    assert_eq!(samples[0].idle_time, 800);
    assert_eq!(samples[0].total_time, 1000);
    assert_eq!(samples[1].total_time, 1000);
}

#[test]
fn stat_with_short_core_line_fails() {
    assert!(parse_stat(b"cpu 1 2 3 4 5 6 7 8 9 10\ncpu0 1 2 3\n").is_none());
    assert!(parse_stat(b"cpu 1 2 3 4 5 6 7 8 9 10\ncpu0 1 2 3 4 5 6 7 8 9 x\n").is_none());
}

#[test]
fn cpu_utilization_after_two_samples() {
    let mut cpu = CPU::new(Some(STAT));
    assert!(cpu.has_stat);
    assert_eq!(cpu.cores[0].utilization, 0);
    assert!(cpu.refresh_utilization(Some(STAT_NEXT)));
    // cpu0: total 1000 -> 2000, idle 800 -> 1400: 100 * (1000 - 600) / 1000 = 40.0
    assert_eq!(cpu.cores[0].utilization, 400);
    // cpu1: total 1000 -> 2000, idle 900 -> 1900: 0.0
    assert_eq!(cpu.cores[1].utilization, 0);
    assert_eq!(cpu.cores[0].total_time, 2000);
}

#[test]
fn cpu_counter_reset_starts_new_baseline() {
    let mut cpu = CPU::new(Some(STAT_NEXT));
    assert!(cpu.refresh_utilization(Some(STAT)));
    assert_eq!(cpu.cores[0].utilization, 0);
    assert_eq!(cpu.cores[0].total_time, 1000);
}

#[test]
fn cpu_bad_stat_keeps_values() {
    let mut cpu = CPU::new(Some(STAT));
    cpu.refresh_utilization(Some(STAT_NEXT));
    assert!(!cpu.refresh_utilization(Some(&b"cpu 1\ncpu0 garbage\n"[..])));
    assert_eq!(cpu.cores[0].utilization, 400);
    assert!(!cpu.refresh_utilization(None));
    assert_eq!(cpu.cores[0].total_time, 2000);
}

#[test]
fn cpu_frequency_in_mhz() {
    let mut cpu = CPU::new(Some(STAT));
    cpu.init_frequency(&vec![Some(b"1300000\n".to_vec()), None]);
    assert_eq!(cpu.cores[0].frequency, Some(1300));
    assert_eq!(cpu.cores[1].frequency, None);
    cpu.refresh_frequency(&vec![Some(b"2035200\n".to_vec()), Some(b"1000000\n".to_vec())]);
    assert_eq!(cpu.cores[0].frequency, Some(2035));
    assert_eq!(cpu.cores[1].frequency, None);
    cpu.refresh_frequency(&vec![Some(b"oops\n".to_vec())]);
    assert_eq!(cpu.cores[0].frequency, Some(2035));
}

#[test]
fn cpu_without_stat_has_no_cores() {
    let cpu = CPU::new(None);
    assert!(!cpu.has_stat);
    assert!(cpu.cores.is_empty());
}

const MEMINFO: &[u8] = b"MemTotal:        8000000 kB\n\
MemFree:         4000000 kB\n\
MemAvailable:    5000000 kB\n\
Buffers:          100000 kB\n\
Cached:           500000 kB\n\
SwapCached:            0 kB\n\
Shmem:             50000 kB\n\
SReclaimable:      50000 kB\n\
SwapTotal:       4000000 kB\n\
SwapFree:        3000000 kB\n";

#[test]
fn memory_usage_example() {
    let v = parse_meminfo(MEMINFO).unwrap();
    let m = Mem::from_values(&v);
    // ((8000000 - 4000000) - (100000 + (500000 + 50000 - 50000))) / 1024 = 3320.3125
    assert_eq!(m.used_ram, 3320);
    assert_eq!(m.total_ram, 7813);
    assert_eq!(m.total_swap, 3906);
    // (4000000 - 3000000) / 1024 = 976.5625
    assert_eq!(m.used_swap, 977);
}

#[test]
fn meminfo_bad_value_fails() {
    assert!(parse_meminfo(b"MemTotal: lots kB\n").is_none());
    let v = parse_meminfo(b"Unrelated: x\n").unwrap();
    assert_eq!(v, [0u64; 8]);
}

#[test]
fn memory_refresh_keeps_values_on_failure() {
    let mut m = Mem::new(Some(MEMINFO)).unwrap();
    assert!(!m.refresh(Some(&b"MemFree: ???\n"[..])));
    assert_eq!(m.used_ram, 3320);
    assert!(m.refresh(Some(&b"MemTotal: 2048 kB\nMemFree: 1024 kB\n"[..])));
    assert_eq!(m.total_ram, 2);
    assert_eq!(m.used_ram, 1);
}

#[test]
fn emc_reads_both_rates_together() {
    let mut e = EMC::init(Some(&b"1600000000\n"[..]), Some(&b"2133000000\n"[..])).unwrap();
    assert_eq!(e.current_frequency, 1600);
    assert_eq!(e.max_frequency, 2133);
    assert!(!e.refresh(Some(&b"204000000\n"[..]), Some(&b"bad\n"[..])));
    assert_eq!(e.current_frequency, 1600);
    assert!(EMC::init(None, Some(&b"1\n"[..])).is_none());
    assert_eq!(clock_rate_mhz(b"1300000000\n"), Some(1300));
}

#[test]
fn memory_absent_parts_stay_absent() {
    let mut mem = Memory::new(None, None, None);
    mem.refresh(Some(MEMINFO), Some(&b"1\n"[..]), Some(&b"2\n"[..]));
    assert!(mem.mem.is_none());
    assert!(mem.emc.is_none());
}

const MOUNTS: &[u8] = b"sysfs /sys sysfs rw 0 0\n/dev/mmcblk0p1 / ext4 rw,relatime 0 0\n";

fn diskstats(reads: u64, writes: u64) -> Vec<u8> {
    format!(
        "   1       0 ram0 0 0 0 0 0 0 0 0 0 0 0\n 179       1 mmcblk0p1 10 0 {} 0 20 0 {} 0 0 0 0\n",
        reads, writes
    )
    .into_bytes()
}

#[test]
fn root_device_from_mounts() {
    assert_eq!(Disk::root_device_name(MOUNTS), Some(b"/dev/mmcblk0p1".to_vec()));
    assert_eq!(Disk::root_device_name(b"sysfs /sys sysfs rw 0 0\n"), None);
    assert_eq!(device_base_name(b"/dev/mmcblk0p1"), b"mmcblk0p1".to_vec());
    assert_eq!(device_base_name(b"overlay"), b"overlay".to_vec());
}

#[test]
fn diskstats_line_of_device() {
    let d = diskstats(204_800, 1_024);
    assert_eq!(parse_diskstats(&d, b"mmcblk0p1"), Some(Some((204_800, 1_024))));
    assert_eq!(parse_diskstats(&d, b"sda"), Some(None));
    assert_eq!(parse_diskstats(b"8 0 sda 1 2\n", b"sda"), None);
}

#[test]
fn disk_reports_sectors_moved_per_tick() {
    // 100 MB -> 150 MB read: 204800 -> 307200 sectors of 512 bytes.
    let first = diskstats(204_800, 0);
    let mut disk = Disk::new(Some(MOUNTS), Some((1000, 500, 4096)), Some(first.as_slice()));
    assert_eq!(disk.device_name, Some(b"mmcblk0p1".to_vec()));
    let io = disk.io.as_ref().unwrap();
    assert_eq!((io.reads, io.read_delta), (204_800, 0));
    let next = diskstats(307_200, 2_048);
    disk.refresh(Some((1000, 400, 4096)), Some(next.as_slice()));
    let io = disk.io.as_ref().unwrap();
    assert_eq!(io.read_delta, 102_400);
    // 102400 sectors * 512 bytes = 50 MB.
    assert_eq!(io.read_delta * 512 / 1024 / 1024, 50);
    assert_eq!(io.write_delta, 2_048);
    let space = disk.space.as_ref().unwrap();
    assert_eq!(space.total, 4_096_000);
    assert_eq!(space.available, 1_638_400);
}

#[test]
fn disk_without_root_device_is_absent() {
    let mut disk = Disk::new(Some(&b"sysfs /sys sysfs rw 0 0\n"[..]), Some((1, 1, 1)), Some(&b""[..]));
    assert!(disk.device_name.is_none() && disk.space.is_none() && disk.io.is_none());
    disk.refresh(Some((1, 1, 1)), Some(diskstats(1, 1).as_slice()));
    assert!(disk.space.is_none() && disk.io.is_none());
}

#[test]
fn disk_space_in_bytes() {
    let s = DiskSpace::from_stats(u64::MAX, 0, 4096);
    assert_eq!(s.total, u64::MAX as u128 * 4096);
    assert_eq!(s.available, 0);
}

#[test]
fn gpu_node_names() {
    assert!(is_gpu_node(b"17000000.gv11b"));
    assert!(is_gpu_node(b"17000000.ga10b"));
    assert!(is_gpu_node(b"57000000.gpu"));
    assert!(!is_gpu_node(b"15340000.vic"));
    assert!(!is_gpu_node(b""));
}

#[test]
fn gpu_load_and_frequency() {
    assert_eq!(parse_gpu_load(b"455\n"), Some(46));
    let mut g = GPU::new(Some(&b"0\n"[..]), Some(&b"114750000\n"[..]), Some(&b"1300500000\n"[..]));
    assert_eq!(g.load, Some(0));
    let f = g.frequency.as_ref().unwrap();
    assert_eq!((f.current_frequency, f.max_frequency), (114, 1300));
    g.refresh(Some(&b"999\n"[..]), Some(&b"x\n"[..]), Some(&b"1\n"[..]));
    assert_eq!(g.load, Some(100));
    assert_eq!(g.frequency.as_ref().unwrap().current_frequency, 114);
}

#[test]
fn fan_profile_from_configuration() {
    assert_eq!(parse_profile(b"# comment\nFAN_DEFAULT_PROFILE quiet\n"), Some(Profile::Quiet));
    assert_eq!(parse_profile(b"FAN_DEFAULT_PROFILE cool\n"), Some(Profile::Cool));
    assert_eq!(parse_profile(b"FAN_DEFAULT_PROFILE loud\n"), Some(Profile::Unknown));
    assert_eq!(parse_profile(b"FAN_DEFAULT_PROFILE\n"), None);
    let mut fan = Fan::new(Some(&b"2500\n"[..]), None);
    assert_eq!(fan.rpm, Some(2500));
    fan.refresh(Some(&b"3000\n"[..]), Some(&b"FAN_DEFAULT_PROFILE cool\n"[..]));
    assert_eq!(fan.rpm, Some(3000));
    assert_eq!(fan.profile, None);
}

#[test]
fn board_identity() {
    let b = Board::new(
        Some(&b"NVIDIA Jetson Xavier NX"[..]),
        Some(&b"# R32 (release), REVISION: 7.1, GCID: 29818004, BOARD: t186ref\n"[..]),
        None,
    );
    assert_eq!(b.name, Some(b"NVIDIA Jetson Xavier NX".to_vec()));
    assert_eq!(b.l4t, Some(b"32.7.1".to_vec()));
    assert_eq!(b.bios, None);
    assert_eq!(parse_l4t(b"R35 (release)\n"), None);
    assert_eq!(parse_bios(b"36.4.3-gcid-38968081\n"), b"36.4.3".to_vec());
    assert_eq!(Board::new(None, None, Some(&b"5.1\n"[..])).bios, Some(b"5.1\n".to_vec()));
}

const NVPMODEL: &[u8] = b"< POWER_MODEL ID=0 NAME=15W >\nCPU_ONLINE CORE_0 1\n\
< POWER_MODEL ID=1 NAME=10W >\n< POWER_MODEL ID=2 NAME=20W >\n< PM_CONFIG DEFAULT=2 >\n";

#[test]
fn power_modes_from_configuration() {
    let modes = parse_modes(NVPMODEL).unwrap();
    let ids: Vec<u8> = modes.iter().map(|m| m.id).collect();
    assert_eq!(ids, vec![0, 1, 2]);
    assert_eq!(modes[1].name, b"10".to_vec());
    assert!(parse_modes(b"< POWER_MODEL ID=300 NAME=15W >\n").is_none());
    assert_eq!(parse_status(b"pmode:0001\n"), Some(1));
    assert_eq!(parse_status(b"0001\n"), None);
}

#[test]
fn power_mode_from_status_or_default() {
    let mut n = NVPMode::init(NVPMODEL, Some(&b"pmode:0001\n"[..])).unwrap();
    assert!(n.tracking);
    assert_eq!(n.mode.id, 1);
    n.refresh(Some(&b"pmode:0000\n"[..]));
    assert_eq!(n.mode.id, 0);
    n.refresh(Some(&b"pmode:0009\n"[..]));
    assert_eq!(n.mode.id, 0);
    let d = NVPMode::init(NVPMODEL, None).unwrap();
    assert!(!d.tracking);
    assert_eq!(d.mode.id, 2);
    assert_eq!(d.mode.name, b"20".to_vec());
    assert!(NVPMode::init(NVPMODEL, Some(&b"garbage\n"[..])).is_none());
    assert!(NVPMode::init(b"< POWER_MODEL ID=0 NAME=15W >\n", None).is_none());
}

#[test]
fn power_rails() {
    assert!(is_power_monitor(b"ina3221\n"));
    assert!(!is_power_monitor(b"tmp451\n"));
    assert_eq!(channel_index(b"in1_label"), Some(1));
    assert_eq!(channel_index(b"in7_label"), Some(7));
    assert_eq!(channel_index(b"curr1_input"), None);
    assert_eq!(channel_index(b"in_label"), None);
    let mut c = Channel::init(b"VDD_IN\n", b"1000\n", b"5000\n").unwrap();
    assert_eq!(c.name, b"VDD_IN".to_vec());
    assert_eq!(c.power, 5000);
    assert!(!c.refresh(b"1000\n", b"-1\n"));
    assert_eq!(c.power, 5000);
    let mut p = Power::new(
        None,
        None,
        &vec![
            (b"VDD_IN\n".to_vec(), b"1000\n".to_vec(), b"5000\n".to_vec()),
            (b"VDD_CPU\n".to_vec(), b"x\n".to_vec(), b"5000\n".to_vec()),
        ],
    );
    assert_eq!(p.channels.len(), 1);
    assert!(p.nvpmode.is_none());
    p.refresh(None, &vec![Some((b"500\n".to_vec(), b"5000\n".to_vec()))]);
    assert_eq!(p.channels[0].power, 2500);
}

#[test]
fn thermal_sensors() {
    assert!(is_thermal_zone(b"thermal_zone3"));
    assert!(!is_thermal_zone(b"cooling_device0"));
    assert_eq!(parse_sensor_name(b"CPU-therm\n"), b"CPU".to_vec());
    assert_eq!(parse_sensor_name(b" GPU \n"), b"GPU".to_vec());
    let s = Sensor::init(b"Tboard_tegra\n", b"-2500\n").unwrap();
    assert_eq!(s.temperature, -2500);
    let mut t = Thermal::new(&vec![
        (b"CPU-therm\n".to_vec(), b"45500\n".to_vec()),
        (b"broken\n".to_vec(), b"n/a\n".to_vec()),
        (b"GPU-therm\n".to_vec(), b"44000\n".to_vec()),
    ]);
    assert_eq!(t.sensors.len(), 2);
    assert_eq!(t.sensors[1].name, b"GPU".to_vec());
    t.refresh(&vec![None, Some(b"46000\n".to_vec())]);
    assert_eq!(t.sensors[0].temperature, 45500);
    assert_eq!(t.sensors[1].temperature, 46000);
}

#[test]
fn system_uptime_and_load() {
    let u = parse_uptime(b"90061.52 350000.10\n").unwrap();
    assert_eq!((u.days, u.hours, u.minutes, u.seconds), (1, 1, 1, 1));
    assert!(parse_uptime(b"abc\n").is_none());
    let l = parse_loadavg(b"0.52 1.58 10.09 1/123 4567\n").unwrap();
    assert_eq!((l.one, l.five, l.fifteen), (52, 158, 1009));
    assert!(parse_loadavg(b"0.52 1.58\n").is_none());
    assert_eq!(parse_hundredths(b"3.5"), None);
    let mut s = System::new(None, Some(&b"59.99 1.00\n"[..]));
    assert!(s.loadavg.is_none());
    s.refresh(Some(&b"0.10 0.20 0.30 1/1 1\n"[..]), Some(&b"3600.00 1.00\n"[..]));
    assert!(s.loadavg.is_none());
    assert_eq!(s.uptime.unwrap().hours, 1);
}

#[test]
fn engines_found_in_order() {
    let names = HWName::all();
    assert_eq!(names.len(), 10);
    assert_eq!(names[0].dir_name(), b"ape".to_vec());
    assert_eq!(HWName::NVJPG.dir_name(), b"nvjpg".to_vec());
    let mut probes: Vec<Option<(Vec<u8>, Vec<u8>)>> = vec![None; 10];
    probes[1] = Some((b"1\n".to_vec(), b"1395200000\n".to_vec()));
    probes[9] = Some((b"0\n".to_vec(), b"115200000\n".to_vec()));
    probes[3] = Some((b"1\n".to_vec(), b"fast\n".to_vec()));
    let mut e = Engine::new();
    e.refresh(&probes);
    assert_eq!(e.hws.len(), 2);
    assert_eq!(e.hws[0].name, HWName::DLA);
    assert_eq!(e.hws[0].state, HWState::Running);
    assert_eq!(e.hws[0].frequency, 1395);
    assert_eq!(e.hws[1].name, HWName::VIC);
    assert_eq!(e.hws[1].state, HWState::Idle);
}

#[test]
fn network_interfaces() {
    let mut n = Network::new();
    n.refresh(&vec![
        (b"lo".to_vec(), None),
        (b"eth0".to_vec(), None),
        (b"lo".to_vec(), Some(0x7f00_0001)),
        (b"eth0".to_vec(), Some(0xc0a8_0102)),
        (b"wlan0".to_vec(), None),
        (b"eth0".to_vec(), None),
    ]);
    assert_eq!(n.interfaces.len(), 2);
    assert_eq!(n.interfaces[0].name, b"eth0".to_vec());
    assert_eq!(n.interfaces[0].ipv4, Some(0xc0a8_0102));
    assert_eq!(n.interfaces[1].name, b"wlan0".to_vec());
    assert_eq!(n.interfaces[1].ipv4, None);
}
