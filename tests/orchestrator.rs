use tegratop::app::{App, Discovery, Readings};

fn text(s: &str) -> Option<Vec<u8>> {
    Some(s.as_bytes().to_vec())
}

fn empty_discovery() -> Discovery {
    Discovery {
        board_model: None,
        board_release: None,
        board_bios: None,
        stat: None,
        core_frequencies: Vec::new(),
        mounts: None,
        fs_stats: None,
        diskstats: None,
        fan_rpm: None,
        fan_conf: None,
        gpu_load: None,
        gpu_current: None,
        gpu_max: None,
        meminfo: None,
        emc_current: None,
        emc_max: None,
        nvp_conf: None,
        nvp_status: None,
        rails: Vec::new(),
        loadavg: None,
        uptime: None,
        zones: Vec::new(),
    }
}

fn full_discovery() -> Discovery {
    Discovery {
        board_model: text("Jetson"),
        stat: text("cpu 1 1 1 1 1 1 1 1 1 1\ncpu0 100 0 100 800 0 0 0 0 0 0\n"),
        core_frequencies: vec![text("1300000\n")],
        mounts: text("/dev/nvme0n1p1 / ext4 rw 0 0\n"),
        fs_stats: Some((100, 50, 4096)),
        diskstats: text(" 259 1 nvme0n1p1 1 0 204800 0 1 0 0 0 0 0 0\n"),
        fan_rpm: text("2000\n"),
        gpu_load: text("500\n"),
        gpu_current: text("300000000\n"),
        gpu_max: text("900000000\n"),
        meminfo: text("MemTotal: 8000000 kB\nMemFree: 4000000 kB\n"),
        loadavg: text("0.10 0.20 0.30 1/1 1\n"),
        uptime: text("100.00 1.00\n"),
        zones: vec![(b"CPU-therm\n".to_vec(), b"40000\n".to_vec())],
        ..empty_discovery()
    }
}

fn readings() -> Readings {
    Readings {
        stat: text("cpu 1 1 1 1 1 1 1 1 1 1\ncpu0 300 0 300 1400 0 0 0 0 0 0\n"),
        core_frequencies: vec![text("2035200\n")],
        fs_stats: Some((100, 40, 4096)),
        diskstats: text(" 259 1 nvme0n1p1 1 0 307200 0 1 0 0 0 0 0 0\n"),
        engines: vec![None; 10],
        fan_rpm: text("2500\n"),
        fan_conf: text("FAN_DEFAULT_PROFILE cool\n"),
        gpu_load: text("755\n"),
        gpu_current: text("600000000\n"),
        gpu_max: text("900000000\n"),
        meminfo: text("MemTotal: 8000000 kB\nMemFree: 2000000 kB\n"),
        emc_current: text("1600000000\n"),
        emc_max: text("2133000000\n"),
        interfaces: vec![(b"eth0".to_vec(), Some(0x0a00_0001))],
        nvp_status: text("pmode:0000\n"),
        rails: Vec::new(),
        loadavg: text("1.10 1.20 1.30 1/1 1\n"),
        uptime: text("3700.00 1.00\n"),
        temperatures: vec![text("41000\n")],
    }
}

#[test]
fn absent_subsystems_stay_absent() {
    let mut app = App::new(&empty_discovery());
    assert!(app.running);
    app.tick(&readings());
    app.tick(&readings());
    assert!(!app.cpu.has_stat && app.cpu.cores.is_empty());
    assert!(app.disk.device_name.is_none() && app.disk.space.is_none() && app.disk.io.is_none());
    assert!(app.fan.rpm.is_none() && app.fan.profile.is_none());
    assert!(app.gpu.load.is_none() && app.gpu.frequency.is_none());
    assert!(app.memory.mem.is_none() && app.memory.emc.is_none());
    assert!(app.power.nvpmode.is_none() && app.power.channels.is_empty());
    assert!(app.system.loadavg.is_none() && app.system.uptime.is_none());
    assert!(app.thermal.sensors.is_empty());
    assert!(app.board.name.is_none());
    // Interfaces are listed afresh on every tick.
    assert_eq!(app.network.interfaces.len(), 1);
}

#[test]
fn tick_refreshes_every_present_subsystem() {
    let mut app = App::new(&full_discovery());
    app.tick(&readings());
    assert_eq!(app.cpu.cores[0].utilization, 400);
    assert_eq!(app.cpu.cores[0].frequency, Some(2035));
    assert_eq!(app.disk.io.as_ref().unwrap().read_delta, 102_400);
    assert_eq!(app.disk.space.as_ref().unwrap().available, 40 * 4096);
    assert_eq!(app.fan.rpm, Some(2500));
    assert_eq!(app.gpu.load, Some(76));
    assert_eq!(app.gpu.frequency.as_ref().unwrap().current_frequency, 600);
    assert_eq!(app.memory.mem.as_ref().unwrap().used_ram, 5859);
    assert_eq!(app.system.loadavg.unwrap().one, 110);
    assert_eq!(app.system.uptime.unwrap().hours, 1);
    assert_eq!(app.thermal.sensors[0].temperature, 41000);
    assert_eq!(app.board.name, Some(b"Jetson".to_vec()));
}

#[test]
fn parse_failure_is_isolated() {
    let mut app = App::new(&full_discovery());
    let mut r = readings();
    r.meminfo = text("MemTotal: not-a-number kB\n");
    r.gpu_load = None;
    app.tick(&r);
    // The failing metrics keep their discovery values ...
    assert_eq!(app.memory.mem.as_ref().unwrap().used_ram, 3906);
    assert_eq!(app.gpu.load, Some(50));
    // ... while their siblings update normally.
    assert_eq!(app.gpu.frequency.as_ref().unwrap().current_frequency, 600);
    assert_eq!(app.system.loadavg.unwrap().one, 110);
    assert_eq!(app.cpu.cores[0].utilization, 400);
    assert_eq!(app.fan.rpm, Some(2500));
}

#[test]
fn unchanged_content_gives_same_values() {
    let mut app = App::new(&full_discovery());
    app.tick(&readings());
    let mem = app.memory.mem.as_ref().unwrap().used_ram;
    let load = app.gpu.load;
    let temp = app.thermal.sensors[0].temperature;
    let freq = app.cpu.cores[0].frequency;
    let uptime = app.system.uptime;
    app.tick(&readings());
    assert_eq!(app.memory.mem.as_ref().unwrap().used_ram, mem);
    assert_eq!(app.gpu.load, load);
    assert_eq!(app.thermal.sensors[0].temperature, temp);
    assert_eq!(app.cpu.cores[0].frequency, freq);
    assert_eq!(app.system.uptime, uptime);
    // Counters that did not move report no activity.
    assert_eq!(app.disk.io.as_ref().unwrap().read_delta, 0);
    assert_eq!(app.cpu.cores[0].utilization, 0);
}

#[test]
fn quit_stops_running() {
    let mut app = App::new(&empty_discovery());
    app.quit();
    assert!(!app.running);
}
