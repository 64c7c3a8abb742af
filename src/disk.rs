//! Root filesystem: its block device, the space on it, and the sectors read
//! and written per interval from `/proc/diskstats`.
use vstd::prelude::*;
use crate::metric::{delta, counter_delta};
use crate::memory::opt_view;
use crate::pattern::copy_range;
use crate::text::{
    is_decimal, decimal_value, lines, words, views, split_lines, split_words, bytes_eq,
    parse_decimal,
};

verus! {

/// Index of the first line at `i` or later whose words say that its first
/// word is mounted on "/", or -1.
pub open spec fn root_line(ls: Seq<Seq<u8>>, i: int) -> int
    decreases ls.len() - i,
{
    if i < 0 || i >= ls.len() {
        -1
    } else if words(ls[i]).len() >= 2 && words(ls[i])[1] == seq![47u8] {
        i
    } else {
        root_line(ls, i + 1)
    }
}

/// The device mounted on "/" according to `/proc/mounts`, if any.
pub open spec fn root_device(mounts: Seq<u8>) -> Option<Seq<u8>> {
    let k = root_line(lines(mounts), 0);
    if k < 0 {
        None
    } else {
        Some(words(lines(mounts)[k])[0])
    }
}

/// Position just after the last '/' of `s` among its first `n` bytes, or 0.
pub open spec fn base_start(s: Seq<u8>, n: int) -> int
    decreases n,
{
    if n <= 0 {
        0
    } else if s[n - 1] == 47 {
        n
    } else {
        base_start(s, n - 1)
    }
}

/// The last component of a device path: "/dev/mmcblk0p1" gives "mmcblk0p1".
pub open spec fn base_name(s: Seq<u8>) -> Seq<u8> {
    s.subrange(base_start(s, s.len() as int), s.len() as int)
}

proof fn lemma_base_start_range(s: Seq<u8>, n: int)
    requires
        0 <= n <= s.len(),
    ensures
        0 <= base_start(s, n) <= n,
    decreases n,
{
    if n > 0 {
        lemma_base_start_range(s, n - 1);
    }
}

pub fn device_base_name(s: &[u8]) -> (r: Vec<u8>)
    ensures
        r@ == base_name(s@),
{
    let mut n: usize = s.len();
    while n > 0 && s[n - 1] != 47
        invariant
            n <= s.len(),
            base_start(s@, s@.len() as int) == base_start(s@, n as int),
        decreases n,
    {
        n -= 1;
    }
    copy_range(s, n, s.len())
}

/// Index of the first line at `i` or later whose third word is `dev`, or -1.
pub open spec fn device_line(ls: Seq<Seq<u8>>, dev: Seq<u8>, i: int) -> int
    decreases ls.len() - i,
{
    if i < 0 || i >= ls.len() {
        -1
    } else if words(ls[i]).len() >= 3 && words(ls[i])[2] == dev {
        i
    } else {
        device_line(ls, dev, i + 1)
    }
}

pub open spec fn u64_word(w: Seq<u8>) -> bool {
    is_decimal(w) && decimal_value(w) <= u64::MAX
}

/// Sectors read and written by `dev` according to `/proc/diskstats`: the
/// sixth and tenth words of its line. `Some(None)` where no line names the
/// device; `None` where its line does not read.
pub open spec fn disk_sectors(content: Seq<u8>, dev: Seq<u8>) -> Option<Option<(u64, u64)>> {
    let ls = lines(content);
    let k = device_line(ls, dev, 0);
    if k < 0 {
        Some(None)
    } else {
        let ws = words(ls[k]);
        if ws.len() >= 10 && u64_word(ws[5]) && u64_word(ws[9]) {
            Some(Some((decimal_value(ws[5]) as u64, decimal_value(ws[9]) as u64)))
        } else {
            None
        }
    }
}

pub fn parse_diskstats(content: &[u8], dev: &[u8]) -> (r: Option<Option<(u64, u64)>>)
    ensures
        r == disk_sectors(content@, dev@),
{
    let ls = split_lines(content);
    let ghost l = views(ls@);
    let mut i: usize = 0;
    while i < ls.len()
        invariant
            i <= ls.len(),
            l == views(ls@),
            l == lines(content@),
            device_line(l, dev@, 0) == device_line(l, dev@, i as int),
        decreases ls.len() - i,
    {
        assert(ls[i as int]@ == l[i as int]);
        let ws = split_words(ls[i].as_slice());
        if ws.len() >= 3 {
            assert(ws[2]@ == views(ws@)[2]);
            if bytes_eq(ws[2].as_slice(), dev) {
                if ws.len() < 10 {
                    return None;
                }
                assert(ws[5]@ == views(ws@)[5] && ws[9]@ == views(ws@)[9]);
                return match (parse_decimal(ws[5].as_slice()), parse_decimal(ws[9].as_slice())) {
                    (Some(rd), Some(wr)) => Some(Some((rd, wr))),
                    _ => None,
                };
            }
        }
        i += 1;
    }
    Some(None)
}

/// Space on the root filesystem, in bytes.
pub struct DiskSpace {
    pub total: u128,
    pub available: u128,
}

/// The space that a filesystem-statistics result gives: blocks, available
/// blocks and fragment size.
pub open spec fn space_of(blocks: u64, bavail: u64, frsize: u64) -> DiskSpace {
    DiskSpace {
        total: (blocks * frsize) as u128,
        available: (bavail * frsize) as u128,
    }
}

impl DiskSpace {
    pub fn from_stats(blocks: u64, bavail: u64, frsize: u64) -> (r: DiskSpace)
        ensures
            r == space_of(blocks, bavail, frsize),
    {
        proof {
            assert((blocks as int) * (frsize as int) <= u128::MAX) by (nonlinear_arith)
                requires
                    blocks <= u64::MAX,
                    frsize <= u64::MAX,
            ;
            assert((bavail as int) * (frsize as int) <= u128::MAX) by (nonlinear_arith)
                requires
                    bavail <= u64::MAX,
                    frsize <= u64::MAX,
            ;
        }
        DiskSpace {
            total: blocks as u128 * frsize as u128,
            available: bavail as u128 * frsize as u128,
        }
    }
}

/// Cumulative sectors read and written (512 bytes each), and what each
/// advanced by over the last interval.
pub struct DiskIO {
    pub reads: u64,
    pub writes: u64,
    pub read_delta: u64,
    pub write_delta: u64,
}

/// The counters after a new `/proc/diskstats` reading: a line for the device
/// becomes the new baseline and the deltas are taken against the old one;
/// without such a line the baseline stays and nothing advanced.
pub open spec fn advance_io(io: DiskIO, sample: Option<(u64, u64)>) -> DiskIO {
    match sample {
        Some((rd, wr)) => DiskIO {
            reads: rd,
            writes: wr,
            read_delta: delta(io.reads as int, rd as int) as u64,
            write_delta: delta(io.writes as int, wr as int) as u64,
        },
        None => DiskIO { reads: io.reads, writes: io.writes, read_delta: 0, write_delta: 0 },
    }
}

/// The root filesystem's device (its base name), space and I/O counters;
/// each part present only where discovery found it.
pub struct Disk {
    pub device_name: Option<Vec<u8>>,
    pub space: Option<DiskSpace>,
    pub io: Option<DiskIO>,
}

pub open spec fn stats_view(s: Option<(u64, u64, u64)>) -> Option<DiskSpace> {
    match s {
        Some((b, a, f)) => Some(space_of(b, a, f)),
        None => None,
    }
}

/// The I/O counters at discovery: the first sample (zero where the device
/// has no line yet) with nothing advanced.
pub open spec fn first_io(content: Option<Seq<u8>>, dev: Seq<u8>) -> Option<DiskIO> {
    match content {
        Some(c) => match disk_sectors(c, dev) {
            Some(Some((rd, wr))) => Some(DiskIO { reads: rd, writes: wr, read_delta: 0, write_delta: 0 }),
            Some(None) => Some(DiskIO { reads: 0, writes: 0, read_delta: 0, write_delta: 0 }),
            None => None,
        },
        None => None,
    }
}

pub open spec fn refreshed_space(s: Option<DiskSpace>, stats: Option<(u64, u64, u64)>) -> Option<DiskSpace> {
    match (s, stats) {
        (Some(_), Some((b, a, f))) => Some(space_of(b, a, f)),
        _ => s,
    }
}

pub open spec fn refreshed_io(io: Option<DiskIO>, content: Option<Seq<u8>>, dev: Seq<u8>) -> Option<DiskIO> {
    match (io, content) {
        (Some(x), Some(c)) => match disk_sectors(c, dev) {
            Some(sample) => Some(advance_io(x, sample)),
            None => io,
        },
        _ => io,
    }
}

pub open spec fn name_view(d: Option<Vec<u8>>) -> Seq<u8> {
    match d {
        Some(v) => v@,
        None => Seq::empty(),
    }
}

impl Disk {
    /// The device mounted on "/" according to the content of `/proc/mounts`.
    pub fn root_device_name(mounts: &[u8]) -> (r: Option<Vec<u8>>)
        ensures
            match r {
                Some(d) => root_device(mounts@) == Some(d@),
                None => root_device(mounts@) is None,
            },
    {
        let ls = split_lines(mounts);
        let ghost l = views(ls@);
        let slash: [u8; 1] = [47u8];
        assert(slash@ == seq![47u8]);
        let mut i: usize = 0;
        while i < ls.len()
            invariant
                i <= ls.len(),
                l == views(ls@),
                l == lines(mounts@),
                slash@ == seq![47u8],
                root_line(l, 0) == root_line(l, i as int),
            decreases ls.len() - i,
        {
            assert(ls[i as int]@ == l[i as int]);
            let ws = split_words(ls[i].as_slice());
            if ws.len() >= 2 {
                assert(ws[1]@ == views(ws@)[1]);
                if bytes_eq(ws[1].as_slice(), slash.as_slice()) {
                    assert(ws[0]@ == views(ws@)[0]);
                    return Some(ws[0].clone());
                }
            }
            i += 1;
        }
        None
    }

    /// Discovery: the root device from `/proc/mounts`, then its space and
    /// counters. Without a root device every part is absent.
    pub fn new(mounts: Option<&[u8]>, stats: Option<(u64, u64, u64)>, diskstats: Option<&[u8]>) -> (r: Disk)
        ensures
            (match mounts {
                Some(m) => root_device(m@),
                None => None,
            }) matches Some(dev) ==> r.device_name is Some && name_view(r.device_name) == base_name(dev)
                && r.space == stats_view(stats) && r.io == first_io(opt_view(diskstats), base_name(dev)),
            (match mounts {
                Some(m) => root_device(m@),
                None => None,
            }) is None ==> r.device_name is None && r.space is None && r.io is None,
    {
        let dev = match mounts {
            Some(m) => match Disk::root_device_name(m) {
                Some(d) => d,
                None => return Disk { device_name: None, space: None, io: None },
            },
            None => return Disk { device_name: None, space: None, io: None },
        };
        let name = device_base_name(dev.as_slice());
        let space = match stats {
            Some((b, a, f)) => Some(DiskSpace::from_stats(b, a, f)),
            None => None,
        };
        let io = match diskstats {
            Some(c) => match parse_diskstats(c, name.as_slice()) {
                Some(Some((rd, wr))) => Some(DiskIO { reads: rd, writes: wr, read_delta: 0, write_delta: 0 }),
                Some(None) => Some(DiskIO { reads: 0, writes: 0, read_delta: 0, write_delta: 0 }),
                None => None,
            },
            None => None,
        };
        Disk { device_name: Some(name), space, io }
    }

    /// Refreshes the space from new filesystem statistics and the counters
    /// from a new `/proc/diskstats` reading; a reading that is missing or
    /// does not read leaves its part as it was, and an absent part stays absent.
    pub fn refresh(&mut self, stats: Option<(u64, u64, u64)>, diskstats: Option<&[u8]>)
        ensures
            final(self).device_name == old(self).device_name,
            final(self).space == refreshed_space(old(self).space, stats),
            old(self).device_name is Some ==> final(self).io == refreshed_io(
                old(self).io,
                opt_view(diskstats),
                name_view(old(self).device_name),
            ),
            old(self).device_name is None ==> final(self).io == old(self).io,
    {
        if self.space.is_some() {
            if let Some((b, a, f)) = stats {
                self.space = Some(DiskSpace::from_stats(b, a, f));
            }
        }
        if let Some(dev) = &self.device_name {
            if let Some(io) = &mut self.io {
                if let Some(c) = diskstats {
                    match parse_diskstats(c, dev.as_slice()) {
                        Some(Some((rd, wr))) => {
                            io.read_delta = counter_delta(io.reads, rd);
                            io.write_delta = counter_delta(io.writes, wr);
                            io.reads = rd;
                            io.writes = wr;
                        },
                        Some(None) => {
                            io.read_delta = 0;
                            io.write_delta = 0;
                        },
                        None => {},
                    }
                }
            }
        }
    }
}

} // verus!
