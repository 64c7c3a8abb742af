//! RAM and swap usage from `/proc/meminfo`, and the external memory
//! controller (EMC) clock.
use vstd::prelude::*;
use crate::metric::{round_div, kib_to_mib, hz_to_mhz};
use crate::text::{
    is_decimal, decimal_value, lines, words, views, single_value, split_lines, split_words,
    bytes_eq, parse_decimal, parse_single_value,
};

verus! {

/// Slot of a `/proc/meminfo` key among MemTotal, MemFree, Buffers, Cached,
/// Shmem, SReclaimable, SwapTotal, SwapFree (with their colons), or -1.
pub open spec fn mem_slot(w: Seq<u8>) -> int {
    if w == seq![77u8, 101, 109, 84, 111, 116, 97, 108, 58] {
        0
    } else if w == seq![77u8, 101, 109, 70, 114, 101, 101, 58] {
        1
    } else if w == seq![66u8, 117, 102, 102, 101, 114, 115, 58] {
        2
    } else if w == seq![67u8, 97, 99, 104, 101, 100, 58] {
        3
    } else if w == seq![83u8, 104, 109, 101, 109, 58] {
        4
    } else if w == seq![83u8, 82, 101, 99, 108, 97, 105, 109, 97, 98, 108, 101, 58] {
        5
    } else if w == seq![83u8, 119, 97, 112, 84, 111, 116, 97, 108, 58] {
        6
    } else if w == seq![83u8, 119, 97, 112, 70, 114, 101, 101, 58] {
        7
    } else {
        -1
    }
}

pub const SLOT_TOTAL: usize = 0;
pub const SLOT_FREE: usize = 1;
pub const SLOT_BUFFERS: usize = 2;
pub const SLOT_CACHED: usize = 3;
pub const SLOT_SHMEM: usize = 4;
pub const SLOT_SRECLAIMABLE: usize = 5;
pub const SLOT_SWAP_TOTAL: usize = 6;
pub const SLOT_SWAP_FREE: usize = 7;

/// The eight values (in kB) after the first `n` lines of `/proc/meminfo`: a
/// line whose first word is one of the keys sets that slot from its second
/// word; a key absent from the file reads as zero; a value that is not a
/// 64-bit decimal number fails the whole read.
pub open spec fn meminfo_upto(ls: Seq<Seq<u8>>, n: int) -> Option<Seq<u64>>
    decreases n,
{
    if n <= 0 {
        Some(seq![0u64, 0, 0, 0, 0, 0, 0, 0])
    } else {
        let prev = meminfo_upto(ls, n - 1);
        let ws = words(ls[n - 1]);
        if ws.len() >= 2 && mem_slot(ws[0]) >= 0 {
            match prev {
                Some(p) => if is_decimal(ws[1]) && decimal_value(ws[1]) <= u64::MAX {
                    Some(p.update(mem_slot(ws[0]), decimal_value(ws[1]) as u64))
                } else {
                    None
                },
                None => None,
            }
        } else {
            prev
        }
    }
}

pub open spec fn meminfo(content: Seq<u8>) -> Option<Seq<u64>> {
    meminfo_upto(lines(content), lines(content).len() as int)
}

fn key_slot(w: &[u8]) -> (r: Option<usize>)
    ensures
        match r {
            Some(k) => k as int == mem_slot(w@) && k < 8,
            None => mem_slot(w@) == -1,
        },
{
    let keys: [&[u8]; 8] = [
        &[77u8, 101, 109, 84, 111, 116, 97, 108, 58],
        &[77u8, 101, 109, 70, 114, 101, 101, 58],
        &[66u8, 117, 102, 102, 101, 114, 115, 58],
        &[67u8, 97, 99, 104, 101, 100, 58],
        &[83u8, 104, 109, 101, 109, 58],
        &[83u8, 82, 101, 99, 108, 97, 105, 109, 97, 98, 108, 101, 58],
        &[83u8, 119, 97, 112, 84, 111, 116, 97, 108, 58],
        &[83u8, 119, 97, 112, 70, 114, 101, 101, 58],
    ];
    assert(keys[0]@ == seq![77u8, 101, 109, 84, 111, 116, 97, 108, 58]);
    assert(keys[1]@ == seq![77u8, 101, 109, 70, 114, 101, 101, 58]);
    assert(keys[2]@ == seq![66u8, 117, 102, 102, 101, 114, 115, 58]);
    assert(keys[3]@ == seq![67u8, 97, 99, 104, 101, 100, 58]);
    assert(keys[4]@ == seq![83u8, 104, 109, 101, 109, 58]);
    assert(keys[5]@ == seq![83u8, 82, 101, 99, 108, 97, 105, 109, 97, 98, 108, 101, 58]);
    assert(keys[6]@ == seq![83u8, 119, 97, 112, 84, 111, 116, 97, 108, 58]);
    assert(keys[7]@ == seq![83u8, 119, 97, 112, 70, 114, 101, 101, 58]);
    let mut k: usize = 0;
    while k < 8
        invariant
            k <= 8,
            forall|j: int| 0 <= j < k ==> keys[j]@ != w@,
            keys[0]@ == seq![77u8, 101, 109, 84, 111, 116, 97, 108, 58],
            keys[1]@ == seq![77u8, 101, 109, 70, 114, 101, 101, 58],
            keys[2]@ == seq![66u8, 117, 102, 102, 101, 114, 115, 58],
            keys[3]@ == seq![67u8, 97, 99, 104, 101, 100, 58],
            keys[4]@ == seq![83u8, 104, 109, 101, 109, 58],
            keys[5]@ == seq![83u8, 82, 101, 99, 108, 97, 105, 109, 97, 98, 108, 101, 58],
            keys[6]@ == seq![83u8, 119, 97, 112, 84, 111, 116, 97, 108, 58],
            keys[7]@ == seq![83u8, 119, 97, 112, 70, 114, 101, 101, 58],
        decreases 8 - k,
    {
        if bytes_eq(w, keys[k]) {
            return Some(k);
        }
        k += 1;
    }
    None
}

/// Reads the eight `/proc/meminfo` values, in kB, in the order of `mem_slot`.
pub fn parse_meminfo(content: &[u8]) -> (r: Option<[u64; 8]>)
    ensures
        match r {
            Some(v) => meminfo(content@) == Some(v@),
            None => meminfo(content@) is None,
        },
{
    let ls = split_lines(content);
    let ghost l = views(ls@);
    let mut vals: [u64; 8] = [0u64; 8];
    assert(vals@ =~= seq![0u64, 0, 0, 0, 0, 0, 0, 0]);
    let mut i: usize = 0;
    while i < ls.len()
        invariant
            i <= ls.len(),
            l == views(ls@),
            l == lines(content@),
            meminfo_upto(l, i as int) == Some(vals@),
        decreases ls.len() - i,
    {
        assert(ls[i as int]@ == l[i as int]);
        let ws = split_words(ls[i].as_slice());
        if ws.len() >= 2 {
            assert(ws[0]@ == views(ws@)[0] && ws[1]@ == views(ws@)[1]);
            if let Some(k) = key_slot(ws[0].as_slice()) {
                match parse_decimal(ws[1].as_slice()) {
                    Some(v) => {
                        vals[k] = v;
                    },
                    None => {
                        proof {
                            lemma_meminfo_fails_after(l, i as int + 1, l.len() as int);
                        }
                        return None;
                    },
                }
            }
        }
        assert(vals@ =~= meminfo_upto(l, i + 1)->0);
        i += 1;
    }
    Some(vals)
}

proof fn lemma_meminfo_fails_after(ls: Seq<Seq<u8>>, a: int, b: int)
    requires
        1 <= a <= b,
        meminfo_upto(ls, a) is None,
    ensures
        meminfo_upto(ls, b) is None,
    decreases b - a,
{
    if a < b {
        lemma_meminfo_fails_after(ls, a, b - 1);
    }
}

/// RAM and swap in MB (kB divided by 1024, rounded to the nearest).
pub struct Mem {
    pub total_ram: i64,
    pub used_ram: i64,
    pub total_swap: i64,
    pub used_swap: i64,
}

/// Used RAM in kB: what is not free, less buffers and the reclaimable cache
/// (`Cached + SReclaimable - Shmem`).
pub open spec fn used_ram_kib(v: Seq<u64>) -> int {
    (v[0] - v[1]) - (v[2] + (v[3] + v[5] - v[4]))
}

/// The usage that the eight `/proc/meminfo` values give.
pub open spec fn mem_of(v: Seq<u64>) -> Mem {
    Mem {
        total_ram: round_div(v[0] as int, 1024) as i64,
        used_ram: round_div(used_ram_kib(v), 1024) as i64,
        total_swap: round_div(v[6] as int, 1024) as i64,
        used_swap: round_div(v[6] - v[7], 1024) as i64,
    }
}

proof fn lemma_round_fits(x: int)
    requires
        -0x4_0000_0000_0000_0000 <= x <= 0x4_0000_0000_0000_0000,
    ensures
        i64::MIN <= round_div(x, 1024) <= i64::MAX,
{
    if x >= 0 {
        assert((x + 512) / 1024 <= 0x4_0000_0000_0000_0000) by (nonlinear_arith)
            requires
                0 <= x <= 0x4_0000_0000_0000_0000,
        ;
    } else {
        assert((-x + 512) / 1024 <= 0x4_0000_0000_0000_0000) by (nonlinear_arith)
            requires
                0 < -x <= 0x4_0000_0000_0000_0000,
        ;
    }
}

impl Mem {
    /// The usage of RAM and swap from the eight `/proc/meminfo` values.
    pub fn from_values(v: &[u64; 8]) -> (r: Mem)
        ensures
            r == mem_of(v@),
    {
        let total = v[SLOT_TOTAL] as i128;
        let free = v[SLOT_FREE] as i128;
        let buffers = v[SLOT_BUFFERS] as i128;
        let cached = v[SLOT_CACHED] as i128;
        let shmem = v[SLOT_SHMEM] as i128;
        let sreclaimable = v[SLOT_SRECLAIMABLE] as i128;
        let swap_total = v[SLOT_SWAP_TOTAL] as i128;
        let swap_free = v[SLOT_SWAP_FREE] as i128;
        let used = (total - free) - (buffers + (cached + sreclaimable - shmem));
        proof {
            lemma_round_fits(total as int);
            lemma_round_fits(used as int);
            lemma_round_fits(swap_total as int);
            lemma_round_fits((swap_total - swap_free) as int);
        }
        Mem {
            total_ram: kib_to_mib(total) as i64,
            used_ram: kib_to_mib(used) as i64,
            total_swap: kib_to_mib(swap_total) as i64,
            used_swap: kib_to_mib(swap_total - swap_free) as i64,
        }
    }

    /// Discovery: the usage from a first read of `/proc/meminfo`; `None`
    /// where the file is missing or does not read.
    pub fn new(content: Option<&[u8]>) -> (r: Option<Mem>)
        ensures
            match r {
                Some(m) => content is Some && meminfo(content->0@) is Some && m == mem_of(
                    meminfo(content->0@)->0,
                ),
                None => content is None || meminfo(content->0@) is None,
            },
    {
        match content {
            Some(c) => match parse_meminfo(c) {
                Some(v) => Some(Mem::from_values(&v)),
                None => None,
            },
            None => None,
        }
    }

    /// Takes a new reading; one that is missing or does not read leaves every
    /// value as it was. Returns whether the values were replaced.
    pub fn refresh(&mut self, content: Option<&[u8]>) -> (r: bool)
        ensures
            r == (content is Some && meminfo(content->0@) is Some),
            r ==> *final(self) == mem_of(meminfo(content->0@)->0),
            !r ==> *final(self) == *old(self),
    {
        match Mem::new(content) {
            Some(m) => {
                *self = m;
                true
            },
            None => false,
        }
    }
}

/// The EMC clock in MHz: current and maximum.
pub struct EMC {
    pub current_frequency: u64,
    pub max_frequency: u64,
}

/// MHz in a clock-rate file that holds hertz.
pub open spec fn clock_mhz(reading: Seq<u8>) -> Option<u64> {
    match single_value(reading) {
        Some(v) => Some((v / 1_000_000) as u64),
        None => None,
    }
}

/// The EMC clock from readings of its current and maximum rate, taken
/// together: `None` unless both read.
pub open spec fn emc_of(current: Option<Seq<u8>>, max: Option<Seq<u8>>) -> Option<EMC> {
    match (current, max) {
        (Some(c), Some(m)) => match (clock_mhz(c), clock_mhz(m)) {
            (Some(cf), Some(mf)) => Some(EMC { current_frequency: cf, max_frequency: mf }),
            _ => None,
        },
        _ => None,
    }
}

pub open spec fn opt_view(o: Option<&[u8]>) -> Option<Seq<u8>> {
    match o {
        Some(s) => Some(s@),
        None => None,
    }
}

pub fn clock_rate_mhz(reading: &[u8]) -> (r: Option<u64>)
    ensures
        r == clock_mhz(reading@),
{
    match parse_single_value(reading) {
        Some(v) => Some(hz_to_mhz(v)),
        None => None,
    }
}

impl EMC {
    /// Discovery from the current and maximum rate files.
    pub fn init(current: Option<&[u8]>, max: Option<&[u8]>) -> (r: Option<EMC>)
        ensures
            r == emc_of(opt_view(current), opt_view(max)),
    {
        match (current, max) {
            (Some(c), Some(m)) => match (clock_rate_mhz(c), clock_rate_mhz(m)) {
                (Some(cf), Some(mf)) => Some(EMC { current_frequency: cf, max_frequency: mf }),
                _ => None,
            },
            _ => None,
        }
    }

    /// Re-reads both rates; unless both read, both values stay as they were.
    pub fn refresh(&mut self, current: Option<&[u8]>, max: Option<&[u8]>) -> (r: bool)
        ensures
            r == emc_of(opt_view(current), opt_view(max)) is Some,
            r ==> *final(self) == emc_of(opt_view(current), opt_view(max))->0,
            !r ==> *final(self) == *old(self),
    {
        match EMC::init(current, max) {
            Some(e) => {
                *self = e;
                true
            },
            None => false,
        }
    }
}

/// The usage after a refresh with `content`: present usage takes a reading
/// that parses and keeps its values otherwise; absent usage stays absent.
pub open spec fn refreshed_mem(m: Option<Mem>, content: Option<Seq<u8>>) -> Option<Mem> {
    match m {
        Some(old) => match content {
            Some(c) => match meminfo(c) {
                Some(v) => Some(mem_of(v)),
                None => Some(old),
            },
            None => Some(old),
        },
        None => None,
    }
}

/// The EMC clock after a refresh, under the same rule.
pub open spec fn refreshed_emc(e: Option<EMC>, current: Option<Seq<u8>>, max: Option<Seq<u8>>) -> Option<EMC> {
    match e {
        Some(old) => match emc_of(current, max) {
            Some(n) => Some(n),
            None => Some(old),
        },
        None => None,
    }
}

/// Memory usage and the EMC clock, each present only where the board has it.
pub struct Memory {
    pub mem: Option<Mem>,
    pub emc: Option<EMC>,
}

impl Memory {
    /// Discovery from first readings of `/proc/meminfo` and of the EMC rate files.
    pub fn new(meminfo_content: Option<&[u8]>, emc_current: Option<&[u8]>, emc_max: Option<&[u8]>) -> (r: Memory)
        ensures
            r.mem == (match meminfo_content {
                Some(c) => match meminfo(c@) {
                    Some(v) => Some(mem_of(v)),
                    None => None,
                },
                None => None,
            }),
            r.emc == emc_of(opt_view(emc_current), opt_view(emc_max)),
    {
        Memory { mem: Mem::new(meminfo_content), emc: EMC::init(emc_current, emc_max) }
    }

    /// Refreshes each present part from its readings; a part that was absent
    /// at discovery stays absent.
    pub fn refresh(&mut self, meminfo_content: Option<&[u8]>, emc_current: Option<&[u8]>, emc_max: Option<&[u8]>)
        ensures
            final(self).mem == refreshed_mem(old(self).mem, opt_view(meminfo_content)),
            final(self).emc == refreshed_emc(old(self).emc, opt_view(emc_current), opt_view(emc_max)),
    {
        if let Some(m) = &mut self.mem {
            m.refresh(meminfo_content);
        }
        if let Some(e) = &mut self.emc {
            e.refresh(emc_current, emc_max);
        }
    }
}

} // verus!
