//! Per-core utilization from `/proc/stat` and per-core frequency from cpufreq.
use vstd::prelude::*;
use crate::metric::{delta, utilization, counter_delta, utilization_tenths, khz_to_mhz};
use crate::text::{
    has_prefix, is_decimal, decimal_value, lines, words, views, single_value, split_lines,
    split_words, starts_with, parse_decimal, parse_single_value, bytes_eq,
};

verus! {

/// "cpu"
pub open spec fn cpu_tag() -> Seq<u8> {
    seq![99u8, 112, 117]
}

/// Field `k` of a `/proc/stat` line holds a 64-bit decimal number.
pub open spec fn field_ok(ws: Seq<Seq<u8>>, k: int) -> bool {
    is_decimal(ws[k]) && decimal_value(ws[k]) <= u64::MAX
}

/// Sum of fields `1..=n` of a `/proc/stat` line.
pub open spec fn field_sum(ws: Seq<Seq<u8>>, n: int) -> int
    decreases n,
{
    if n <= 0 {
        0
    } else {
        field_sum(ws, n - 1) + decimal_value(ws[n])
    }
}

/// One core's cumulative times in a `/proc/stat` line: its name, the idle
/// time (idle + iowait) and the total time (the ten fields user, nice,
/// system, idle, iowait, irq, softirq, steal, guest, guest_nice together).
/// `None` if a field is missing, not a number, or the total overflows.
pub open spec fn stat_sample(ws: Seq<Seq<u8>>) -> Option<(Seq<u8>, int, int)> {
    if ws.len() >= 11 && (forall|k: int| 1 <= k <= 10 ==> #[trigger] field_ok(ws, k))
        && field_sum(ws, 10) <= u64::MAX {
        Some((ws[0], (decimal_value(ws[4]) + decimal_value(ws[5])) as int, field_sum(ws, 10)))
    } else {
        None
    }
}

/// The samples of the lines `1..n` of `/proc/stat` that start with "cpu";
/// the first line (all cores together) is skipped. `None` if one of them
/// does not read.
pub open spec fn stat_samples_upto(ls: Seq<Seq<u8>>, n: int) -> Option<Seq<(Seq<u8>, int, int)>>
    decreases n,
{
    if n <= 1 {
        Some(Seq::empty())
    } else {
        let prev = stat_samples_upto(ls, n - 1);
        let line = ls[n - 1];
        if !has_prefix(line, cpu_tag()) {
            prev
        } else {
            match (prev, stat_sample(words(line))) {
                (Some(p), Some(x)) => Some(p.push(x)),
                _ => None,
            }
        }
    }
}

pub open spec fn stat_samples(content: Seq<u8>) -> Option<Seq<(Seq<u8>, int, int)>> {
    stat_samples_upto(lines(content), lines(content).len() as int)
}

/// One core's cumulative times.
pub struct CoreSample {
    pub name: Vec<u8>,
    pub idle_time: u64,
    pub total_time: u64,
}

pub open spec fn sample_view(s: CoreSample) -> (Seq<u8>, int, int) {
    (s.name@, s.idle_time as int, s.total_time as int)
}

pub open spec fn samples_view(v: Seq<CoreSample>) -> Seq<(Seq<u8>, int, int)> {
    Seq::new(v.len(), |i: int| sample_view(v[i]))
}

pub open spec fn samples_opt_view(r: Option<Vec<CoreSample>>) -> Option<Seq<(Seq<u8>, int, int)>> {
    match r {
        Some(v) => Some(samples_view(v@)),
        None => None,
    }
}

proof fn lemma_field_sum_bound(ws: Seq<Seq<u8>>, n: int)
    requires
        0 <= n <= 10,
        ws.len() >= 11,
        forall|k: int| 1 <= k <= 10 ==> #[trigger] field_ok(ws, k),
    ensures
        0 <= field_sum(ws, n) <= n * u64::MAX,
    decreases n,
{
    if n > 0 {
        lemma_field_sum_bound(ws, n - 1);
        assert(field_ok(ws, n));
    }
}

/// Reads the words of one `/proc/stat` core line.
pub fn parse_stat_line(ws: &Vec<Vec<u8>>) -> (r: Option<CoreSample>)
    ensures
        match r {
            Some(s) => stat_sample(views(ws@)) == Some(sample_view(s)),
            None => stat_sample(views(ws@)) is None,
        },
{
    let ghost w = views(ws@);
    if ws.len() < 11 {
        return None;
    }
    let mut total: u128 = 0;
    let mut idle: u128 = 0;
    let mut k: usize = 1;
    while k <= 10
        invariant
            1 <= k <= 11,
            ws.len() >= 11,
            w == views(ws@),
            forall|j: int| 1 <= j < k ==> #[trigger] field_ok(w, j),
            total == field_sum(w, k - 1),
            total <= (k - 1) * u64::MAX,
            k > 5 ==> idle == decimal_value(w[4]) + decimal_value(w[5]),
            k == 5 ==> idle == decimal_value(w[4]),
            k <= 4 ==> idle == 0,
            idle <= 2 * u64::MAX,
        decreases 11 - k,
    {
        assert(ws[k as int]@ == w[k as int]);
        let v = match parse_decimal(ws[k].as_slice()) {
            Some(v) => v,
            None => {
                assert(!field_ok(w, k as int));
                return None;
            },
        };
        total = total + v as u128;
        if k == 4 || k == 5 {
            assert(k == 5 ==> field_ok(w, 4));
            idle = idle + v as u128;
        }
        k += 1;
    }
    if total > u64::MAX as u128 {
        return None;
    }
    proof {
        assert(idle <= total) by {
            assert(field_sum(w, 4) == field_sum(w, 3) + decimal_value(w[4]));
            assert(field_sum(w, 5) == field_sum(w, 4) + decimal_value(w[5]));
            lemma_field_sum_mono(w, 5, 10);
            lemma_field_sum_bound(w, 3);
        }
    }
    let name = ws[0].clone();
    proof {
        assert(ws[0]@ == w[0]);
    }
    Some(CoreSample { name, idle_time: idle as u64, total_time: total as u64 })
}

proof fn lemma_field_sum_mono(ws: Seq<Seq<u8>>, a: int, b: int)
    requires
        0 <= a <= b,
    ensures
        field_sum(ws, a) <= field_sum(ws, b),
    decreases b - a,
{
    if a < b {
        lemma_field_sum_mono(ws, a, b - 1);
    }
}

/// Reads every core line of `/proc/stat`.
pub fn parse_stat(content: &[u8]) -> (r: Option<Vec<CoreSample>>)
    ensures
        samples_opt_view(r) == stat_samples(content@),
{
    let ls = split_lines(content);
    let ghost l = views(ls@);
    let tag: [u8; 3] = [99u8, 112, 117];
    assert(tag@ == cpu_tag());
    let mut out: Vec<CoreSample> = Vec::new();
    if ls.len() == 0 {
        return Some(out);
    }
    let mut i: usize = 1;
    while i < ls.len()
        invariant
            1 <= i <= ls.len(),
            l == views(ls@),
            l == lines(content@),
            tag@ == cpu_tag(),
            stat_samples_upto(l, i as int) == Some(samples_view(out@)),
        decreases ls.len() - i,
    {
        assert(ls[i as int]@ == l[i as int]);
        if starts_with(ls[i].as_slice(), tag.as_slice()) {
            let ws = split_words(ls[i].as_slice());
            match parse_stat_line(&ws) {
                Some(s) => {
                    let ghost before = samples_view(out@);
                    out.push(s);
                    assert(samples_view(out@) =~= before.push(sample_view(s)));
                },
                None => {
                    proof {
                        lemma_stat_fails_after(l, i as int + 1, l.len() as int);
                    }
                    return None;
                },
            }
        }
        i += 1;
    }
    Some(out)
}

/// Once a core line fails to read, the whole of `/proc/stat` fails.
proof fn lemma_stat_fails_after(ls: Seq<Seq<u8>>, a: int, b: int)
    requires
        2 <= a <= b,
        stat_samples_upto(ls, a) is None,
    ensures
        stat_samples_upto(ls, b) is None,
    decreases b - a,
{
    if a < b {
        lemma_stat_fails_after(ls, a, b - 1);
    }
}

} // verus!

verus! {

/// One processor core: its cumulative-time baseline, the utilization over
/// the last interval, and its frequency where the board exposes it.
pub struct Core {
    pub name: Vec<u8>,
    /// Current frequency in MHz; `None` where no frequency source was found.
    pub frequency: Option<u64>,
    pub idle_time: u64,
    pub total_time: u64,
    /// Utilization over the last interval, in tenths of a percent.
    pub utilization: u64,
}

/// All cores. `has_stat` tells whether the cumulative-time source was
/// found at discovery; without it utilization never changes.
pub struct CPU {
    pub has_stat: bool,
    pub cores: Vec<Core>,
}

/// A core after a new sample: the sample becomes the baseline, and the
/// utilization is that of the interval since the previous baseline. A
/// counter that went backwards yields zero.
pub open spec fn advance_core(c: Core, idle: int, total: int) -> Core {
    Core {
        name: c.name,
        frequency: c.frequency,
        idle_time: idle as u64,
        total_time: total as u64,
        utilization: (if total < c.total_time || idle < c.idle_time {
            0
        } else {
            utilization(delta(c.total_time as int, total), delta(c.idle_time as int, idle))
        }) as u64,
    }
}

/// Index of the first core named `name` at `i` or later, or -1.
pub open spec fn core_index(cores: Seq<Core>, name: Seq<u8>, i: int) -> int
    decreases cores.len() - i,
{
    if i < 0 || i >= cores.len() {
        -1
    } else if cores[i].name@ == name {
        i
    } else {
        core_index(cores, name, i + 1)
    }
}

/// Applies one sample to the first core of the same name; a sample of an
/// unknown core is ignored.
pub open spec fn apply_sample(cores: Seq<Core>, s: (Seq<u8>, int, int)) -> Seq<Core> {
    let k = core_index(cores, s.0, 0);
    if k < 0 {
        cores
    } else {
        cores.update(k, advance_core(cores[k], s.1, s.2))
    }
}

/// Applies the first `n` samples in order.
pub open spec fn apply_samples(cores: Seq<Core>, ss: Seq<(Seq<u8>, int, int)>, n: int) -> Seq<
    Core,
>
    decreases n,
{
    if n <= 0 {
        cores
    } else {
        apply_sample(apply_samples(cores, ss, n - 1), ss[n - 1])
    }
}

/// The core of a sample taken at discovery: no utilization yet.
pub open spec fn first_core(s: (Seq<u8>, int, int)) -> (Seq<u8>, Option<u64>, int, int, int) {
    (s.0, None, s.1, s.2, 0)
}

pub open spec fn core_view(c: Core) -> (Seq<u8>, Option<u64>, int, int, int) {
    (c.name@, c.frequency, c.idle_time as int, c.total_time as int, c.utilization as int)
}

/// Frequency of a core in MHz from its cpufreq reading in kHz.
pub open spec fn core_frequency(reading: Seq<u8>) -> Option<u64> {
    match single_value(reading) {
        Some(v) => Some((v / 1000) as u64),
        None => None,
    }
}

/// A core's frequency after a refresh: a present frequency takes a new
/// reading that parses, and keeps its value otherwise; an absent one stays
/// absent.
pub open spec fn refreshed_frequency(f: Option<u64>, reading: Option<Vec<u8>>) -> Option<u64> {
    match (f, reading) {
        (Some(_), Some(r)) => match core_frequency(r@) {
            Some(v) => Some(v),
            None => f,
        },
        _ => f,
    }
}

/// `c` with frequency `f`.
pub open spec fn with_frequency(c: Core, f: Option<u64>) -> Core {
    Core { frequency: f, ..c }
}

pub open spec fn reading_at(readings: Seq<Option<Vec<u8>>>, i: int) -> Option<Vec<u8>> {
    if 0 <= i < readings.len() {
        readings[i]
    } else {
        None
    }
}

impl CPU {
    /// Discovers the cores from a first read of `/proc/stat`; `None` if the
    /// source is missing or does not read. Frequencies start absent.
    pub fn init(stat: Option<&[u8]>) -> (r: Option<CPU>)
        ensures
            match r {
                Some(c) => stat matches Some(s) && stat_samples(s@) matches Some(ss) && c.has_stat
                    && c.cores@.len() == ss.len() && forall|i: int|
                    0 <= i < ss.len() ==> #[trigger] core_view(c.cores@[i]) == first_core(ss[i]),
                None => stat is None || stat_samples(stat->0@) is None,
            },
    {
        let s = match stat {
            Some(s) => s,
            None => return None,
        };
        let samples = match parse_stat(s) {
            Some(v) => v,
            None => return None,
        };
        let ghost ss = samples_view(samples@);
        let mut cores: Vec<Core> = Vec::new();
        let mut i: usize = 0;
        while i < samples.len()
            invariant
                i <= samples.len(),
                ss == samples_view(samples@),
                cores@.len() == i,
                forall|j: int| 0 <= j < i ==> #[trigger] core_view(cores@[j]) == first_core(ss[j]),
            decreases samples.len() - i,
        {
            let sample = &samples[i];
            cores.push(Core {
                name: sample.name.clone(),
                frequency: None,
                idle_time: sample.idle_time,
                total_time: sample.total_time,
                utilization: 0,
            });
            assert(core_view(cores@[i as int]) == first_core(ss[i as int]));
            i += 1;
        }
        Some(CPU { has_stat: true, cores })
    }
}

proof fn lemma_core_index_range(cores: Seq<Core>, name: Seq<u8>, i: int)
    requires
        0 <= i,
    ensures
        -1 <= core_index(cores, name, i) < cores.len(),
    decreases cores.len() - i,
{
    if i < cores.len() {
        lemma_core_index_range(cores, name, i + 1);
    }
}

/// Index of the first core named `name`, or -1.
fn find_core(cores: &Vec<Core>, name: &Vec<u8>) -> (r: Option<usize>)
    ensures
        match r {
            Some(k) => k as int == core_index(cores@, name@, 0),
            None => core_index(cores@, name@, 0) == -1,
        },
{
    let mut i: usize = 0;
    while i < cores.len()
        invariant
            i <= cores.len(),
            core_index(cores@, name@, 0) == core_index(cores@, name@, i as int),
        decreases cores.len() - i,
    {
        if bytes_eq(cores[i].name.as_slice(), name.as_slice()) {
            return Some(i);
        }
        i += 1;
    }
    None
}

impl CPU {
    /// Takes a new sample of `/proc/stat`. The sample is applied only when
    /// the whole of it reads; otherwise, or where the source was not found,
    /// every core keeps its values. Returns whether it was applied.
    pub fn refresh_utilization(&mut self, stat: Option<&[u8]>) -> (r: bool)
        ensures
            final(self).has_stat == old(self).has_stat,
            r == (old(self).has_stat && stat is Some && stat_samples(stat->0@) is Some),
            r ==> final(self).cores@ == apply_samples(
                old(self).cores@,
                stat_samples(stat->0@)->0,
                stat_samples(stat->0@)->0.len() as int,
            ),
            !r ==> final(self).cores@ == old(self).cores@,
    {
        if !self.has_stat {
            return false;
        }
        let s = match stat {
            Some(s) => s,
            None => return false,
        };
        let samples = match parse_stat(s) {
            Some(v) => v,
            None => return false,
        };
        let ghost ss = samples_view(samples@);
        let ghost start = self.cores@;
        let mut i: usize = 0;
        while i < samples.len()
            invariant
                i <= samples.len(),
                ss == samples_view(samples@),
                self.cores@ == apply_samples(start, ss, i as int),
                self.cores@.len() == start.len(),
                self.has_stat == old(self).has_stat,
            decreases samples.len() - i,
        {
            let sample = &samples[i];
            let k = find_core(&self.cores, &sample.name);
            assert(sample_view(*sample) == ss[i as int]);
            proof {
                lemma_core_index_range(self.cores@, sample.name@, 0);
            }
            let ghost before = self.cores@;
            if let Some(k) = k {
                let prev_idle = self.cores[k].idle_time;
                let prev_total = self.cores[k].total_time;
                let u = if sample.total_time < prev_total || sample.idle_time < prev_idle {
                    0
                } else {
                    utilization_tenths(
                        counter_delta(prev_total, sample.total_time),
                        counter_delta(prev_idle, sample.idle_time),
                    )
                };
                self.cores[k].idle_time = sample.idle_time;
                self.cores[k].total_time = sample.total_time;
                self.cores[k].utilization = u;
                assert(self.cores@ =~= apply_sample(before, ss[i as int]));
            }
            i += 1;
        }
        true
    }

    /// Records each core's frequency source found at discovery: reading `i`
    /// belongs to core `i`, and a core without a reading that parses has no
    /// frequency.
    pub fn init_frequency(&mut self, readings: &Vec<Option<Vec<u8>>>)
        ensures
            final(self).has_stat == old(self).has_stat,
            final(self).cores@.len() == old(self).cores@.len(),
            forall|i: int|
                0 <= i < old(self).cores@.len() ==> {
                    let c = old(self).cores@[i];
                    let f = match reading_at(readings@, i) {
                        Some(r) => core_frequency(r@),
                        None => None,
                    };
                    #[trigger] final(self).cores@[i] == with_frequency(c, f)
                },
    {
        let mut i: usize = 0;
        let ghost start = self.cores@;
        while i < self.cores.len()
            invariant
                i <= self.cores@.len() == start.len(),
                self.has_stat == old(self).has_stat,
                start == old(self).cores@,
                forall|j: int| i <= j < start.len() ==> self.cores@[j] == start[j],
                forall|j: int|
                    0 <= j < i ==> {
                        let f = match reading_at(readings@, j) {
                            Some(r) => core_frequency(r@),
                            None => None,
                        };
                        #[trigger] self.cores@[j] == with_frequency(start[j], f)
                    },
            decreases start.len() - i,
        {
            let f = if i < readings.len() {
                match &readings[i] {
                    Some(r) => match parse_single_value(r.as_slice()) {
                        Some(v) => Some(khz_to_mhz(v)),
                        None => None,
                    },
                    None => None,
                }
            } else {
                None
            };
            self.cores[i].frequency = f;
            i += 1;
        }
    }

    /// Re-reads the frequency of every core that has one; reading `i`
    /// belongs to core `i`.
    pub fn refresh_frequency(&mut self, readings: &Vec<Option<Vec<u8>>>)
        ensures
            final(self).has_stat == old(self).has_stat,
            final(self).cores@.len() == old(self).cores@.len(),
            forall|i: int|
                0 <= i < old(self).cores@.len() ==> {
                    let c = old(self).cores@[i];
                    #[trigger] final(self).cores@[i] == with_frequency(
                        c,
                        refreshed_frequency(c.frequency, reading_at(readings@, i)),
                    )
                },
    {
        let mut i: usize = 0;
        let ghost start = self.cores@;
        while i < self.cores.len()
            invariant
                i <= self.cores@.len() == start.len(),
                self.has_stat == old(self).has_stat,
                start == old(self).cores@,
                forall|j: int| i <= j < start.len() ==> self.cores@[j] == start[j],
                forall|j: int|
                    0 <= j < i ==> #[trigger] self.cores@[j] == with_frequency(
                        start[j],
                        refreshed_frequency(start[j].frequency, reading_at(readings@, j)),
                    ),
            decreases start.len() - i,
        {
            if self.cores[i].frequency.is_some() && i < readings.len() {
                match &readings[i] {
                    Some(r) => match parse_single_value(r.as_slice()) {
                        Some(v) => {
                            self.cores[i].frequency = Some(khz_to_mhz(v));
                        },
                        None => {},
                    },
                    None => {},
                }
            }
            i += 1;
        }
    }
}

/// The cores after utilization is refreshed with `stat`.
pub open spec fn utilization_after(c: CPU, stat: Option<Seq<u8>>) -> Seq<Core> {
    if c.has_stat && stat is Some && stat_samples(stat->0) is Some {
        apply_samples(c.cores@, stat_samples(stat->0)->0, stat_samples(stat->0)->0.len() as int)
    } else {
        c.cores@
    }
}

/// The cores after a full refresh: utilization from `stat`, then each
/// core's frequency from its reading.
pub open spec fn cores_after(c: CPU, stat: Option<Seq<u8>>, freqs: Seq<Option<Vec<u8>>>) -> Seq<Core> {
    let u = utilization_after(c, stat);
    Seq::new(u.len(), |i: int| with_frequency(u[i], refreshed_frequency(u[i].frequency, reading_at(freqs, i))))
}

impl CPU {
    /// Discovery; without a readable `/proc/stat` there are no cores.
    pub fn new(stat: Option<&[u8]>) -> (r: CPU)
        ensures
            r.has_stat == (stat is Some && stat_samples(stat->0@) is Some),
            !r.has_stat ==> r.cores@.len() == 0,
            r.has_stat ==> r.cores@.len() == stat_samples(stat->0@)->0.len() && forall|i: int|
                0 <= i < r.cores@.len() ==> #[trigger] core_view(r.cores@[i]) == first_core(
                    stat_samples(stat->0@)->0[i],
                ),
    {
        match CPU::init(stat) {
            Some(c) => c,
            None => CPU { has_stat: false, cores: Vec::new() },
        }
    }

    /// Refreshes utilization from a new `/proc/stat` reading, then the
    /// frequency of each core that has one.
    pub fn refresh(&mut self, stat: Option<&[u8]>, freqs: &Vec<Option<Vec<u8>>>)
        ensures
            final(self).has_stat == old(self).has_stat,
            final(self).cores@ == cores_after(*old(self), crate::memory::opt_view(stat), freqs@),
    {
        self.refresh_utilization(stat);
        self.refresh_frequency(freqs);
        proof {
            assert(self.cores@ =~= cores_after(*old(self), crate::memory::opt_view(stat), freqs@));
        }
    }
}

/// A core's frequency at discovery, from its first reading.
pub open spec fn first_frequency(reading: Option<Vec<u8>>) -> Option<u64> {
    match reading {
        Some(r) => core_frequency(r@),
        None => None,
    }
}

/// The processor as discovery finds it from a first read of `/proc/stat`
/// and one frequency reading per core.
pub open spec fn cpu_discovered(c: CPU, stat: Option<Seq<u8>>, freqs: Seq<Option<Vec<u8>>>) -> bool {
    &&& c.has_stat == (stat is Some && stat_samples(stat->0) is Some)
    &&& !c.has_stat ==> c.cores@.len() == 0
    &&& c.has_stat ==> {
        let ss = stat_samples(stat->0)->0;
        &&& c.cores@.len() == ss.len()
        &&& forall|i: int|
            0 <= i < ss.len() ==> #[trigger] core_view(c.cores@[i]) == (
                ss[i].0,
                first_frequency(reading_at(freqs, i)),
                ss[i].1,
                ss[i].2,
                0int,
            )
    }
}

impl CPU {
    /// Discovery of the cores and of each core's frequency source: reading
    /// `i` belongs to core `i`.
    pub fn discover(stat: Option<&[u8]>, freqs: &Vec<Option<Vec<u8>>>) -> (r: CPU)
        ensures
            cpu_discovered(r, crate::memory::opt_view(stat), freqs@),
    {
        let mut cpu = CPU::new(stat);
        let ghost before = cpu.cores@;
        cpu.init_frequency(freqs);
        proof {
            if cpu.has_stat {
                let ss = stat_samples(stat->0@)->0;
                assert forall|i: int| 0 <= i < ss.len() implies #[trigger] core_view(cpu.cores@[i]) == (
                    ss[i].0,
                    first_frequency(reading_at(freqs@, i)),
                    ss[i].1,
                    ss[i].2,
                    0int,
                ) by {
                    assert(core_view(before[i]) == first_core(ss[i]));
                }
            }
        }
        cpu
    }
}

} // verus!
