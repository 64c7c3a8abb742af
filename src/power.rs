//! Power rails of the INA3221 monitor and the NVP power profile.
use vstd::prelude::*;
use crate::metric::{power_of, power_mw};
use crate::pattern::{
    Part, Piece, find, find_in, parts_of, capture_count, lemma_find_captures, copy_range,
};
use crate::text::{
    trimmed, single_value, lines, views, index_of, is_decimal, decimal_value, trim, split_lines,
    bytes_eq, find_byte, parse_single_value, parse_decimal,
};

verus! {

/// "ina3221"
pub open spec fn monitor_name() -> Seq<u8> {
    seq![105u8, 110, 97, 51, 50, 50, 49]
}

/// A hwmon device is the power monitor when its `name` is "ina3221".
pub fn is_power_monitor(name: &[u8]) -> (r: bool)
    ensures
        r == (trimmed(name@) == monitor_name()),
{
    let m: [u8; 7] = [105u8, 110, 97, 51, 50, 50, 49];
    assert(m@ == monitor_name());
    let t = trim(name);
    bytes_eq(t.as_slice(), m.as_slice())
}

/// `in<d>_label`
pub open spec fn label_format() -> Seq<Part> {
    seq![Part::Lit(seq![105u8, 110]), Part::Digit, Part::Lit(seq![95u8, 108, 97, 98, 101, 108])]
}

/// The channel that a monitor file labels: the digit of the first
/// `in<d>_label` in its name.
pub open spec fn channel_of(file_name: Seq<u8>) -> Option<u8> {
    match find_in(label_format(), file_name) {
        Some(c) => Some((c[0][0] - 48) as u8),
        None => None,
    }
}

pub fn channel_index(file_name: &[u8]) -> (r: Option<u8>)
    ensures
        r == channel_of(file_name@),
{
    let a: Vec<u8> = vec![105u8, 110];
    let b: Vec<u8> = vec![95u8, 108, 97, 98, 101, 108];
    assert(a@ == seq![105u8, 110]);
    assert(b@ == seq![95u8, 108, 97, 98, 101, 108]);
    let mut ps: Vec<Piece> = Vec::new();
    ps.push(Piece::Lit(a));
    ps.push(Piece::Digit);
    ps.push(Piece::Lit(b));
    assert(parts_of(ps@) =~= label_format());
    match find(ps.as_slice(), file_name) {
        Some(c) => {
            proof {
                lemma_find_captures(label_format(), file_name@, 0);
                reveal_with_fuel(capture_count, 4);
                lemma_digit_capture(file_name@);
            }
            assert(c[0]@ == views(c@)[0]);
            let d = c[0][0];
            Some(d - 48)
        },
        None => None,
    }
}

/// The capture of a label is one digit.
proof fn lemma_digit_capture(s: Seq<u8>)
    requires
        find_in(label_format(), s) is Some,
    ensures
        find_in(label_format(), s)->0.len() >= 1,
        find_in(label_format(), s)->0[0].len() == 1,
        48 <= find_in(label_format(), s)->0[0][0] <= 57,
{
    lemma_label_first(s, 0);
}

proof fn lemma_label_first(s: Seq<u8>, i: int)
    requires
        crate::pattern::first_match(label_format(), s, i) is Some,
    ensures
        crate::pattern::first_match(label_format(), s, i)->0.len() >= 1,
        crate::pattern::first_match(label_format(), s, i)->0[0].len() == 1,
        48 <= crate::pattern::first_match(label_format(), s, i)->0[0][0] <= 57,
    decreases s.len() + 1 - i,
{
    if 0 <= i <= s.len() {
        if crate::pattern::match_from(label_format(), 0, s, i) is None {
            lemma_label_first(s, i + 1);
        } else {
            reveal_with_fuel(crate::pattern::match_from, 4);
        }
    }
}

/// A reading of a rail's current (mA) or voltage (mV): one decimal number
/// of at most 32 bits.
pub open spec fn rail_value(reading: Seq<u8>) -> Option<u32> {
    match single_value(reading) {
        Some(v) => if v <= u32::MAX {
            Some(v as u32)
        } else {
            None
        },
        None => None,
    }
}

fn parse_rail_value(reading: &[u8]) -> (r: Option<u32>)
    ensures
        r == rail_value(reading@),
{
    match parse_single_value(reading) {
        Some(v) => if v <= u32::MAX as u64 {
            Some(v as u32)
        } else {
            None
        },
        None => None,
    }
}

/// Power of a rail in mW from readings of its current and voltage, taken together.
pub open spec fn rail_power(current: Seq<u8>, voltage: Seq<u8>) -> Option<u64> {
    match (rail_value(current), rail_value(voltage)) {
        (Some(c), Some(v)) => Some(power_of(c as int, v as int) as u64),
        _ => None,
    }
}

pub fn parse_rail_power(current: &[u8], voltage: &[u8]) -> (r: Option<u64>)
    ensures
        r == rail_power(current@, voltage@),
{
    match (parse_rail_value(current), parse_rail_value(voltage)) {
        (Some(c), Some(v)) => Some(power_mw(c, v)),
        _ => None,
    }
}

/// One monitored rail: its label and its power in mW.
pub struct Channel {
    pub name: Vec<u8>,
    pub power: u64,
}

impl Channel {
    /// Discovery from the rail's label and first current and voltage readings.
    pub fn init(label: &[u8], current: &[u8], voltage: &[u8]) -> (r: Option<Channel>)
        ensures
            match r {
                Some(c) => c.name@ == trimmed(label@) && rail_power(current@, voltage@) == Some(c.power),
                None => rail_power(current@, voltage@) is None,
            },
    {
        match parse_rail_power(current, voltage) {
            Some(p) => Some(Channel { name: trim(label), power: p }),
            None => None,
        }
    }

    /// Re-reads current and voltage together; unless both read, the power
    /// stays as it was.
    pub fn refresh(&mut self, current: &[u8], voltage: &[u8]) -> (r: bool)
        ensures
            final(self).name == old(self).name,
            r == rail_power(current@, voltage@) is Some,
            r ==> Some(final(self).power) == rail_power(current@, voltage@),
            !r ==> final(self).power == old(self).power,
    {
        match parse_rail_power(current, voltage) {
            Some(p) => {
                self.power = p;
                true
            },
            None => false,
        }
    }
}

} // verus!

verus! {

/// `< POWER_MODEL ID=<id> NAME=<watts>W >`
pub open spec fn model_format() -> Seq<Part> {
    seq![
        Part::Lit(seq![60u8, 32, 80, 79, 87, 69, 82, 95, 77, 79, 68, 69, 76, 32, 73, 68, 61]),
        Part::Digits,
        Part::Lit(seq![32u8, 78, 65, 77, 69, 61]),
        Part::Digits,
        Part::Lit(seq![87u8, 32, 62]),
    ]
}

/// `< PM_CONFIG DEFAULT=<id> >`
pub open spec fn default_format() -> Seq<Part> {
    seq![
        Part::Lit(seq![60u8, 32, 80, 77, 95, 67, 79, 78, 70, 73, 71, 32, 68, 69, 70, 65, 85, 76, 84, 61]),
        Part::Digits,
        Part::Lit(seq![32u8, 62]),
    ]
}

fn model_pattern() -> (r: Vec<Piece>)
    ensures
        parts_of(r@) == model_format(),
{
    let a: Vec<u8> = vec![60u8, 32, 80, 79, 87, 69, 82, 95, 77, 79, 68, 69, 76, 32, 73, 68, 61];
    let b: Vec<u8> = vec![32u8, 78, 65, 77, 69, 61];
    let c: Vec<u8> = vec![87u8, 32, 62];
    assert(a@ == seq![60u8, 32, 80, 79, 87, 69, 82, 95, 77, 79, 68, 69, 76, 32, 73, 68, 61]);
    assert(b@ == seq![32u8, 78, 65, 77, 69, 61]);
    assert(c@ == seq![87u8, 32, 62]);
    let mut r: Vec<Piece> = Vec::new();
    r.push(Piece::Lit(a));
    r.push(Piece::Digits);
    r.push(Piece::Lit(b));
    r.push(Piece::Digits);
    r.push(Piece::Lit(c));
    assert(parts_of(r@) =~= model_format());
    r
}

fn default_pattern() -> (r: Vec<Piece>)
    ensures
        parts_of(r@) == default_format(),
{
    let a: Vec<u8> = vec![60u8, 32, 80, 77, 95, 67, 79, 78, 70, 73, 71, 32, 68, 69, 70, 65, 85, 76, 84, 61];
    let b: Vec<u8> = vec![32u8, 62];
    assert(a@ == seq![60u8, 32, 80, 77, 95, 67, 79, 78, 70, 73, 71, 32, 68, 69, 70, 65, 85, 76, 84, 61]);
    assert(b@ == seq![32u8, 62]);
    let mut r: Vec<Piece> = Vec::new();
    r.push(Piece::Lit(a));
    r.push(Piece::Digits);
    r.push(Piece::Lit(b));
    assert(parts_of(r@) =~= default_format());
    r
}

/// A power profile: its id and its name (the budget in watts, as written).
pub struct Mode {
    pub id: u8,
    pub name: Vec<u8>,
}

pub open spec fn mode_view(m: Mode) -> (u8, Seq<u8>) {
    (m.id, m.name@)
}

pub open spec fn modes_view(v: Seq<Mode>) -> Seq<(u8, Seq<u8>)> {
    Seq::new(v.len(), |i: int| mode_view(v[i]))
}

/// A profile id: a decimal number of at most 8 bits.
pub open spec fn small_id(w: Seq<u8>) -> Option<u8> {
    if is_decimal(w) && decimal_value(w) <= 255 {
        Some(decimal_value(w) as u8)
    } else {
        None
    }
}

fn parse_small_id(w: &[u8]) -> (r: Option<u8>)
    ensures
        r == small_id(w@),
{
    match parse_decimal(w) {
        Some(v) => if v <= 255 {
            Some(v as u8)
        } else {
            None
        },
        None => None,
    }
}

/// The profiles declared by the first `n` lines of `/etc/nvpmodel.conf`, in
/// order; `None` where a declared id does not fit in 8 bits.
pub open spec fn modes_upto(ls: Seq<Seq<u8>>, n: int) -> Option<Seq<(u8, Seq<u8>)>>
    decreases n,
{
    if n <= 0 {
        Some(Seq::empty())
    } else {
        let prev = modes_upto(ls, n - 1);
        match find_in(model_format(), ls[n - 1]) {
            Some(c) => match (prev, small_id(c[0])) {
                (Some(p), Some(id)) => Some(p.push((id, c[1]))),
                _ => None,
            },
            None => prev,
        }
    }
}

pub open spec fn modes_of(conf: Seq<u8>) -> Option<Seq<(u8, Seq<u8>)>> {
    modes_upto(lines(conf), lines(conf).len() as int)
}

proof fn lemma_modes_fail_after(ls: Seq<Seq<u8>>, a: int, b: int)
    requires
        1 <= a <= b,
        modes_upto(ls, a) is None,
    ensures
        modes_upto(ls, b) is None,
    decreases b - a,
{
    if a < b {
        lemma_modes_fail_after(ls, a, b - 1);
    }
}

pub fn parse_modes(conf: &[u8]) -> (r: Option<Vec<Mode>>)
    ensures
        match r {
            Some(v) => modes_of(conf@) == Some(modes_view(v@)),
            None => modes_of(conf@) is None,
        },
{
    let ps = model_pattern();
    let ls = split_lines(conf);
    let ghost l = views(ls@);
    let mut out: Vec<Mode> = Vec::new();
    let mut i: usize = 0;
    while i < ls.len()
        invariant
            i <= ls.len(),
            l == views(ls@),
            l == lines(conf@),
            parts_of(ps@) == model_format(),
            modes_upto(l, i as int) == Some(modes_view(out@)),
        decreases ls.len() - i,
    {
        assert(ls[i as int]@ == l[i as int]);
        match find(ps.as_slice(), ls[i].as_slice()) {
            Some(c) => {
                proof {
                    lemma_find_captures(model_format(), l[i as int], 0);
                    reveal_with_fuel(capture_count, 6);
                }
                assert(c[0]@ == views(c@)[0] && c[1]@ == views(c@)[1]);
                match parse_small_id(c[0].as_slice()) {
                    Some(id) => {
                        let ghost before = modes_view(out@);
                        let name = c[1].clone();
                        out.push(Mode { id, name });
                        assert(modes_view(out@) =~= before.push((id, c[1]@)));
                    },
                    None => {
                        proof {
                            lemma_modes_fail_after(l, i as int + 1, l.len() as int);
                        }
                        return None;
                    },
                }
            },
            None => {},
        }
        i += 1;
    }
    Some(out)
}

/// Index of the first profile at `i` or later with id `id`, or -1.
pub open spec fn mode_index(modes: Seq<(u8, Seq<u8>)>, id: u8, i: int) -> int
    decreases modes.len() - i,
{
    if i < 0 || i >= modes.len() {
        -1
    } else if modes[i].0 == id {
        i
    } else {
        mode_index(modes, id, i + 1)
    }
}

proof fn lemma_mode_index_range(modes: Seq<(u8, Seq<u8>)>, id: u8, i: int)
    requires
        0 <= i,
    ensures
        -1 <= mode_index(modes, id, i) < modes.len(),
    decreases modes.len() - i,
{
    if i < modes.len() {
        lemma_mode_index_range(modes, id, i + 1);
    }
}

fn find_mode(modes: &Vec<Mode>, id: u8) -> (r: Option<usize>)
    ensures
        match r {
            Some(k) => k as int == mode_index(modes_view(modes@), id, 0) && k < modes@.len(),
            None => mode_index(modes_view(modes@), id, 0) == -1,
        },
{
    let mut i: usize = 0;
    while i < modes.len()
        invariant
            i <= modes.len(),
            mode_index(modes_view(modes@), id, 0) == mode_index(modes_view(modes@), id, i as int),
        decreases modes.len() - i,
    {
        if modes[i].id == id {
            return Some(i);
        }
        i += 1;
    }
    None
}

/// The active profile id in `/var/lib/nvpmodel/status` ("pmode:0002"): the
/// text between the first ':' and the next (or the end), without
/// surrounding whitespace. `None` without a ':' or without a valid id.
pub open spec fn status_id(status: Seq<u8>) -> Option<u8> {
    let a = index_of(status, 58, 0);
    if a >= status.len() {
        None
    } else {
        let b = index_of(status, 58, a + 1);
        small_id(trimmed(status.subrange(a + 1, b)))
    }
}

pub fn parse_status(status: &[u8]) -> (r: Option<u8>)
    ensures
        r == status_id(status@),
{
    let a = find_byte(status, 58, 0);
    if a >= status.len() {
        return None;
    }
    let b = find_byte(status, 58, a + 1);
    let part = copy_range(status, a + 1, b);
    let t = trim(part.as_slice());
    parse_small_id(t.as_slice())
}

/// Index of the profile that the first `< PM_CONFIG DEFAULT=<id> >` line at
/// `i` or later names, among those whose id is declared, or -1.
pub open spec fn default_index(ls: Seq<Seq<u8>>, modes: Seq<(u8, Seq<u8>)>, i: int) -> int
    decreases ls.len() - i,
{
    if i < 0 || i >= ls.len() {
        -1
    } else {
        match find_in(default_format(), ls[i]) {
            Some(c) => match small_id(c[0]) {
                Some(id) => if mode_index(modes, id, 0) >= 0 {
                    mode_index(modes, id, 0)
                } else {
                    default_index(ls, modes, i + 1)
                },
                None => default_index(ls, modes, i + 1),
            },
            None => default_index(ls, modes, i + 1),
        }
    }
}

fn find_default(ls: &Vec<Vec<u8>>, modes: &Vec<Mode>) -> (r: Option<usize>)
    ensures
        match r {
            Some(k) => k as int == default_index(views(ls@), modes_view(modes@), 0) && k < modes@.len(),
            None => default_index(views(ls@), modes_view(modes@), 0) == -1,
        },
{
    let ps = default_pattern();
    let ghost l = views(ls@);
    let mut i: usize = 0;
    while i < ls.len()
        invariant
            i <= ls.len(),
            l == views(ls@),
            parts_of(ps@) == default_format(),
            default_index(l, modes_view(modes@), 0) == default_index(l, modes_view(modes@), i as int),
        decreases ls.len() - i,
    {
        assert(ls[i as int]@ == l[i as int]);
        if let Some(c) = find(ps.as_slice(), ls[i].as_slice()) {
            proof {
                lemma_find_captures(default_format(), l[i as int], 0);
                reveal_with_fuel(capture_count, 4);
            }
            assert(c[0]@ == views(c@)[0]);
            if let Some(id) = parse_small_id(c[0].as_slice()) {
                if let Some(k) = find_mode(modes, id) {
                    return Some(k);
                }
            }
        }
        i += 1;
    }
    None
}

/// The power profile: the declared profiles, the one in force, and whether
/// the status file is followed (otherwise the configured default stays).
pub struct NVPMode {
    pub tracking: bool,
    pub mode: Mode,
    pub modes: Vec<Mode>,
}

/// Where discovery finds the profile in force: in the status file when its
/// id is declared, else in the configured default; `None` when neither, or
/// when the configuration or a present status file does not read.
pub open spec fn nvp_choice(conf: Seq<u8>, status: Option<Seq<u8>>) -> Option<(bool, int)> {
    match modes_of(conf) {
        None => None,
        Some(ms) => {
            let from_status = match status {
                Some(s) => match status_id(s) {
                    Some(id) => if mode_index(ms, id, 0) >= 0 {
                        Some(Some(mode_index(ms, id, 0)))
                    } else {
                        Some(None)
                    },
                    None => None,
                },
                None => Some(None),
            };
            match from_status {
                None => None,
                Some(Some(k)) => Some((true, k)),
                Some(None) => {
                    let d = default_index(lines(conf), ms, 0);
                    if d >= 0 {
                        Some((false, d))
                    } else {
                        None
                    }
                },
            }
        },
    }
}

/// The profile in force after a refresh with a new status reading: while
/// following the status file, a declared id there takes over; anything
/// else leaves the profile as it was.
pub open spec fn refreshed_mode_index(
    modes: Seq<(u8, Seq<u8>)>,
    tracking: bool,
    status: Option<Seq<u8>>,
) -> int {
    if tracking && status is Some && status_id(status->0) is Some {
        mode_index(modes, status_id(status->0)->0, 0)
    } else {
        -1
    }
}

/// The profile in force after a refresh with a new status reading.
pub open spec fn mode_after(n: NVPMode, status: Option<Seq<u8>>) -> (u8, Seq<u8>) {
    let k = refreshed_mode_index(modes_view(n.modes@), n.tracking, status);
    if k >= 0 {
        modes_view(n.modes@)[k]
    } else {
        mode_view(n.mode)
    }
}

/// The profile state after a refresh: what is followed and declared stays,
/// the profile in force is `mode_after`.
pub open spec fn nvp_refreshed(before: NVPMode, after: NVPMode, status: Option<Seq<u8>>) -> bool {
    after.tracking == before.tracking && after.modes == before.modes && mode_view(after.mode)
        == mode_after(before, status)
}

/// The profile state that discovery finds from the configuration and the
/// status file: the declared profiles, and the choice of `nvp_choice`.
pub open spec fn nvp_discovered(conf: Seq<u8>, status: Option<Seq<u8>>, r: Option<NVPMode>) -> bool {
    match r {
        Some(n) => modes_of(conf) == Some(modes_view(n.modes@)) && match nvp_choice(conf, status) {
            Some((t, k)) => n.tracking == t && mode_view(n.mode) == modes_view(n.modes@)[k],
            None => false,
        },
        None => nvp_choice(conf, status) is None,
    }
}

pub open spec fn bytes_view(o: Option<&[u8]>) -> Option<Seq<u8>> {
    match o {
        Some(s) => Some(s@),
        None => None,
    }
}

fn copy_mode(m: &Mode) -> (r: Mode)
    ensures
        mode_view(r) == mode_view(*m),
{
    Mode { id: m.id, name: m.name.clone() }
}

impl NVPMode {
    /// Discovery from `/etc/nvpmodel.conf` and, where present, the status file.
    pub fn init(conf: &[u8], status: Option<&[u8]>) -> (r: Option<NVPMode>)
        ensures
            nvp_discovered(conf@, bytes_view(status), r),
    {
        let modes = match parse_modes(conf) {
            Some(m) => m,
            None => return None,
        };
        let ghost ms = modes_view(modes@);
        if let Some(s) = status {
            let id = match parse_status(s) {
                Some(id) => id,
                None => return None,
            };
            if let Some(k) = find_mode(&modes, id) {
                let mode = copy_mode(&modes[k]);
                return Some(NVPMode { tracking: true, mode, modes });
            }
        }
        let ls = split_lines(conf);
        match find_default(&ls, &modes) {
            Some(k) => {
                let mode = copy_mode(&modes[k]);
                Some(NVPMode { tracking: false, mode, modes })
            },
            None => None,
        }
    }

    /// Takes a new reading of the status file.
    pub fn refresh(&mut self, status: Option<&[u8]>)
        ensures
            nvp_refreshed(*old(self), *final(self), bytes_view(status)),
    {
        if !self.tracking {
            return;
        }
        if let Some(s) = status {
            if let Some(id) = parse_status(s) {
                if let Some(k) = find_mode(&self.modes, id) {
                    proof {
                        lemma_mode_index_range(modes_view(self.modes@), id, 0);
                    }
                    self.mode = copy_mode(&self.modes[k]);
                }
            }
        }
    }
}

} // verus!

verus! {

pub open spec fn channel_view(c: Channel) -> (Seq<u8>, u64) {
    (c.name@, c.power)
}

/// The rails that the first `n` discovered label, current and voltage
/// readings give: a rail whose readings do not read is left out.
pub open spec fn channels_upto(rails: Seq<(Vec<u8>, Vec<u8>, Vec<u8>)>, n: int) -> Seq<(Seq<u8>, u64)>
    decreases n,
{
    if n <= 0 {
        Seq::empty()
    } else {
        let prev = channels_upto(rails, n - 1);
        let r = rails[n - 1];
        match rail_power(r.1@, r.2@) {
            Some(p) => prev.push((trimmed(r.0@), p)),
            None => prev,
        }
    }
}

/// A rail after a refresh with a pair of current and voltage readings.
pub open spec fn channel_after(c: Channel, reading: Option<(Vec<u8>, Vec<u8>)>) -> Channel {
    match reading {
        Some((cur, volt)) => match rail_power(cur@, volt@) {
            Some(p) => Channel { name: c.name, power: p },
            None => c,
        },
        None => c,
    }
}

pub open spec fn pair_at(readings: Seq<Option<(Vec<u8>, Vec<u8>)>>, i: int) -> Option<(Vec<u8>, Vec<u8>)> {
    if 0 <= i < readings.len() {
        readings[i]
    } else {
        None
    }
}

/// The power rails and the power profile.
pub struct Power {
    pub channels: Vec<Channel>,
    pub nvpmode: Option<NVPMode>,
}

impl Power {
    /// Discovery from the profile configuration and status, and from the
    /// label, current and voltage of each rail of the power monitor.
    pub fn new(conf: Option<&[u8]>, status: Option<&[u8]>, rails: &Vec<(Vec<u8>, Vec<u8>, Vec<u8>)>) -> (r: Power)
        ensures
            Seq::new(r.channels@.len(), |i: int| channel_view(r.channels@[i])) == channels_upto(
                rails@,
                rails@.len() as int,
            ),
            conf is None ==> r.nvpmode is None,
            conf is Some ==> nvp_discovered(conf->0@, bytes_view(status), r.nvpmode),
    {
        let nvpmode = match conf {
            Some(c) => NVPMode::init(c, status),
            None => None,
        };
        Power { channels: Power::init(rails), nvpmode }
    }

    /// The rails of the power monitor whose first readings read, in order.
    pub fn init(rails: &Vec<(Vec<u8>, Vec<u8>, Vec<u8>)>) -> (r: Vec<Channel>)
        ensures
            Seq::new(r@.len(), |i: int| channel_view(r@[i])) == channels_upto(rails@, rails@.len() as int),
    {
        let mut channels: Vec<Channel> = Vec::new();
        let mut j: usize = 0;
        while j < rails.len()
            invariant
                j <= rails@.len(),
                Seq::new(channels@.len(), |i: int| channel_view(channels@[i])) == channels_upto(
                    rails@,
                    j as int,
                ),
            decreases rails@.len() - j,
        {
            if let Some(c) = Channel::init(rails[j].0.as_slice(), rails[j].1.as_slice(), rails[j].2.as_slice()) {
                channels.push(c);
            }
            assert(Seq::new(channels@.len(), |i: int| channel_view(channels@[i])) =~= channels_upto(
                rails@,
                j + 1,
            ));
            j += 1;
        }
        channels
    }

    /// Takes new readings: the status file for the profile, and a pair of
    /// current and voltage readings per rail (pair `i` belongs to rail `i`).
    pub fn refresh(&mut self, status: Option<&[u8]>, readings: &Vec<Option<(Vec<u8>, Vec<u8>)>>)
        ensures
            final(self).nvpmode is Some == old(self).nvpmode is Some,
            old(self).nvpmode is Some ==> nvp_refreshed(
                old(self).nvpmode->0,
                final(self).nvpmode->0,
                bytes_view(status),
            ),
            final(self).channels@.len() == old(self).channels@.len(),
            forall|i: int|
                0 <= i < old(self).channels@.len() ==> #[trigger] final(self).channels@[i]
                    == channel_after(old(self).channels@[i], pair_at(readings@, i)),
    {
        if let Some(n) = &mut self.nvpmode {
            n.refresh(status);
        }
        let mut i: usize = 0;
        let ghost start = self.channels@;
        while i < self.channels.len()
            invariant
                i <= self.channels@.len() == start.len(),
                start == old(self).channels@,
                self.nvpmode is Some == old(self).nvpmode is Some,
                old(self).nvpmode is Some ==> nvp_refreshed(
                    old(self).nvpmode->0,
                    self.nvpmode->0,
                    bytes_view(status),
                ),
                forall|j: int| i <= j < start.len() ==> self.channels@[j] == start[j],
                forall|j: int|
                    0 <= j < i ==> #[trigger] self.channels@[j] == channel_after(start[j], pair_at(readings@, j)),
            decreases start.len() - i,
        {
            if i < readings.len() {
                if let Some((cur, volt)) = &readings[i] {
                    self.channels[i].refresh(cur.as_slice(), volt.as_slice());
                }
            }
            i += 1;
        }
    }
}

} // verus!
