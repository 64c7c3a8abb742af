//! Uptime and load averages.
use vstd::prelude::*;
use crate::memory::opt_view;
use crate::metric::{split_duration, duration_parts};
use crate::pattern::copy_range;
use crate::text::{
    before_first, trimmed, is_decimal, decimal_value, words, views, trim, find_byte,
    split_words, parse_decimal,
};

verus! {

/// Whole seconds of uptime: the part of `/proc/uptime` (without surrounding
/// whitespace) before its first '.', as a decimal number.
pub open spec fn uptime_seconds(content: Seq<u8>) -> Option<u64> {
    let w = before_first(trimmed(content), 46);
    if is_decimal(w) && decimal_value(w) <= u64::MAX {
        Some(decimal_value(w) as u64)
    } else {
        None
    }
}

/// Uptime split into days, hours, minutes and seconds.
#[derive(PartialEq, Eq, Structural, Clone, Copy, Debug)]
pub struct Uptime {
    pub days: u64,
    pub hours: u64,
    pub minutes: u64,
    pub seconds: u64,
}

pub open spec fn uptime_of(content: Seq<u8>) -> Option<Uptime> {
    match uptime_seconds(content) {
        Some(s) => {
            let (d, h, m, sec) = split_duration(s as int);
            Some(Uptime { days: d as u64, hours: h as u64, minutes: m as u64, seconds: sec as u64 })
        },
        None => None,
    }
}

pub fn parse_uptime(content: &[u8]) -> (r: Option<Uptime>)
    ensures
        r == uptime_of(content@),
{
    let t = trim(content);
    let k = find_byte(t.as_slice(), 46, 0);
    let w = copy_range(t.as_slice(), 0, k);
    match parse_decimal(w.as_slice()) {
        Some(s) => {
            let (d, h, m, sec) = duration_parts(s);
            Some(Uptime { days: d, hours: h, minutes: m, seconds: sec })
        },
        None => None,
    }
}

/// A load average written with two decimals ("0.52"), in hundredths.
pub open spec fn hundredths(w: Seq<u8>) -> Option<u64> {
    let n = w.len() as int;
    if n >= 4 && w[n - 3] == 46 && is_decimal(w.subrange(0, n - 3)) && is_decimal(w.subrange(n - 2, n))
        && decimal_value(w.subrange(0, n - 3)) * 100 + decimal_value(w.subrange(n - 2, n)) <= u64::MAX {
        Some((decimal_value(w.subrange(0, n - 3)) * 100 + decimal_value(w.subrange(n - 2, n))) as u64)
    } else {
        None
    }
}

pub fn parse_hundredths(w: &[u8]) -> (r: Option<u64>)
    ensures
        r == hundredths(w@),
{
    let n = w.len();
    if n < 4 || w[n - 3] != 46 {
        return None;
    }
    let whole = copy_range(w, 0, n - 3);
    let frac = copy_range(w, n - 2, n);
    match (parse_decimal(whole.as_slice()), parse_decimal(frac.as_slice())) {
        (Some(a), Some(b)) => {
            if a > (u64::MAX - b) / 100 {
                assert(a * 100 + b > u64::MAX) by (nonlinear_arith)
                    requires
                        a > (u64::MAX - b) / 100,
                        b <= u64::MAX,
                ;
                None
            } else {
                assert(a * 100 + b <= u64::MAX) by (nonlinear_arith)
                    requires
                        a <= (u64::MAX - b) / 100,
                        b <= u64::MAX,
                ;
                Some(a * 100 + b)
            }
        },
        _ => None,
    }
}

/// The 1, 5 and 15 minute load averages, in hundredths.
#[derive(PartialEq, Eq, Structural, Clone, Copy, Debug)]
pub struct Loadavg {
    pub one: u64,
    pub five: u64,
    pub fifteen: u64,
}

/// The first three words of `/proc/loadavg`.
pub open spec fn loadavg_of(content: Seq<u8>) -> Option<Loadavg> {
    let ws = words(content);
    if ws.len() >= 3 {
        match (hundredths(ws[0]), hundredths(ws[1]), hundredths(ws[2])) {
            (Some(a), Some(b), Some(c)) => Some(Loadavg { one: a, five: b, fifteen: c }),
            _ => None,
        }
    } else {
        None
    }
}

pub fn parse_loadavg(content: &[u8]) -> (r: Option<Loadavg>)
    ensures
        r == loadavg_of(content@),
{
    let ws = split_words(content);
    if ws.len() < 3 {
        return None;
    }
    assert(ws[0]@ == views(ws@)[0] && ws[1]@ == views(ws@)[1] && ws[2]@ == views(ws@)[2]);
    match (parse_hundredths(ws[0].as_slice()), parse_hundredths(ws[1].as_slice()), parse_hundredths(ws[2].as_slice())) {
        (Some(a), Some(b), Some(c)) => Some(Loadavg { one: a, five: b, fifteen: c }),
        _ => None,
    }
}

/// Load averages and uptime, each present only where discovery found it.
pub struct System {
    pub loadavg: Option<Loadavg>,
    pub uptime: Option<Uptime>,
}

pub open spec fn first_loadavg(c: Option<Seq<u8>>) -> Option<Loadavg> {
    match c {
        Some(s) => loadavg_of(s),
        None => None,
    }
}

pub open spec fn first_uptime(c: Option<Seq<u8>>) -> Option<Uptime> {
    match c {
        Some(s) => uptime_of(s),
        None => None,
    }
}

pub open spec fn refreshed_loadavg(l: Option<Loadavg>, c: Option<Seq<u8>>) -> Option<Loadavg> {
    match (l, first_loadavg(c)) {
        (Some(_), Some(v)) => Some(v),
        _ => l,
    }
}

pub open spec fn refreshed_uptime(u: Option<Uptime>, c: Option<Seq<u8>>) -> Option<Uptime> {
    match (u, first_uptime(c)) {
        (Some(_), Some(v)) => Some(v),
        _ => u,
    }
}

impl System {
    /// Discovery from first readings of `/proc/loadavg` and `/proc/uptime`.
    pub fn new(loadavg: Option<&[u8]>, uptime: Option<&[u8]>) -> (r: System)
        ensures
            r.loadavg == first_loadavg(opt_view(loadavg)),
            r.uptime == first_uptime(opt_view(uptime)),
    {
        let l = match loadavg {
            Some(c) => parse_loadavg(c),
            None => None,
        };
        let u = match uptime {
            Some(c) => parse_uptime(c),
            None => None,
        };
        System { loadavg: l, uptime: u }
    }

    /// Takes new readings; a part keeps its value where its reading is
    /// missing or does not read, and an absent part stays absent.
    pub fn refresh(&mut self, loadavg: Option<&[u8]>, uptime: Option<&[u8]>)
        ensures
            final(self).loadavg == refreshed_loadavg(old(self).loadavg, opt_view(loadavg)),
            final(self).uptime == refreshed_uptime(old(self).uptime, opt_view(uptime)),
    {
        if self.loadavg.is_some() {
            if let Some(c) = loadavg {
                if let Some(v) = parse_loadavg(c) {
                    self.loadavg = Some(v);
                }
            }
        }
        if self.uptime.is_some() {
            if let Some(c) = uptime {
                if let Some(v) = parse_uptime(c) {
                    self.uptime = Some(v);
                }
            }
        }
    }
}

} // verus!
