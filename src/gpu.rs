//! GPU load and frequency from its devfreq node.
use vstd::prelude::*;
use crate::metric::{round_div, load_percent};
use crate::memory::{clock_mhz, clock_rate_mhz, opt_view};
use crate::text::{contains, contains_bytes, single_value, parse_single_value};

verus! {

/// A devfreq node is the GPU's when its name holds one of "gv11b",
/// "gp10b", "ga10b" or "gpu".
pub open spec fn is_gpu_name(name: Seq<u8>) -> bool {
    contains(name, seq![103u8, 118, 49, 49, 98]) || contains(name, seq![103u8, 112, 49, 48, 98])
        || contains(name, seq![103u8, 97, 49, 48, 98]) || contains(name, seq![103u8, 112, 117])
}

pub fn is_gpu_node(name: &[u8]) -> (r: bool)
    ensures
        r == is_gpu_name(name@),
{
    let gv11b: [u8; 5] = [103u8, 118, 49, 49, 98];
    let gp10b: [u8; 5] = [103u8, 112, 49, 48, 98];
    let ga10b: [u8; 5] = [103u8, 97, 49, 48, 98];
    let gpu: [u8; 3] = [103u8, 112, 117];
    assert(gv11b@ == seq![103u8, 118, 49, 49, 98]);
    assert(gp10b@ == seq![103u8, 112, 49, 48, 98]);
    assert(ga10b@ == seq![103u8, 97, 49, 48, 98]);
    assert(gpu@ == seq![103u8, 112, 117]);
    contains_bytes(name, gv11b.as_slice()) || contains_bytes(name, gp10b.as_slice())
        || contains_bytes(name, ga10b.as_slice()) || contains_bytes(name, gpu.as_slice())
}

/// GPU load in whole percent, from a reading in tenths of a percent.
pub open spec fn gpu_load_of(reading: Seq<u8>) -> Option<u64> {
    match single_value(reading) {
        Some(v) => Some(round_div(v as int, 10) as u64),
        None => None,
    }
}

pub fn parse_gpu_load(reading: &[u8]) -> (r: Option<u64>)
    ensures
        r == gpu_load_of(reading@),
{
    match parse_single_value(reading) {
        Some(v) => Some(load_percent(v)),
        None => None,
    }
}

/// Current and maximum GPU frequency in MHz.
pub struct GPUFrequency {
    pub current_frequency: u64,
    pub max_frequency: u64,
}

/// The frequencies from readings of both rate files, taken together.
pub open spec fn gpu_frequency_of(current: Option<Seq<u8>>, max: Option<Seq<u8>>) -> Option<GPUFrequency> {
    match (current, max) {
        (Some(c), Some(m)) => match (clock_mhz(c), clock_mhz(m)) {
            (Some(cf), Some(mf)) => Some(GPUFrequency { current_frequency: cf, max_frequency: mf }),
            _ => None,
        },
        _ => None,
    }
}

impl GPUFrequency {
    pub fn init(current: Option<&[u8]>, max: Option<&[u8]>) -> (r: Option<GPUFrequency>)
        ensures
            r == gpu_frequency_of(opt_view(current), opt_view(max)),
    {
        match (current, max) {
            (Some(c), Some(m)) => match (clock_rate_mhz(c), clock_rate_mhz(m)) {
                (Some(cf), Some(mf)) => Some(GPUFrequency { current_frequency: cf, max_frequency: mf }),
                _ => None,
            },
            _ => None,
        }
    }
}

/// GPU load (percent) and frequency, each present only where discovery found it.
pub struct GPU {
    pub load: Option<u64>,
    pub frequency: Option<GPUFrequency>,
}

pub open spec fn first_load(reading: Option<Seq<u8>>) -> Option<u64> {
    match reading {
        Some(r) => gpu_load_of(r),
        None => None,
    }
}

pub open spec fn refreshed_load(load: Option<u64>, reading: Option<Seq<u8>>) -> Option<u64> {
    match (load, first_load(reading)) {
        (Some(_), Some(v)) => Some(v),
        _ => load,
    }
}

pub open spec fn refreshed_gpu_frequency(f: Option<GPUFrequency>, current: Option<Seq<u8>>, max: Option<Seq<u8>>) -> Option<GPUFrequency> {
    match (f, gpu_frequency_of(current, max)) {
        (Some(_), Some(n)) => Some(n),
        _ => f,
    }
}

impl GPU {
    /// Discovery from first readings of the GPU node's load and rate files.
    pub fn new(load: Option<&[u8]>, current: Option<&[u8]>, max: Option<&[u8]>) -> (r: GPU)
        ensures
            r.load == first_load(opt_view(load)),
            r.frequency == gpu_frequency_of(opt_view(current), opt_view(max)),
    {
        let l = match load {
            Some(c) => parse_gpu_load(c),
            None => None,
        };
        GPU { load: l, frequency: GPUFrequency::init(current, max) }
    }

    /// Takes new readings; a part keeps its value where its reading is
    /// missing or does not read, and an absent part stays absent.
    pub fn refresh(&mut self, load: Option<&[u8]>, current: Option<&[u8]>, max: Option<&[u8]>)
        ensures
            final(self).load == refreshed_load(old(self).load, opt_view(load)),
            final(self).frequency == refreshed_gpu_frequency(old(self).frequency, opt_view(current), opt_view(max)),
    {
        if self.load.is_some() {
            if let Some(c) = load {
                if let Some(v) = parse_gpu_load(c) {
                    self.load = Some(v);
                }
            }
        }
        if self.frequency.is_some() {
            if let Some(f) = GPUFrequency::init(current, max) {
                self.frequency = Some(f);
            }
        }
    }
}

} // verus!
