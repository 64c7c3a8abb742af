//! Hardware engines (accelerators) and their clocks.
use vstd::prelude::*;
use crate::memory::{clock_mhz, clock_rate_mhz};
use crate::text::{trimmed, trim, bytes_eq};

verus! {

/// The engines whose clocks are looked for, in this order.
#[derive(PartialEq, Eq, Structural, Clone, Copy, Debug)]
pub enum HWName {
    APE,
    DLA,
    CVNAS,
    MSENC,
    NVENC,
    NVDEC,
    NVJPG,
    PVA,
    SE,
    VIC,
}

/// The order in which engines are probed.
pub open spec fn engine_order() -> Seq<HWName> {
    seq![
        HWName::APE,
        HWName::DLA,
        HWName::CVNAS,
        HWName::MSENC,
        HWName::NVENC,
        HWName::NVDEC,
        HWName::NVJPG,
        HWName::PVA,
        HWName::SE,
        HWName::VIC,
    ]
}

/// The engine's clock directory name: its name in lower case.
pub open spec fn dir_name_of(n: HWName) -> Seq<u8> {
    match n {
        HWName::APE => seq![97u8, 112, 101],
        HWName::DLA => seq![100u8, 108, 97],
        HWName::CVNAS => seq![99u8, 118, 110, 97, 115],
        HWName::MSENC => seq![109u8, 115, 101, 110, 99],
        HWName::NVENC => seq![110u8, 118, 101, 110, 99],
        HWName::NVDEC => seq![110u8, 118, 100, 101, 99],
        HWName::NVJPG => seq![110u8, 118, 106, 112, 103],
        HWName::PVA => seq![112u8, 118, 97],
        HWName::SE => seq![115u8, 101],
        HWName::VIC => seq![118u8, 105, 99],
    }
}

impl HWName {
    /// Every engine, in probing order.
    pub fn all() -> (r: Vec<HWName>)
        ensures
            r@ == engine_order(),
    {
        let r = vec![
            HWName::APE,
            HWName::DLA,
            HWName::CVNAS,
            HWName::MSENC,
            HWName::NVENC,
            HWName::NVDEC,
            HWName::NVJPG,
            HWName::PVA,
            HWName::SE,
            HWName::VIC,
        ];
        assert(r@ =~= engine_order());
        r
    }

    /// The name of the engine's clock directory.
    pub fn dir_name(&self) -> (r: Vec<u8>)
        ensures
            r@ == dir_name_of(*self),
    {
        let r = match self {
            HWName::APE => vec![97u8, 112, 101],
            HWName::DLA => vec![100u8, 108, 97],
            HWName::CVNAS => vec![99u8, 118, 110, 97, 115],
            HWName::MSENC => vec![109u8, 115, 101, 110, 99],
            HWName::NVENC => vec![110u8, 118, 101, 110, 99],
            HWName::NVDEC => vec![110u8, 118, 100, 101, 99],
            HWName::NVJPG => vec![110u8, 118, 106, 112, 103],
            HWName::PVA => vec![112u8, 118, 97],
            HWName::SE => vec![115u8, 101],
            HWName::VIC => vec![118u8, 105, 99],
        };
        assert(r@ =~= dir_name_of(*self));
        r
    }
}

#[derive(PartialEq, Eq, Structural, Clone, Copy, Debug)]
pub enum HWState {
    Idle,
    Running,
}

/// An engine whose clock was found: its state and clock rate in MHz.
#[derive(PartialEq, Eq, Structural, Clone, Copy, Debug)]
pub struct HW {
    pub name: HWName,
    pub state: HWState,
    pub frequency: u64,
}

/// An engine runs when its clock's enable count reads "1".
pub open spec fn state_of(enable_count: Seq<u8>) -> HWState {
    if trimmed(enable_count) == seq![49u8] {
        HWState::Running
    } else {
        HWState::Idle
    }
}

/// The engine that a probe gives: its enable count and rate readings, or
/// `None` where the clock directory or one of its files is missing or the
/// rate does not read.
pub open spec fn hw_of(name: HWName, probe: Option<(Vec<u8>, Vec<u8>)>) -> Option<HW> {
    match probe {
        Some((enable, rate)) => match clock_mhz(rate@) {
            Some(f) => Some(HW { name, state: state_of(enable@), frequency: f }),
            None => None,
        },
        None => None,
    }
}

/// The engines that the first `n` probes give, in probing order.
pub open spec fn engines_upto(probes: Seq<Option<(Vec<u8>, Vec<u8>)>>, n: int) -> Seq<HW>
    decreases n,
{
    if n <= 0 {
        Seq::empty()
    } else {
        let prev = engines_upto(probes, n - 1);
        let p = if n - 1 < probes.len() {
            probes[n - 1]
        } else {
            None
        };
        match hw_of(engine_order()[n - 1], p) {
            Some(h) => prev.push(h),
            None => prev,
        }
    }
}

/// The engines found at the last refresh.
pub struct Engine {
    pub hws: Vec<HW>,
}

impl Engine {
    pub fn new() -> (r: Engine)
        ensures
            r.hws@.len() == 0,
    {
        Engine { hws: Vec::new() }
    }

    /// Rebuilds the list from one probe per engine, in the order of
    /// `HWName::all` (probe `i` belongs to engine `i`).
    pub fn refresh(&mut self, probes: &Vec<Option<(Vec<u8>, Vec<u8>)>>)
        ensures
            final(self).hws@ == engines_upto(probes@, 10),
    {
        let names = HWName::all();
        let one: [u8; 1] = [49u8];
        assert(one@ == seq![49u8]);
        let mut hws: Vec<HW> = Vec::new();
        let mut i: usize = 0;
        while i < 10
            invariant
                i <= 10,
                names@ == engine_order(),
                one@ == seq![49u8],
                hws@ == engines_upto(probes@, i as int),
            decreases 10 - i,
        {
            if i < probes.len() {
                if let Some((enable, rate)) = &probes[i] {
                    if let Some(f) = clock_rate_mhz(rate.as_slice()) {
                        let t = trim(enable.as_slice());
                        let state = if bytes_eq(t.as_slice(), one.as_slice()) {
                            HWState::Running
                        } else {
                            HWState::Idle
                        };
                        hws.push(HW { name: names[i], state, frequency: f });
                    }
                }
            }
            i += 1;
        }
        self.hws = hws;
    }
}

} // verus!
