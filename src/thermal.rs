//! Named temperature sensors from the thermal zones.
use vstd::prelude::*;
use crate::text::{before_first, trimmed, single_signed, parse_single_signed, trim, find_byte, has_prefix, starts_with};
use crate::pattern::copy_range;

verus! {

/// "thermal_zone"
pub open spec fn zone_prefix() -> Seq<u8> {
    seq![116u8, 104, 101, 114, 109, 97, 108, 95, 122, 111, 110, 101]
}

/// A directory under the thermal class is a zone when its name starts with
/// "thermal_zone".
pub fn is_thermal_zone(name: &[u8]) -> (r: bool)
    ensures
        r == has_prefix(name@, zone_prefix()),
{
    let p: [u8; 12] = [116u8, 104, 101, 114, 109, 97, 108, 95, 122, 111, 110, 101];
    assert(p@ == zone_prefix());
    starts_with(name, p.as_slice())
}

/// A zone's sensor name: its `type` up to the first '-', without surrounding
/// whitespace.
pub open spec fn sensor_name(zone_type: Seq<u8>) -> Seq<u8> {
    trimmed(before_first(zone_type, 45))
}

pub fn parse_sensor_name(zone_type: &[u8]) -> (r: Vec<u8>)
    ensures
        r@ == sensor_name(zone_type@),
{
    let k = find_byte(zone_type, 45, 0);
    let head = copy_range(zone_type, 0, k);
    trim(head.as_slice())
}

/// A temperature sensor; `temperature` is in millidegrees Celsius.
pub struct Sensor {
    pub name: Vec<u8>,
    pub temperature: i64,
}

pub open spec fn sensor_temperature(reading: Seq<u8>) -> Option<i64> {
    match single_signed(reading) {
        Some(v) => Some(v as i64),
        None => None,
    }
}

impl Sensor {
    /// Discovery of one zone from its `type` and a first `temp` reading;
    /// `None` where the reading does not parse.
    pub fn init(zone_type: &[u8], temp: &[u8]) -> (r: Option<Sensor>)
        ensures
            match r {
                Some(s) => s.name@ == sensor_name(zone_type@) && sensor_temperature(temp@) == Some(s.temperature),
                None => sensor_temperature(temp@) is None,
            },
    {
        match parse_single_signed(temp) {
            Some(t) => Some(Sensor { name: parse_sensor_name(zone_type), temperature: t }),
            None => None,
        }
    }

    /// Takes a new reading; one that does not parse leaves the value as it was.
    pub fn refresh(&mut self, temp: &[u8]) -> (r: bool)
        ensures
            r == sensor_temperature(temp@) is Some,
            r ==> *final(self) == (Sensor { name: old(self).name, temperature: sensor_temperature(temp@)->0 }),
            !r ==> *final(self) == *old(self),
    {
        match parse_single_signed(temp) {
            Some(t) => {
                self.temperature = t;
                true
            },
            None => false,
        }
    }
}

/// A sensor after a refresh with `reading`: a reading that parses replaces
/// the temperature, anything else leaves it.
pub open spec fn sensor_after(s: Sensor, reading: Option<Vec<u8>>) -> Sensor {
    match reading {
        Some(r) => match sensor_temperature(r@) {
            Some(v) => Sensor { name: s.name, temperature: v },
            None => s,
        },
        None => s,
    }
}

pub open spec fn sensor_view(s: Sensor) -> (Seq<u8>, i64) {
    (s.name@, s.temperature)
}

/// The sensors that the first `n` zones (their `type` and `temp` readings)
/// give at discovery: a zone whose reading does not parse is left out.
pub open spec fn sensors_upto(zones: Seq<(Vec<u8>, Vec<u8>)>, n: int) -> Seq<(Seq<u8>, i64)>
    decreases n,
{
    if n <= 0 {
        Seq::empty()
    } else {
        let prev = sensors_upto(zones, n - 1);
        match sensor_temperature(zones[n - 1].1@) {
            Some(t) => prev.push((sensor_name(zones[n - 1].0@), t)),
            None => prev,
        }
    }
}

/// The sensors found at discovery.
pub struct Thermal {
    pub sensors: Vec<Sensor>,
}

impl Thermal {
    /// Discovery from each zone's `type` and first `temp` reading.
    pub fn new(zones: &Vec<(Vec<u8>, Vec<u8>)>) -> (r: Thermal)
        ensures
            Seq::new(r.sensors@.len(), |i: int| sensor_view(r.sensors@[i])) == sensors_upto(
                zones@,
                zones@.len() as int,
            ),
    {
        Thermal { sensors: Thermal::init(zones) }
    }

    /// The sensors of the zones whose first reading parses, in order.
    pub fn init(zones: &Vec<(Vec<u8>, Vec<u8>)>) -> (r: Vec<Sensor>)
        ensures
            Seq::new(r@.len(), |i: int| sensor_view(r@[i])) == sensors_upto(zones@, zones@.len() as int),
    {
        let mut sensors: Vec<Sensor> = Vec::new();
        let mut j: usize = 0;
        while j < zones.len()
            invariant
                j <= zones@.len(),
                Seq::new(sensors@.len(), |i: int| sensor_view(sensors@[i])) == sensors_upto(
                    zones@,
                    j as int,
                ),
            decreases zones@.len() - j,
        {
            let ghost before = Seq::new(sensors@.len(), |i: int| sensor_view(sensors@[i]));
            if let Some(s) = Sensor::init(zones[j].0.as_slice(), zones[j].1.as_slice()) {
                sensors.push(s);
            }
            assert(Seq::new(sensors@.len(), |i: int| sensor_view(sensors@[i])) =~= sensors_upto(
                zones@,
                j + 1,
            ));
            j += 1;
        }
        sensors
    }

    /// Takes a new reading for each sensor: reading `i` belongs to sensor `i`.
    pub fn refresh(&mut self, readings: &Vec<Option<Vec<u8>>>)
        ensures
            final(self).sensors@.len() == old(self).sensors@.len(),
            forall|i: int|
                0 <= i < old(self).sensors@.len() ==> #[trigger] final(self).sensors@[i]
                    == sensor_after(old(self).sensors@[i], crate::cpu::reading_at(readings@, i)),
    {
        let mut i: usize = 0;
        let ghost start = self.sensors@;
        while i < self.sensors.len()
            invariant
                i <= self.sensors@.len() == start.len(),
                start == old(self).sensors@,
                forall|j: int| i <= j < start.len() ==> self.sensors@[j] == start[j],
                forall|j: int|
                    0 <= j < i ==> #[trigger] self.sensors@[j] == sensor_after(
                        start[j],
                        crate::cpu::reading_at(readings@, j),
                    ),
            decreases start.len() - i,
        {
            if i < readings.len() {
                if let Some(r) = &readings[i] {
                    self.sensors[i].refresh(r.as_slice());
                }
            }
            i += 1;
        }
    }
}

} // verus!
