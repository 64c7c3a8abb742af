//! Fan speed from hwmon and the configured fan profile.
use vstd::prelude::*;
use crate::memory::opt_view;
use crate::text::{lines, words, views, single_value, split_lines, split_words, bytes_eq, parse_single_value};

verus! {

/// The fan profile named in `/etc/nvfancontrol.conf`.
#[derive(PartialEq, Eq, Structural, Clone, Copy, Debug)]
pub enum Profile {
    Quiet,
    Cool,
    Unknown,
}

/// "FAN_DEFAULT_PROFILE"
pub open spec fn profile_key() -> Seq<u8> {
    seq![70u8, 65, 78, 95, 68, 69, 70, 65, 85, 76, 84, 95, 80, 82, 79, 70, 73, 76, 69]
}

/// The profile that a mode word names: "quiet", "cool", anything else.
pub open spec fn profile_named(w: Seq<u8>) -> Profile {
    if w == seq![113u8, 117, 105, 101, 116] {
        Profile::Quiet
    } else if w == seq![99u8, 111, 111, 108] {
        Profile::Cool
    } else {
        Profile::Unknown
    }
}

/// Index of the first line at `i` or later made of exactly two words, the
/// first of them "FAN_DEFAULT_PROFILE", or -1.
pub open spec fn profile_line(ls: Seq<Seq<u8>>, i: int) -> int
    decreases ls.len() - i,
{
    if i < 0 || i >= ls.len() {
        -1
    } else if words(ls[i]).len() == 2 && words(ls[i])[0] == profile_key() {
        i
    } else {
        profile_line(ls, i + 1)
    }
}

/// The profile that the configuration selects, if it names one.
pub open spec fn profile_of(conf: Seq<u8>) -> Option<Profile> {
    let k = profile_line(lines(conf), 0);
    if k < 0 {
        None
    } else {
        Some(profile_named(words(lines(conf)[k])[1]))
    }
}

pub fn parse_profile(conf: &[u8]) -> (r: Option<Profile>)
    ensures
        r == profile_of(conf@),
{
    let key: [u8; 19] = [70u8, 65, 78, 95, 68, 69, 70, 65, 85, 76, 84, 95, 80, 82, 79, 70, 73, 76, 69];
    let quiet: [u8; 5] = [113u8, 117, 105, 101, 116];
    let cool: [u8; 4] = [99u8, 111, 111, 108];
    assert(key@ == profile_key());
    assert(quiet@ == seq![113u8, 117, 105, 101, 116]);
    assert(cool@ == seq![99u8, 111, 111, 108]);
    let ls = split_lines(conf);
    let ghost l = views(ls@);
    let mut i: usize = 0;
    while i < ls.len()
        invariant
            i <= ls.len(),
            l == views(ls@),
            l == lines(conf@),
            key@ == profile_key(),
            quiet@ == seq![113u8, 117, 105, 101, 116],
            cool@ == seq![99u8, 111, 111, 108],
            profile_line(l, 0) == profile_line(l, i as int),
        decreases ls.len() - i,
    {
        assert(ls[i as int]@ == l[i as int]);
        let ws = split_words(ls[i].as_slice());
        if ws.len() == 2 {
            assert(ws[0]@ == views(ws@)[0] && ws[1]@ == views(ws@)[1]);
            if bytes_eq(ws[0].as_slice(), key.as_slice()) {
                if bytes_eq(ws[1].as_slice(), quiet.as_slice()) {
                    return Some(Profile::Quiet);
                } else if bytes_eq(ws[1].as_slice(), cool.as_slice()) {
                    return Some(Profile::Cool);
                } else {
                    return Some(Profile::Unknown);
                }
            }
        }
        i += 1;
    }
    None
}

/// Fan speed (RPM) and profile, each present only where discovery found it.
pub struct Fan {
    pub rpm: Option<u64>,
    pub profile: Option<Profile>,
}

pub open spec fn first_rpm(reading: Option<Seq<u8>>) -> Option<u64> {
    match reading {
        Some(r) => match single_value(r) {
            Some(v) => Some(v as u64),
            None => None,
        },
        None => None,
    }
}

pub open spec fn first_profile(conf: Option<Seq<u8>>) -> Option<Profile> {
    match conf {
        Some(c) => profile_of(c),
        None => None,
    }
}

pub open spec fn refreshed_rpm(rpm: Option<u64>, reading: Option<Seq<u8>>) -> Option<u64> {
    match (rpm, first_rpm(reading)) {
        (Some(_), Some(v)) => Some(v),
        _ => rpm,
    }
}

pub open spec fn refreshed_profile(p: Option<Profile>, conf: Option<Seq<u8>>) -> Option<Profile> {
    match (p, first_profile(conf)) {
        (Some(_), Some(v)) => Some(v),
        _ => p,
    }
}

impl Fan {
    /// Discovery from a first reading of the hwmon `rpm` file and of the
    /// fan configuration.
    pub fn new(rpm: Option<&[u8]>, conf: Option<&[u8]>) -> (r: Fan)
        ensures
            r.rpm == first_rpm(opt_view(rpm)),
            r.profile == first_profile(opt_view(conf)),
    {
        let v = match rpm {
            Some(c) => parse_single_value(c),
            None => None,
        };
        let p = match conf {
            Some(c) => parse_profile(c),
            None => None,
        };
        Fan { rpm: v, profile: p }
    }

    /// Takes new readings; a part keeps its value where its reading is
    /// missing or does not read, and an absent part stays absent.
    pub fn refresh(&mut self, rpm: Option<&[u8]>, conf: Option<&[u8]>)
        ensures
            final(self).rpm == refreshed_rpm(old(self).rpm, opt_view(rpm)),
            final(self).profile == refreshed_profile(old(self).profile, opt_view(conf)),
    {
        if self.rpm.is_some() {
            if let Some(c) = rpm {
                if let Some(v) = parse_single_value(c) {
                    self.rpm = Some(v);
                }
            }
        }
        if self.profile.is_some() {
            if let Some(c) = conf {
                if let Some(p) = parse_profile(c) {
                    self.profile = Some(p);
                }
            }
        }
    }
}

} // verus!
