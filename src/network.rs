//! Network interfaces and their IPv4 addresses.
use vstd::prelude::*;
use crate::text::bytes_eq;

verus! {

/// An interface; `ipv4` is the address as a number whose big-endian bytes
/// are the four octets.
pub struct Interface {
    pub name: Vec<u8>,
    pub ipv4: Option<u32>,
}

pub open spec fn iface_view(i: Interface) -> (Seq<u8>, Option<u32>) {
    (i.name@, i.ipv4)
}

pub open spec fn ifaces_view(v: Seq<Interface>) -> Seq<(Seq<u8>, Option<u32>)> {
    Seq::new(v.len(), |i: int| iface_view(v[i]))
}

/// Index of the first interface named `name` at `i` or later, or -1.
pub open spec fn iface_index(s: Seq<(Seq<u8>, Option<u32>)>, name: Seq<u8>, i: int) -> int
    decreases s.len() - i,
{
    if i < 0 || i >= s.len() {
        -1
    } else if s[i].0 == name {
        i
    } else {
        iface_index(s, name, i + 1)
    }
}

/// The interfaces after the first `n` address entries: each name appears
/// once, in order of first appearance, with the last IPv4 address given for it.
pub open spec fn ifaces_upto(es: Seq<(Vec<u8>, Option<u32>)>, n: int) -> Seq<(Seq<u8>, Option<u32>)>
    decreases n,
{
    if n <= 0 {
        Seq::empty()
    } else {
        let prev = ifaces_upto(es, n - 1);
        let name = es[n - 1].0@;
        let k = iface_index(prev, name, 0);
        let with = if k < 0 {
            prev.push((name, None))
        } else {
            prev
        };
        let at = if k < 0 {
            prev.len() as int
        } else {
            k
        };
        match es[n - 1].1 {
            Some(a) => with.update(at, (name, Some(a))),
            None => with,
        }
    }
}

/// "lo"
pub open spec fn loopback() -> Seq<u8> {
    seq![108u8, 111]
}

/// The first `n` interfaces of `s` other than the loopback one.
pub open spec fn without_loopback(s: Seq<(Seq<u8>, Option<u32>)>, n: int) -> Seq<(Seq<u8>, Option<u32>)>
    decreases n,
{
    if n <= 0 {
        Seq::empty()
    } else {
        let prev = without_loopback(s, n - 1);
        if s[n - 1].0 == loopback() {
            prev
        } else {
            prev.push(s[n - 1])
        }
    }
}

pub open spec fn interfaces_of(es: Seq<(Vec<u8>, Option<u32>)>) -> Seq<(Seq<u8>, Option<u32>)> {
    let all = ifaces_upto(es, es.len() as int);
    without_loopback(all, all.len() as int)
}

proof fn lemma_iface_index_range(s: Seq<(Seq<u8>, Option<u32>)>, name: Seq<u8>, i: int)
    requires
        0 <= i,
    ensures
        -1 <= iface_index(s, name, i) < s.len(),
        iface_index(s, name, i) >= 0 ==> s[iface_index(s, name, i)].0 == name,
    decreases s.len() - i,
{
    if i < s.len() {
        lemma_iface_index_range(s, name, i + 1);
    }
}

fn find_iface(v: &Vec<Interface>, name: &[u8]) -> (r: Option<usize>)
    ensures
        match r {
            Some(k) => k as int == iface_index(ifaces_view(v@), name@, 0) && k < v@.len(),
            None => iface_index(ifaces_view(v@), name@, 0) == -1,
        },
{
    let mut i: usize = 0;
    while i < v.len()
        invariant
            i <= v.len(),
            iface_index(ifaces_view(v@), name@, 0) == iface_index(ifaces_view(v@), name@, i as int),
        decreases v.len() - i,
    {
        if bytes_eq(v[i].name.as_slice(), name) {
            return Some(i);
        }
        i += 1;
    }
    None
}

/// The interfaces of the host, without the loopback one.
pub struct Network {
    pub interfaces: Vec<Interface>,
}

impl Network {
    pub fn new() -> (r: Network)
        ensures
            r.interfaces@.len() == 0,
    {
        Network { interfaces: Vec::new() }
    }

    /// Rebuilds the list from the host's address entries, in the order the
    /// system lists them: an interface name and, for an IPv4 entry, its address.
    pub fn refresh(&mut self, entries: &Vec<(Vec<u8>, Option<u32>)>)
        ensures
            ifaces_view(final(self).interfaces@) == interfaces_of(entries@),
    {
        let mut all: Vec<Interface> = Vec::new();
        let mut i: usize = 0;
        while i < entries.len()
            invariant
                i <= entries@.len(),
                ifaces_view(all@) == ifaces_upto(entries@, i as int),
            decreases entries@.len() - i,
        {
            let name = &entries[i].0;
            let ghost prev = ifaces_view(all@);
            proof {
                lemma_iface_index_range(prev, name@, 0);
            }
            let k = match find_iface(&all, name.as_slice()) {
                Some(k) => k,
                None => {
                    all.push(Interface { name: name.clone(), ipv4: None });
                    assert(ifaces_view(all@) =~= prev.push((name@, None)));
                    all.len() - 1
                },
            };
            if let Some(a) = entries[i].1 {
                let ghost before = ifaces_view(all@);
                assert(before[k as int].0 == name@);
                all[k].ipv4 = Some(a);
                assert(ifaces_view(all@) =~= before.update(k as int, (name@, Some(a))));
            }
            assert(ifaces_view(all@) =~= ifaces_upto(entries@, i + 1));
            i += 1;
        }
        let lo: [u8; 2] = [108u8, 111];
        assert(lo@ == loopback());
        let ghost full = ifaces_view(all@);
        let mut kept: Vec<Interface> = Vec::new();
        let mut j: usize = 0;
        while j < all.len()
            invariant
                j <= all@.len() == full.len(),
                full == ifaces_view(all@),
                lo@ == loopback(),
                ifaces_view(kept@) == without_loopback(full, j as int),
            decreases all@.len() - j,
        {
            if !bytes_eq(all[j].name.as_slice(), lo.as_slice()) {
                let ghost before = ifaces_view(kept@);
                kept.push(Interface { name: all[j].name.clone(), ipv4: all[j].ipv4 });
                assert(ifaces_view(kept@) =~= before.push(full[j as int]));
            }
            j += 1;
        }
        self.interfaces = kept;
    }
}

} // verus!
