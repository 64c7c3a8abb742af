//! Board identity: model, L4T release and firmware version.
use vstd::prelude::*;
use crate::memory::opt_view;
use crate::pattern::{Part, Piece, find, find_in, parts_of, copy_range};
use crate::text::{before_first, find_byte, views};

verus! {

/// `R<release> (release), REVISION: <major>.<minor>`
pub open spec fn release_format() -> Seq<Part> {
    seq![
        Part::Lit(seq![82u8]),
        Part::Digits,
        Part::Lit(
            seq![32u8, 40, 114, 101, 108, 101, 97, 115, 101, 41, 44, 32, 82, 69, 86, 73, 83, 73, 79, 78, 58, 32],
        ),
        Part::Digits,
        Part::Lit(seq![46u8]),
        Part::Digits,
    ]
}

fn release_pattern() -> (r: Vec<Piece>)
    ensures
        parts_of(r@) == release_format(),
{
    let a: Vec<u8> = vec![82u8];
    let b: Vec<u8> = vec![32u8, 40, 114, 101, 108, 101, 97, 115, 101, 41, 44, 32, 82, 69, 86, 73, 83, 73, 79, 78, 58, 32];
    let c: Vec<u8> = vec![46u8];
    assert(a@ == seq![82u8]);
    assert(b@ == seq![32u8, 40, 114, 101, 108, 101, 97, 115, 101, 41, 44, 32, 82, 69, 86, 73, 83, 73, 79, 78, 58, 32]);
    assert(c@ == seq![46u8]);
    let mut r: Vec<Piece> = Vec::new();
    r.push(Piece::Lit(a));
    r.push(Piece::Digits);
    r.push(Piece::Lit(b));
    r.push(Piece::Digits);
    r.push(Piece::Lit(c));
    r.push(Piece::Digits);
    assert(parts_of(r@) =~= release_format());
    r
}

/// The L4T version in `/etc/nv_tegra_release`: release, major and minor
/// revision joined by dots ("R32 (release), REVISION: 7.1" gives "32.7.1").
pub open spec fn l4t_of(content: Seq<u8>) -> Option<Seq<u8>> {
    match find_in(release_format(), content) {
        Some(c) => Some(c[0] + seq![46u8] + c[1] + seq![46u8] + c[2]),
        None => None,
    }
}

pub fn parse_l4t(content: &[u8]) -> (r: Option<Vec<u8>>)
    ensures
        match r {
            Some(v) => l4t_of(content@) == Some(v@),
            None => l4t_of(content@) is None,
        },
{
    let ps = release_pattern();
    match find(ps.as_slice(), content) {
        Some(c) => {
            proof {
                crate::pattern::lemma_find_captures(release_format(), content@, 0);
                assert(crate::pattern::capture_count(release_format(), 0) == 3) by {
                    reveal_with_fuel(crate::pattern::capture_count, 7);
                }
            }
            assert(c@.len() == 3);
            assert(c[0]@ == views(c@)[0] && c[1]@ == views(c@)[1] && c[2]@ == views(c@)[2]);
            let mut v: Vec<u8> = c[0].clone();
            v.push(46u8);
            let mut b = c[1].clone();
            v.append(&mut b);
            v.push(46u8);
            let mut d = c[2].clone();
            v.append(&mut d);
            assert(v@ =~= c[0]@ + seq![46u8] + c[1]@ + seq![46u8] + c[2]@);
            Some(v)
        },
        None => None,
    }
}

/// The firmware version: the content of `bios_version` up to its first '-'.
pub open spec fn bios_of(content: Seq<u8>) -> Seq<u8> {
    before_first(content, 45)
}

pub fn parse_bios(content: &[u8]) -> (r: Vec<u8>)
    ensures
        r@ == bios_of(content@),
{
    let k = find_byte(content, 45, 0);
    copy_range(content, 0, k)
}

/// The board's identity strings, each independently optional.
pub struct Board {
    pub name: Option<Vec<u8>>,
    pub l4t: Option<Vec<u8>>,
    pub bios: Option<Vec<u8>>,
}

pub open spec fn bytes_opt(o: Option<Vec<u8>>) -> Option<Seq<u8>> {
    match o {
        Some(v) => Some(v@),
        None => None,
    }
}

impl Board {
    /// The identity from the device-tree model, the release file and the
    /// firmware version file; a missing file leaves only its own part absent.
    pub fn new(model: Option<&[u8]>, release: Option<&[u8]>, bios: Option<&[u8]>) -> (r: Board)
        ensures
            bytes_opt(r.name) == opt_view(model),
            bytes_opt(r.l4t) == (match release {
                Some(c) => l4t_of(c@),
                None => None,
            }),
            bytes_opt(r.bios) == (match bios {
                Some(c) => Some(bios_of(c@)),
                None => None,
            }),
    {
        let name = match model {
            Some(m) => Some(copy_range(m, 0, m.len())),
            None => None,
        };
        let l4t = match release {
            Some(c) => parse_l4t(c),
            None => None,
        };
        let b = match bios {
            Some(c) => Some(parse_bios(c)),
            None => None,
        };
        proof {
            if let Some(m) = model {
                assert(m@.subrange(0, m@.len() as int) =~= m@);
            }
        }
        Board { name, l4t, bios: b }
    }
}

} // verus!
