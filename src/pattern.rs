//! Search for line formats made of literal bytes and runs of decimal digits,
//! such as `< PM_CONFIG DEFAULT=<n> >`. A digit run is always as long as
//! possible, and the first position at which the whole format fits wins.
use vstd::prelude::*;
use crate::text::is_digit;

verus! {

/// One element of a line format.
pub enum Piece {
    /// These bytes, exactly.
    Lit(Vec<u8>),
    /// One or more decimal digits, captured.
    Digits,
    /// Exactly one decimal digit, captured.
    Digit,
}

/// The mathematical form of a `Piece`.
pub ghost enum Part {
    Lit(Seq<u8>),
    Digits,
    Digit,
}

pub open spec fn part_of(p: Piece) -> Part {
    match p {
        Piece::Lit(l) => Part::Lit(l@),
        Piece::Digits => Part::Digits,
        Piece::Digit => Part::Digit,
    }
}

pub open spec fn parts_of(ps: Seq<Piece>) -> Seq<Part> {
    Seq::new(ps.len(), |i: int| part_of(ps[i]))
}

/// Length of the run of digits that starts at `pos`.
pub open spec fn digit_run(s: Seq<u8>, pos: int) -> nat
    decreases s.len() - pos,
{
    if 0 <= pos < s.len() && is_digit(s[pos]) {
        1 + digit_run(s, pos + 1)
    } else {
        0
    }
}

/// `l` occurs in `s` at `pos`.
pub open spec fn lit_at(s: Seq<u8>, pos: int, l: Seq<u8>) -> bool {
    0 <= pos && pos + l.len() <= s.len() && s.subrange(pos, pos + l.len()) == l
}

/// The captures of pieces `k..` of `ps` matched at `pos` of `s`.
pub open spec fn match_from(ps: Seq<Part>, k: int, s: Seq<u8>, pos: int) -> Option<
    Seq<Seq<u8>>,
>
    decreases ps.len() - k,
{
    if k < 0 || k >= ps.len() {
        Some(Seq::empty())
    } else {
        match ps[k] {
            Part::Lit(l) => {
                if lit_at(s, pos, l) {
                    match_from(ps, k + 1, s, pos + l.len())
                } else {
                    None
                }
            },
            Part::Digits => {
                let n = digit_run(s, pos);
                if n == 0 {
                    None
                } else {
                    match match_from(ps, k + 1, s, pos + n) {
                        Some(rest) => Some(seq![s.subrange(pos, pos + n)] + rest),
                        None => None,
                    }
                }
            },
            Part::Digit => {
                if 0 <= pos < s.len() && is_digit(s[pos]) {
                    match match_from(ps, k + 1, s, pos + 1) {
                        Some(rest) => Some(seq![s.subrange(pos, pos + 1)] + rest),
                        None => None,
                    }
                } else {
                    None
                }
            },
        }
    }
}

/// The captures of the first match of `ps` in `s` at position `i` or later.
pub open spec fn first_match(ps: Seq<Part>, s: Seq<u8>, i: int) -> Option<Seq<Seq<u8>>>
    decreases s.len() + 1 - i,
{
    if i < 0 || i > s.len() {
        None
    } else {
        match match_from(ps, 0, s, i) {
            Some(c) => Some(c),
            None => first_match(ps, s, i + 1),
        }
    }
}

/// The captures of a match of `ps` anywhere in `s`, the leftmost one.
pub open spec fn find_in(ps: Seq<Part>, s: Seq<u8>) -> Option<Seq<Seq<u8>>> {
    first_match(ps, s, 0)
}

pub open spec fn views_opt(r: Option<Vec<Vec<u8>>>) -> Option<Seq<Seq<u8>>> {
    match r {
        Some(v) => Some(crate::text::views(v@)),
        None => None,
    }
}

fn digit_run_len(s: &[u8], pos: usize) -> (n: usize)
    requires
        pos <= s.len(),
    ensures
        n == digit_run(s@, pos as int),
        pos + n <= s.len(),
{
    let mut j: usize = pos;
    while j < s.len() && 48 <= s[j] && s[j] <= 57
        invariant
            pos <= j <= s.len(),
            digit_run(s@, pos as int) == (j - pos) + digit_run(s@, j as int),
        decreases s.len() - j,
    {
        j += 1;
    }
    j - pos
}

fn lit_matches(s: &[u8], pos: usize, l: &Vec<u8>) -> (r: bool)
    requires
        pos <= s.len(),
    ensures
        r == lit_at(s@, pos as int, l@),
{
    if l.len() > s.len() - pos {
        return false;
    }
    let mut i: usize = 0;
    while i < l.len()
        invariant
            i <= l.len(),
            pos + l.len() <= s.len(),
            forall|j: int| 0 <= j < i ==> s@[pos + j] == l@[j],
        decreases l.len() - i,
    {
        if s[pos + i] != l[i] {
            assert(s@.subrange(pos as int, pos + l.len())[i as int] != l@[i as int]);
            return false;
        }
        i += 1;
    }
    assert(s@.subrange(pos as int, pos + l.len()) =~= l@);
    true
}

/// The bytes of `s` from `lo` up to `hi`.
pub fn copy_range(s: &[u8], lo: usize, hi: usize) -> (r: Vec<u8>)
    requires
        lo <= hi <= s.len(),
    ensures
        r@ == s@.subrange(lo as int, hi as int),
{
    let mut v: Vec<u8> = Vec::new();
    let mut i: usize = lo;
    while i < hi
        invariant
            lo <= i <= hi <= s.len(),
            v@ == s@.subrange(lo as int, i as int),
        decreases hi - i,
    {
        v.push(s[i]);
        assert(v@ =~= s@.subrange(lo as int, i + 1));
        i += 1;
    }
    v
}

fn prepend(head: Vec<u8>, rest: Vec<Vec<u8>>) -> (r: Vec<Vec<u8>>)
    ensures
        crate::text::views(r@) == seq![head@] + crate::text::views(rest@),
{
    let ghost h = head@;
    let ghost tail = crate::text::views(rest@);
    let mut v: Vec<Vec<u8>> = Vec::new();
    v.push(head);
    let mut rest = rest;
    v.append(&mut rest);
    assert(crate::text::views(v@) =~= seq![h] + tail);
    v
}

fn match_pieces(ps: &[Piece], k: usize, s: &[u8], pos: usize) -> (r: Option<Vec<Vec<u8>>>)
    requires
        k <= ps.len(),
        pos <= s.len(),
    ensures
        views_opt(r) == match_from(parts_of(ps@), k as int, s@, pos as int),
    decreases ps.len() - k,
{
    if k >= ps.len() {
        let v: Vec<Vec<u8>> = Vec::new();
        assert(crate::text::views(v@) =~= Seq::<Seq<u8>>::empty());
        return Some(v);
    }
    match &ps[k] {
        Piece::Lit(l) => {
            if lit_matches(s, pos, l) {
                match_pieces(ps, k + 1, s, pos + l.len())
            } else {
                None
            }
        },
        Piece::Digits => {
            let n = digit_run_len(s, pos);
            if n == 0 {
                return None;
            }
            match match_pieces(ps, k + 1, s, pos + n) {
                Some(rest) => Some(prepend(copy_range(s, pos, pos + n), rest)),
                None => None,
            }
        },
        Piece::Digit => {
            if pos < s.len() && 48 <= s[pos] && s[pos] <= 57 {
                match match_pieces(ps, k + 1, s, pos + 1) {
                    Some(rest) => Some(prepend(copy_range(s, pos, pos + 1), rest)),
                    None => None,
                }
            } else {
                None
            }
        },
    }
}

/// Searches `s` for the leftmost match of `ps` and returns its captures.
pub fn find(ps: &[Piece], s: &[u8]) -> (r: Option<Vec<Vec<u8>>>)
    ensures
        views_opt(r) == find_in(parts_of(ps@), s@),
{
    let mut i: usize = 0;
    loop
        invariant
            i <= s.len(),
            first_match(parts_of(ps@), s@, 0) == first_match(parts_of(ps@), s@, i as int),
        decreases s.len() - i,
    {
        let m = match_pieces(ps, 0, s, i);
        if m.is_some() {
            return m;
        }
        if i == s.len() {
            assert(first_match(parts_of(ps@), s@, i + 1) is None);
            return m;
        }
        i += 1;
    }
}

/// How many captures the pieces `k..` of `ps` make.
pub open spec fn capture_count(ps: Seq<Part>, k: int) -> nat
    decreases ps.len() - k,
{
    if k < 0 || k >= ps.len() {
        0
    } else {
        match ps[k] {
            Part::Lit(_) => capture_count(ps, k + 1),
            _ => 1 + capture_count(ps, k + 1),
        }
    }
}

/// A match makes one capture per digit piece.
pub proof fn lemma_match_captures(ps: Seq<Part>, k: int, s: Seq<u8>, pos: int)
    requires
        0 <= k,
        match_from(ps, k, s, pos) is Some,
    ensures
        match_from(ps, k, s, pos)->0.len() == capture_count(ps, k),
    decreases ps.len() - k,
{
    if k < ps.len() {
        match ps[k] {
            Part::Lit(l) => lemma_match_captures(ps, k + 1, s, pos + l.len()),
            Part::Digits => lemma_match_captures(ps, k + 1, s, pos + digit_run(s, pos)),
            Part::Digit => lemma_match_captures(ps, k + 1, s, pos + 1),
        }
    }
}

/// A search makes one capture per digit piece.
pub proof fn lemma_find_captures(ps: Seq<Part>, s: Seq<u8>, i: int)
    requires
        first_match(ps, s, i) is Some,
    ensures
        first_match(ps, s, i)->0.len() == capture_count(ps, 0),
    decreases s.len() + 1 - i,
{
    if 0 <= i <= s.len() {
        if match_from(ps, 0, s, i) is Some {
            lemma_match_captures(ps, 0, s, i);
        } else {
            lemma_find_captures(ps, s, i + 1);
        }
    }
}

} // verus!
