//! Byte-level text handling for kernel pseudo-files: lines, whitespace
//! separated words, decimal numbers and small literal-and-digits patterns.
use vstd::prelude::*;

verus! {

/// ASCII whitespace: space, tab, line feed, vertical tab, form feed, carriage return.
pub open spec fn is_space(b: u8) -> bool {
    b == 32 || (9 <= b && b <= 13)
}

pub open spec fn is_digit(b: u8) -> bool {
    48 <= b && b <= 57
}

/// Words found so far while scanning `s` left to right, and the word in progress.
pub open spec fn scan_words(s: Seq<u8>) -> (Seq<Seq<u8>>, Seq<u8>)
    decreases s.len(),
{
    if s.len() == 0 {
        (Seq::empty(), Seq::empty())
    } else {
        let (ws, cur) = scan_words(s.drop_last());
        let c = s.last();
        if is_space(c) {
            if cur.len() > 0 {
                (ws.push(cur), Seq::empty())
            } else {
                (ws, cur)
            }
        } else {
            (ws, cur.push(c))
        }
    }
}

/// The maximal runs of non-whitespace bytes of `s`, in order.
pub open spec fn words(s: Seq<u8>) -> Seq<Seq<u8>> {
    let (ws, cur) = scan_words(s);
    if cur.len() > 0 {
        ws.push(cur)
    } else {
        ws
    }
}

/// Lines found so far while scanning `s`, and the line in progress.
pub open spec fn scan_lines(s: Seq<u8>) -> (Seq<Seq<u8>>, Seq<u8>)
    decreases s.len(),
{
    if s.len() == 0 {
        (Seq::empty(), Seq::empty())
    } else {
        let (ls, cur) = scan_lines(s.drop_last());
        let c = s.last();
        if c == 10 {
            (ls.push(cur), Seq::empty())
        } else {
            (ls, cur.push(c))
        }
    }
}

/// The pieces of `s` between line feeds; a last empty piece is not a line.
pub open spec fn lines(s: Seq<u8>) -> Seq<Seq<u8>> {
    let (ls, cur) = scan_lines(s);
    if cur.len() > 0 {
        ls.push(cur)
    } else {
        ls
    }
}

/// The contents of a list of byte vectors.
pub open spec fn views(v: Seq<Vec<u8>>) -> Seq<Seq<u8>> {
    Seq::new(v.len(), |i: int| v[i]@)
}

pub open spec fn all_digits(s: Seq<u8>) -> bool {
    forall|i: int| 0 <= i < s.len() ==> is_digit(#[trigger] s[i])
}

/// A non-empty run of decimal digits.
pub open spec fn is_decimal(s: Seq<u8>) -> bool {
    s.len() > 0 && all_digits(s)
}

/// The number written by the decimal digits `s`.
pub open spec fn decimal_value(s: Seq<u8>) -> nat
    decreases s.len(),
{
    if s.len() == 0 {
        0
    } else {
        decimal_value(s.drop_last()) * 10 + (s.last() - 48) as nat
    }
}

/// `s` holds exactly one word, a decimal number that fits in 64 bits.
pub open spec fn single_value(s: Seq<u8>) -> Option<nat> {
    let ws = words(s);
    if ws.len() == 1 && is_decimal(ws[0]) && decimal_value(ws[0]) <= u64::MAX {
        Some(decimal_value(ws[0]))
    } else {
        None
    }
}

pub fn split_words(s: &[u8]) -> (r: Vec<Vec<u8>>)
    ensures
        views(r@) == words(s@),
{
    let mut ws: Vec<Vec<u8>> = Vec::new();
    let mut cur: Vec<u8> = Vec::new();
    let mut i: usize = 0;
    while i < s.len()
        invariant
            i <= s.len(),
            (views(ws@), cur@) == scan_words(s@.subrange(0, i as int)),
        decreases s.len() - i,
    {
        let c = s[i];
        proof {
            assert(s@.subrange(0, i + 1).drop_last() =~= s@.subrange(0, i as int));
        }
        if c == 32 || (9 <= c && c <= 13) {
            if cur.len() > 0 {
                let ghost before = views(ws@);
                ws.push(cur);
                assert(views(ws@) =~= before.push(scan_words(s@.subrange(0, i as int)).1));
                cur = Vec::new();
            }
        } else {
            cur.push(c);
        }
        i += 1;
    }
    assert(s@.subrange(0, s.len() as int) =~= s@);
    if cur.len() > 0 {
        let ghost before = views(ws@);
        let ghost last = cur@;
        ws.push(cur);
        assert(views(ws@) =~= before.push(last));
    }
    ws
}

pub fn split_lines(s: &[u8]) -> (r: Vec<Vec<u8>>)
    ensures
        views(r@) == lines(s@),
{
    let mut ls: Vec<Vec<u8>> = Vec::new();
    let mut cur: Vec<u8> = Vec::new();
    let mut i: usize = 0;
    while i < s.len()
        invariant
            i <= s.len(),
            (views(ls@), cur@) == scan_lines(s@.subrange(0, i as int)),
        decreases s.len() - i,
    {
        let c = s[i];
        proof {
            assert(s@.subrange(0, i + 1).drop_last() =~= s@.subrange(0, i as int));
        }
        if c == 10 {
            let ghost before = views(ls@);
            let ghost last = cur@;
            ls.push(cur);
            assert(views(ls@) =~= before.push(last));
            cur = Vec::new();
        } else {
            cur.push(c);
        }
        i += 1;
    }
    assert(s@.subrange(0, s.len() as int) =~= s@);
    if cur.len() > 0 {
        let ghost before = views(ls@);
        let ghost last = cur@;
        ls.push(cur);
        assert(views(ls@) =~= before.push(last));
    }
    ls
}

proof fn lemma_decimal_step(s: Seq<u8>, i: int)
    requires
        0 <= i < s.len(),
    ensures
        decimal_value(s.subrange(0, i + 1)) == decimal_value(s.subrange(0, i)) * 10 + (s[i]
            - 48) as nat,
{
    assert(s.subrange(0, i + 1).drop_last() =~= s.subrange(0, i));
}

/// Reads `s` as a decimal number; `None` unless it is a non-empty run of
/// digits whose value fits in 64 bits.
pub fn parse_decimal(s: &[u8]) -> (r: Option<u64>)
    ensures
        r matches Some(v) <==> is_decimal(s@) && decimal_value(s@) <= u64::MAX,
        r matches Some(v) ==> v == decimal_value(s@),
{
    if s.len() == 0 {
        return None;
    }
    let mut acc: u64 = 0;
    let mut i: usize = 0;
    while i < s.len()
        invariant
            i <= s.len(),
            acc == decimal_value(s@.subrange(0, i as int)),
            all_digits(s@.subrange(0, i as int)),
        decreases s.len() - i,
    {
        let c = s[i];
        proof {
            lemma_decimal_step(s@, i as int);
        }
        if c < 48 || c > 57 {
            assert(!all_digits(s@));
            return None;
        }
        let d = (c - 48) as u64;
        if acc > (u64::MAX - d) / 10 {
            proof {
                if all_digits(s@) {
                    lemma_decimal_grows(s@, i as int + 1);
                }
                assert(acc * 10 + d > u64::MAX) by (nonlinear_arith)
                    requires
                        acc > (u64::MAX - d) / 10,
                        d <= 9,
                ;
            }
            return None;
        }
        assert(acc * 10 + d <= u64::MAX) by (nonlinear_arith)
            requires
                acc <= (u64::MAX - d) / 10,
                d <= 9,
        ;
        acc = acc * 10 + d;
        assert(all_digits(s@.subrange(0, i + 1)));
        i += 1;
    }
    assert(s@.subrange(0, s.len() as int) =~= s@);
    Some(acc)
}

/// A decimal number never shrinks when more digits follow.
proof fn lemma_decimal_grows(s: Seq<u8>, i: int)
    requires
        0 <= i <= s.len(),
        all_digits(s),
    ensures
        decimal_value(s) >= decimal_value(s.subrange(0, i)),
    decreases s.len() - i,
{
    if i < s.len() {
        lemma_decimal_grows(s, i + 1);
        lemma_decimal_step(s, i);
    } else {
        assert(s.subrange(0, i) =~= s);
    }
}

/// Reads a file whose whole content is one decimal number, surrounded by
/// any whitespace.
pub fn parse_single_value(s: &[u8]) -> (r: Option<u64>)
    ensures
        r matches Some(v) <==> single_value(s@) is Some,
        r matches Some(v) ==> v == single_value(s@)->0,
{
    let ws = split_words(s);
    if ws.len() != 1 {
        return None;
    }
    assert(ws[0]@ == views(ws@)[0]);
    parse_decimal(ws[0].as_slice())
}

/// Byte-wise equality of two byte strings.
pub fn bytes_eq(a: &[u8], b: &[u8]) -> (r: bool)
    ensures
        r == (a@ == b@),
{
    if a.len() != b.len() {
        return false;
    }
    let mut i: usize = 0;
    while i < a.len()
        invariant
            i <= a.len(),
            a.len() == b.len(),
            forall|j: int| 0 <= j < i ==> a@[j] == b@[j],
        decreases a.len() - i,
    {
        if a[i] != b[i] {
            assert(a@[i as int] != b@[i as int]);
            return false;
        }
        i += 1;
    }
    assert(a@ =~= b@);
    true
}

/// `s` begins with `p`.
pub open spec fn has_prefix(s: Seq<u8>, p: Seq<u8>) -> bool {
    p.len() <= s.len() && s.subrange(0, p.len() as int) == p
}

pub fn starts_with(s: &[u8], p: &[u8]) -> (r: bool)
    ensures
        r == has_prefix(s@, p@),
{
    if p.len() > s.len() {
        return false;
    }
    let mut i: usize = 0;
    while i < p.len()
        invariant
            i <= p.len(),
            p.len() <= s.len(),
            forall|j: int| 0 <= j < i ==> s@[j] == p@[j],
        decreases p.len() - i,
    {
        if s[i] != p[i] {
            assert(s@.subrange(0, p.len() as int)[i as int] != p@[i as int]);
            return false;
        }
        i += 1;
    }
    assert(s@.subrange(0, p.len() as int) =~= p@);
    true
}

/// Position of the first non-whitespace byte at `i` or later, or the length.
pub open spec fn skip_space(s: Seq<u8>, i: int) -> int
    decreases s.len() - i,
{
    if 0 <= i < s.len() && is_space(s[i]) {
        skip_space(s, i + 1)
    } else {
        i
    }
}

/// End of `s` once trailing whitespace among its first `n` bytes is dropped.
pub open spec fn trim_end_at(s: Seq<u8>, n: int) -> int
    decreases n,
{
    if 0 < n <= s.len() && is_space(s[n - 1]) {
        trim_end_at(s, n - 1)
    } else {
        n
    }
}

/// `s` without leading and trailing whitespace.
pub open spec fn trimmed(s: Seq<u8>) -> Seq<u8> {
    let a = skip_space(s, 0);
    let b = trim_end_at(s, s.len() as int);
    if a >= b {
        Seq::empty()
    } else {
        s.subrange(a, b)
    }
}

proof fn lemma_skip_space_range(s: Seq<u8>, i: int)
    requires
        0 <= i <= s.len(),
    ensures
        i <= skip_space(s, i) <= s.len(),
    decreases s.len() - i,
{
    if i < s.len() && is_space(s[i]) {
        lemma_skip_space_range(s, i + 1);
    }
}

proof fn lemma_trim_end_range(s: Seq<u8>, n: int)
    requires
        0 <= n <= s.len(),
    ensures
        0 <= trim_end_at(s, n) <= n,
    decreases n,
{
    if n > 0 && is_space(s[n - 1]) {
        lemma_trim_end_range(s, n - 1);
    }
}

pub fn trim(s: &[u8]) -> (r: Vec<u8>)
    ensures
        r@ == trimmed(s@),
{
    let mut a: usize = 0;
    while a < s.len() && (s[a] == 32 || (9 <= s[a] && s[a] <= 13))
        invariant
            a <= s.len(),
            skip_space(s@, 0) == skip_space(s@, a as int),
        decreases s.len() - a,
    {
        a += 1;
    }
    let mut b: usize = s.len();
    while b > 0 && (s[b - 1] == 32 || (9 <= s[b - 1] && s[b - 1] <= 13))
        invariant
            b <= s.len(),
            trim_end_at(s@, s@.len() as int) == trim_end_at(s@, b as int),
        decreases b,
    {
        b -= 1;
    }
    if a >= b {
        return Vec::new();
    }
    crate::pattern::copy_range(s, a, b)
}

/// Position of the first `c` in `s` at `i` or later, or the length.
pub open spec fn index_of(s: Seq<u8>, c: u8, i: int) -> int
    decreases s.len() - i,
{
    if i < 0 || i >= s.len() {
        s.len() as int
    } else if s[i] == c {
        i
    } else {
        index_of(s, c, i + 1)
    }
}

proof fn lemma_index_of_range(s: Seq<u8>, c: u8, i: int)
    requires
        0 <= i <= s.len(),
    ensures
        i <= index_of(s, c, i) <= s.len(),
    decreases s.len() - i,
{
    if i < s.len() && s[i] != c {
        lemma_index_of_range(s, c, i + 1);
    }
}

/// Position of the first `c` in `s` at `from` or later, or the length.
pub fn find_byte(s: &[u8], c: u8, from: usize) -> (r: usize)
    requires
        from <= s.len(),
    ensures
        r as int == index_of(s@, c, from as int),
        from <= r <= s.len(),
{
    let mut i: usize = from;
    while i < s.len() && s[i] != c
        invariant
            from <= i <= s.len(),
            index_of(s@, c, from as int) == index_of(s@, c, i as int),
        decreases s.len() - i,
    {
        i += 1;
    }
    i
}

/// The piece of `s` before the first `c` (all of `s` without one).
pub open spec fn before_first(s: Seq<u8>, c: u8) -> Seq<u8> {
    s.subrange(0, index_of(s, c, 0))
}

/// `p` occurs somewhere in `s`.
pub open spec fn contains(s: Seq<u8>, p: Seq<u8>) -> bool {
    exists|i: int| crate::pattern::lit_at(s, i, p)
}

pub fn contains_bytes(s: &[u8], p: &[u8]) -> (r: bool)
    ensures
        r == contains(s@, p@),
{
    if p.len() > s.len() {
        assert forall|i: int| !crate::pattern::lit_at(s@, i, p@) by {}
        return false;
    }
    let mut i: usize = 0;
    while i <= s.len() - p.len()
        invariant
            p.len() <= s.len(),
            forall|j: int| 0 <= j < i ==> !crate::pattern::lit_at(s@, j, p@),
        decreases s.len() - p.len() + 1 - i,
    {
        let mut k: usize = 0;
        let mut same = true;
        while k < p.len()
            invariant
                k <= p.len(),
                i + p.len() <= s.len(),
                same == (forall|j: int| 0 <= j < k ==> s@[i + j] == p@[j]),
            decreases p.len() - k,
        {
            if s[i + k] != p[k] {
                same = false;
            }
            k += 1;
        }
        if same {
            assert(s@.subrange(i as int, i + p.len()) =~= p@);
            assert(crate::pattern::lit_at(s@, i as int, p@));
            return true;
        }
        assert(!crate::pattern::lit_at(s@, i as int, p@)) by {
            let j = choose|j: int| 0 <= j < p.len() && s@[i + j] != p@[j];
            assert(s@.subrange(i as int, i + p.len())[j] != p@[j]);
        }
        i += 1;
    }
    assert forall|j: int| !crate::pattern::lit_at(s@, j, p@) by {
        if 0 <= j < i {
        }
    }
    false
}

} // verus!

verus! {

/// A decimal number with an optional leading minus sign.
pub open spec fn signed_value(w: Seq<u8>) -> Option<int> {
    if w.len() > 0 && w[0] == 45 {
        let d = w.subrange(1, w.len() as int);
        if is_decimal(d) && decimal_value(d) <= i64::MAX {
            Some(-(decimal_value(d) as int))
        } else {
            None
        }
    } else if is_decimal(w) && decimal_value(w) <= i64::MAX {
        Some(decimal_value(w) as int)
    } else {
        None
    }
}

/// `s` holds exactly one word, a signed decimal number of at most 63 bits.
pub open spec fn single_signed(s: Seq<u8>) -> Option<int> {
    let ws = words(s);
    if ws.len() == 1 {
        signed_value(ws[0])
    } else {
        None
    }
}

pub fn parse_single_signed(s: &[u8]) -> (r: Option<i64>)
    ensures
        match r {
            Some(v) => single_signed(s@) == Some(v as int),
            None => single_signed(s@) is None,
        },
{
    let ws = split_words(s);
    if ws.len() != 1 {
        return None;
    }
    assert(ws[0]@ == views(ws@)[0]);
    let w = ws[0].as_slice();
    if w.len() > 0 && w[0] == 45 {
        let d = crate::pattern::copy_range(w, 1, w.len());
        match parse_decimal(d.as_slice()) {
            Some(v) => if v <= i64::MAX as u64 {
                Some(-(v as i64))
            } else {
                None
            },
            None => None,
        }
    } else {
        match parse_decimal(w) {
            Some(v) => if v <= i64::MAX as u64 {
                Some(v as i64)
            } else {
                None
            },
            None => None,
        }
    }
}

} // verus!
