//! Domain names as byte strings, and their normalization.
//!
//! Query names and denylist entries are compared after normalization:
//! trailing dots are removed and ASCII letters are folded to lower case, so a
//! query for `Ads.Example.Com.` meets the denylist entry `ads.example.com`.

use vstd::prelude::*;

verus! {

/// `.`
pub const DOT: u8 = 46;
/// `^`
pub const CARET: u8 = 94;
/// `|`
pub const BAR: u8 = 124;
/// Line feed.
pub const NL: u8 = 10;
/// Carriage return.
pub const CR: u8 = 13;

/// An ASCII upper-case letter folded to lower case; any other byte unchanged.
pub open spec fn lower_byte(c: u8) -> u8 {
    if 65 <= c <= 90 {
        (c + 32) as u8
    } else {
        c
    }
}

/// Every byte folded to lower case.
pub open spec fn lower_seq(s: Seq<u8>) -> Seq<u8> {
    Seq::new(s.len(), |i: int| lower_byte(s[i]))
}

/// The sequence with all trailing dots removed.
pub open spec fn strip_trailing_dots(s: Seq<u8>) -> Seq<u8>
    decreases s.len(),
{
    if s.len() > 0 && s.last() == DOT {
        strip_trailing_dots(s.drop_last())
    } else {
        s
    }
}

/// A name in normal form: no trailing dots, lower case.
pub open spec fn normal_name(s: Seq<u8>) -> Seq<u8> {
    lower_seq(strip_trailing_dots(s))
}

/// Whether two byte vectors hold the same bytes.
pub fn bytes_eq(a: &Vec<u8>, b: &Vec<u8>) -> (r: bool)
    ensures
        r == (a@ == b@),
{
    if a.len() != b.len() {
        assert(a@ != b@);
        return false;
    }
    let mut i: usize = 0;
    while i < a.len()
        invariant
            i <= a.len(),
            a@.len() == b@.len(),
            forall|j: int| 0 <= j < i ==> a@[j] == b@[j],
        decreases a.len() - i,
    {
        if a[i] != b[i] {
            return false;
        }
        i += 1;
    }
    proof {
        assert(a@ =~= b@);
    }
    true
}

/// The lower-cased copy of `v[start..end]`.
pub(crate) fn lower_range(v: &Vec<u8>, start: usize, end: usize) -> (r: Vec<u8>)
    requires
        start <= end <= v@.len(),
    ensures
        r@ == lower_seq(v@.subrange(start as int, end as int)),
{
    let mut r: Vec<u8> = Vec::new();
    let mut i: usize = start;
    while i < end
        invariant
            start <= i <= end <= v@.len(),
            r@.len() == i - start,
            forall|j: int| 0 <= j < r@.len() ==> r@[j] == lower_byte(v@[start + j]),
        decreases end - i,
    {
        let c = v[i];
        if 65 <= c && c <= 90 {
            r.push(c + 32);
        } else {
            r.push(c);
        }
        i += 1;
    }
    proof {
        assert(r@ =~= lower_seq(v@.subrange(start as int, end as int)));
    }
    r
}

/// The name `v` in normal form: trailing dots removed, ASCII lower case.
pub fn normalize_name(v: &Vec<u8>) -> (r: Vec<u8>)
    ensures
        r@ == normal_name(v@),
{
    let mut end: usize = v.len();
    proof {
        assert(v@.subrange(0, end as int) =~= v@);
    }
    while end > 0 && v[end - 1] == DOT
        invariant
            end <= v@.len(),
            strip_trailing_dots(v@) == strip_trailing_dots(v@.subrange(0, end as int)),
        decreases end,
    {
        proof {
            let s = v@.subrange(0, end as int);
            assert(s.drop_last() =~= v@.subrange(0, end - 1));
        }
        end -= 1;
    }
    proof {
        let s = v@.subrange(0, end as int);
        assert(strip_trailing_dots(s) == s);
    }
    lower_range(v, 0, end)
}

} // verus!
