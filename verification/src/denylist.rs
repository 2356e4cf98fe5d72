//! The denylist: a set of blocked domain names, loaded once from a
//! line-delimited source in ad-block syntax (`||domain.tld^`) and never
//! mutated afterwards.
//!
//! Each line is taken as one pattern: leading `||` pairs and trailing `^`
//! marks are stripped, a trailing carriage return is dropped, and the rest is
//! normalized like a query name.  Membership is exact-string match on the
//! normalized name.

use vstd::prelude::*;

verus! {

use crate::domain::{bytes_eq, normal_name, strip_trailing_dots, BAR, CARET, CR, NL};

/// The line without a trailing carriage return.
pub open spec fn strip_cr(s: Seq<u8>) -> Seq<u8> {
    if s.len() > 0 && s.last() == CR {
        s.drop_last()
    } else {
        s
    }
}

/// The line with every leading `||` pair removed.
pub open spec fn strip_bars(s: Seq<u8>) -> Seq<u8>
    decreases s.len(),
{
    if s.len() >= 2 && s[0] == BAR && s[1] == BAR {
        strip_bars(s.skip(2))
    } else {
        s
    }
}

/// The line with every trailing `^` removed.
pub open spec fn strip_carets(s: Seq<u8>) -> Seq<u8>
    decreases s.len(),
{
    if s.len() > 0 && s.last() == CARET {
        strip_carets(s.drop_last())
    } else {
        s
    }
}

/// The denylist entry a line denotes: wrapper characters stripped, then the
/// name normalized.
pub open spec fn deny_entry(line: Seq<u8>) -> Seq<u8> {
    normal_name(strip_carets(strip_bars(strip_cr(line))))
}

/// The position of the first line feed, or the length if there is none.
pub open spec fn first_nl(s: Seq<u8>) -> nat
    decreases s.len(),
{
    if s.len() == 0 {
        0
    } else if s[0] == NL {
        0
    } else {
        1 + first_nl(s.skip(1))
    }
}

/// The source split at line feeds; a text without one is a single line.
pub open spec fn line_split(s: Seq<u8>) -> Seq<Seq<u8>>
    decreases s.len(),
{
    if first_nl(s) >= s.len() {
        seq![s]
    } else {
        seq![s.take(first_nl(s) as int)] + line_split(s.skip(first_nl(s) as int + 1))
    }
}

/// The set of entries a denylist source denotes: one per line.  A line whose
/// stripped form is empty (a blank line, a bare `^`) denotes no entry, so the
/// empty name — the normal form of the root query — is never blocked.
pub open spec fn deny_set(text: Seq<u8>) -> Set<Seq<u8>> {
    Set::new(
        |e: Seq<u8>|
            e.len() > 0 && exists|i: int|
                0 <= i < line_split(text).len() && deny_entry(#[trigger] line_split(text)[i]) == e,
    )
}

proof fn lemma_first_nl(s: Seq<u8>)
    ensures
        first_nl(s) <= s.len(),
        first_nl(s) < s.len() ==> s[first_nl(s) as int] == NL,
        forall|j: int| 0 <= j < first_nl(s) ==> s[j] != NL,
    decreases s.len(),
{
    if s.len() == 0 {
    } else if s[0] == NL {
    } else {
        lemma_first_nl(s.skip(1));
        assert forall|j: int| 0 <= j < first_nl(s) implies s[j] != NL by {
            if j > 0 {
                assert(s.skip(1)[j - 1] == s[j]);
            }
        }
        if first_nl(s) < s.len() {
            assert(s.skip(1)[first_nl(s) - 1] == s[first_nl(s) as int]);
        }
    }
}

proof fn lemma_first_nl_is(s: Seq<u8>, m: int)
    requires
        0 <= m <= s.len(),
        forall|j: int| 0 <= j < m ==> s[j] != NL,
        m < s.len() ==> s[m] == NL,
    ensures
        first_nl(s) == m,
    decreases s.len(),
{
    if s.len() == 0 {
    } else if s[0] == NL {
        assert(m == 0);
    } else {
        assert(m >= 1);
        assert forall|j: int| 0 <= j < m - 1 implies s.skip(1)[j] != NL by {
            assert(s.skip(1)[j] == s[j + 1]);
        }
        if m - 1 < s.skip(1).len() {
            assert(s.skip(1)[m - 1] == s[m]);
        }
        lemma_first_nl_is(s.skip(1), m - 1);
    }
}

/// The denylist: normalized blocked names, read-only after [`DenylistStore::load`].
pub struct DenylistStore {
    entries: Vec<Vec<u8>>,
}

impl View for DenylistStore {
    type V = Set<Seq<u8>>;

    closed spec fn view(&self) -> Set<Seq<u8>> {
        Set::new(
            |e: Seq<u8>|
                e.len() > 0 && exists|i: int|
                    0 <= i < self.entries@.len() && (#[trigger] self.entries@[i])@ == e,
        )
    }
}

/// The entry denoted by the line `text[start..end]`.
fn entry_of_range(text: &Vec<u8>, start: usize, end: usize) -> (r: Vec<u8>)
    requires
        start <= end <= text@.len(),
    ensures
        r@ == deny_entry(text@.subrange(start as int, end as int)),
{
    let ghost line = text@.subrange(start as int, end as int);
    let mut lo: usize = start;
    let mut hi: usize = end;
    if hi > lo && text[hi - 1] == CR {
        proof {
            assert(line.drop_last() =~= text@.subrange(lo as int, hi - 1));
        }
        hi -= 1;
    }
    proof {
        assert(strip_cr(line) == text@.subrange(lo as int, hi as int));
    }
    let ghost b = strip_cr(line);
    while hi - lo >= 2 && text[lo] == BAR && text[lo + 1] == BAR
        invariant
            start <= lo <= hi <= end <= text@.len(),
            strip_bars(b) == strip_bars(text@.subrange(lo as int, hi as int)),
        decreases hi - lo,
    {
        proof {
            let s = text@.subrange(lo as int, hi as int);
            assert(s.skip(2) =~= text@.subrange(lo + 2, hi as int));
        }
        lo += 2;
    }
    proof {
        let s = text@.subrange(lo as int, hi as int);
        assert(strip_bars(s) == s);
    }
    let ghost c = strip_bars(b);
    while hi > lo && text[hi - 1] == CARET
        invariant
            start <= lo <= hi <= end <= text@.len(),
            strip_carets(c) == strip_carets(text@.subrange(lo as int, hi as int)),
        decreases hi,
    {
        proof {
            let s = text@.subrange(lo as int, hi as int);
            assert(s.drop_last() =~= text@.subrange(lo as int, hi - 1));
        }
        hi -= 1;
    }
    proof {
        let s = text@.subrange(lo as int, hi as int);
        assert(strip_carets(s) == s);
    }
    let ghost d = strip_carets(c);
    while hi > lo && text[hi - 1] == crate::domain::DOT
        invariant
            start <= lo <= hi <= end <= text@.len(),
            strip_trailing_dots(d) == strip_trailing_dots(text@.subrange(lo as int, hi as int)),
        decreases hi,
    {
        proof {
            let s = text@.subrange(lo as int, hi as int);
            assert(s.drop_last() =~= text@.subrange(lo as int, hi - 1));
        }
        hi -= 1;
    }
    proof {
        let s = text@.subrange(lo as int, hi as int);
        assert(strip_trailing_dots(s) == s);
    }
    crate::domain::lower_range(text, lo, hi)
}

impl DenylistStore {
    /// An empty denylist.
    pub fn new() -> (d: DenylistStore)
        ensures
            d@ == Set::<Seq<u8>>::empty(),
    {
        let d = DenylistStore { entries: Vec::new() };
        proof {
            assert(d@ =~= Set::<Seq<u8>>::empty());
        }
        d
    }

    /// Loads the denylist from a line-delimited source: one entry per line,
    /// wrapper characters stripped, names normalized; a line with nothing
    /// left after stripping denotes no entry.
    pub fn load(text: &Vec<u8>) -> (d: DenylistStore)
        ensures
            d@ == deny_set(text@),
    {
        let ghost lines = line_split(text@);
        let mut entries: Vec<Vec<u8>> = Vec::new();
        let mut start: usize = 0;
        let mut finished: bool = false;
        proof {
            assert(text@.skip(0) =~= text@);
            assert(lines.skip(0) =~= lines);
        }
        while !finished
            invariant
                start <= text@.len(),
                lines == line_split(text@),
                forall|i: int|
                    0 <= i < entries@.len() ==> (#[trigger] entries@[i])@ == deny_entry(lines[i]),
                !finished ==> entries@.len() <= lines.len(),
                !finished ==> line_split(text@.skip(start as int)) == lines.skip(
                    entries@.len() as int,
                ),
                finished ==> entries@.len() == lines.len(),
            decreases text@.len() - start, (if finished {
                0int
            } else {
                1int
            }),
        {
            let ghost done = entries@.len() as int;
            let ghost rem = text@.skip(start as int);
            let mut j: usize = start;
            while j < text.len() && text[j] != NL
                invariant
                    start <= j <= text@.len(),
                    forall|m: int| start <= m < j ==> text@[m] != NL,
                decreases text@.len() - j,
            {
                j += 1;
            }
            proof {
                assert forall|m: int| 0 <= m < j - start implies rem[m] != NL by {
                    assert(rem[m] == text@[start + m]);
                }
                if j < text@.len() {
                    assert(rem[j - start] == text@[j as int]);
                }
                lemma_first_nl_is(rem, j - start);
                assert(rem.take(j - start) =~= text@.subrange(start as int, j as int));
            }
            let entry = entry_of_range(text, start, j);
            proof {
                if j < text@.len() {
                    assert(line_split(rem) == seq![rem.take(j - start)] + line_split(
                        rem.skip(j - start + 1),
                    ));
                    assert(rem.skip(j - start + 1) =~= text@.skip(j + 1));
                    assert(lines.skip(done).len() >= 1);
                    assert(done < lines.len());
                    assert(lines.skip(done)[0] == rem.take(j - start));
                    assert(lines.skip(done)[0] == lines[done]);
                    assert(lines.skip(done).skip(1) =~= lines.skip(done + 1));
                    assert(line_split(text@.skip(j + 1)) == lines.skip(done + 1));
                } else {
                    assert(line_split(rem) == seq![rem]);
                    assert(rem =~= text@.subrange(start as int, j as int));
                    assert(lines.skip(done) == seq![rem]);
                    assert(lines.skip(done).len() == 1);
                    assert(lines.len() == done + 1);
                    assert(lines.skip(done)[0] == rem);
                    assert(lines.skip(done)[0] == lines[done]);
                }
            }
            entries.push(entry);
            if j < text.len() {
                start = j + 1;
            } else {
                finished = true;
            }
        }
        let d = DenylistStore { entries };
        proof {
            assert forall|e: Seq<u8>| d@.contains(e) implies deny_set(text@).contains(e) by {
                let i = choose|i: int| 0 <= i < d.entries@.len() && (d.entries@[i])@ == e;
                assert(deny_entry(line_split(text@)[i]) == e);
            }
            assert forall|e: Seq<u8>| deny_set(text@).contains(e) implies d@.contains(e) by {
                let i = choose|i: int|
                    0 <= i < line_split(text@).len() && deny_entry(line_split(text@)[i]) == e;
                assert((d.entries@[i])@ == e);
            }
            assert(d@ =~= deny_set(text@));
        }
        d
    }

    /// Whether the normalized name `name` is blocked.  The empty name is
    /// never blocked: no line denotes an empty entry.
    pub fn contains(&self, name: &Vec<u8>) -> (r: bool)
        ensures
            r == self@.contains(name@),
    {
        if name.len() == 0 {
            assert(!self@.contains(name@));
            return false;
        }
        let mut i: usize = 0;
        while i < self.entries.len()
            invariant
                name@.len() > 0,
                i <= self.entries@.len(),
                forall|j: int| 0 <= j < i ==> (#[trigger] self.entries@[j])@ != name@,
            decreases self.entries@.len() - i,
        {
            if bytes_eq(&self.entries[i], name) {
                assert(self@.contains(name@));
                return true;
            }
            i += 1;
        }
        assert(!self@.contains(name@));
        false
    }
}

} // verus!
