//! The answer cache: a mapping from (normalized name, record-type code) to a
//! cached answer with an absolute expiry instant.
//!
//! A lookup is served only while the entry is fresh; a periodic sweep removes
//! every entry whose expiry has passed.  Time is a caller-supplied instant in
//! seconds, so the cache itself is deterministic.

use vstd::prelude::*;

verus! {

use crate::domain::bytes_eq;
use crate::message::RecordSet;

/// A cache key: the question's normalized name and its record-type code.
pub type CacheKey = (Seq<u8>, u16);

/// What the cache remembers for one key: the answer records and the instant,
/// in seconds, at which they stop being served.
pub struct CachedAnswer {
    /// The records of the upstream answer.
    pub records: RecordSet,
    /// The first instant at which the entry is no longer fresh.
    pub expires_at: u64,
}

struct CacheEntry {
    name: Vec<u8>,
    rtype: u16,
    answer: CachedAnswer,
}

/// The cache: a flat collection of entries with pairwise distinct keys,
/// viewed as a map from [`CacheKey`] to [`CachedAnswer`].
pub struct AnswerCache {
    entries: Vec<CacheEntry>,
}

spec fn key_of(e: CacheEntry) -> CacheKey {
    (e.name@, e.rtype)
}

spec fn has_key(s: Seq<CacheEntry>, k: CacheKey) -> bool {
    exists|i: int| 0 <= i < s.len() && key_of(s[i]) == k
}

spec fn idx_of(s: Seq<CacheEntry>, k: CacheKey) -> int {
    choose|i: int| 0 <= i < s.len() && key_of(s[i]) == k
}

spec fn uniq(s: Seq<CacheEntry>) -> bool {
    forall|i: int, j: int| 0 <= i < j < s.len() ==> key_of(s[i]) != key_of(s[j])
}

spec fn view_of(s: Seq<CacheEntry>) -> Map<CacheKey, CachedAnswer> {
    Map::new(|k: CacheKey| has_key(s, k), |k: CacheKey| s[idx_of(s, k)].answer)
}

impl View for AnswerCache {
    type V = Map<CacheKey, CachedAnswer>;

    closed spec fn view(&self) -> Map<CacheKey, CachedAnswer> {
        view_of(self.entries@)
    }
}

/// The expiry instant of an answer put at `now` with time-to-live
/// `ttl_secs`: `now` plus the time-to-live, at least one second ahead.
pub open spec fn expiry(now: u64, ttl_secs: u32) -> u64 {
    if ttl_secs == 0 {
        (now + 1) as u64
    } else {
        (now + ttl_secs) as u64
    }
}

/// The map after a sweep at `now`: exactly the entries still fresh at `now`.
pub open spec fn swept(m: Map<CacheKey, CachedAnswer>, now: u64) -> Map<CacheKey, CachedAnswer> {
    Map::new(|k: CacheKey| m.dom().contains(k) && m[k].expires_at > now, |k: CacheKey| m[k])
}

/// Law: a sweep is idempotent — sweeping twice at one instant, with no put
/// between, removes nothing the second time.
pub proof fn lemma_sweep_idempotent(m: Map<CacheKey, CachedAnswer>, now: u64)
    ensures
        swept(swept(m, now), now) == swept(m, now),
{
    assert(swept(swept(m, now), now) =~= swept(m, now));
}

proof fn lemma_uniq_same_key(s: Seq<CacheEntry>, i: int, j: int)
    requires
        uniq(s),
        0 <= i < s.len(),
        0 <= j < s.len(),
        key_of(s[i]) == key_of(s[j]),
    ensures
        i == j,
{
    if i < j {
        assert(key_of(s[i]) != key_of(s[j]));
    }
    if j < i {
        assert(key_of(s[j]) != key_of(s[i]));
    }
}

proof fn lemma_valid_idx(s: Seq<CacheEntry>, k: CacheKey)
    requires
        has_key(s, k),
    ensures
        0 <= idx_of(s, k) < s.len(),
        key_of(s[idx_of(s, k)]) == k,
{
    let j = choose|i: int| 0 <= i < s.len() && key_of(s[i]) == k;
    assert(0 <= j < s.len() && key_of(s[j]) == k);
}

proof fn lemma_update_view(s: Seq<CacheEntry>, s2: Seq<CacheEntry>, i: int, k: CacheKey, a: CachedAnswer)
    requires
        uniq(s),
        0 <= i < s.len(),
        s2.len() == s.len(),
        forall|j: int| 0 <= j < s2.len() && j != i ==> s2[j] == s[j],
        key_of(s[i]) == k,
        key_of(s2[i]) == k,
        s2[i].answer == a,
    ensures
        uniq(s2),
        view_of(s2) == view_of(s).insert(k, a),
{
    assert forall|j: int| 0 <= j < s2.len() implies key_of(s2[j]) == key_of(s[j]) by {}
    assert forall|p: int, q: int| 0 <= p < q < s2.len() implies key_of(s2[p]) != key_of(s2[q]) by {
        assert(key_of(s2[p]) == key_of(s[p]));
        assert(key_of(s2[q]) == key_of(s[q]));
    }
    assert forall|k2: CacheKey| has_key(s2, k2) implies has_key(s, k2) by {
        lemma_valid_idx(s2, k2);
        let w = idx_of(s2, k2);
        assert(key_of(s[w]) == k2);
    }
    assert forall|k2: CacheKey| has_key(s, k2) implies has_key(s2, k2) by {
        lemma_valid_idx(s, k2);
        let w = idx_of(s, k2);
        assert(key_of(s2[w]) == k2);
    }
    assert forall|k2: CacheKey| has_key(s2, k2) implies s2[idx_of(s2, k2)].answer == (if k2 == k {
        a
    } else {
        s[idx_of(s, k2)].answer
    }) by {
        lemma_valid_idx(s2, k2);
        let j2 = idx_of(s2, k2);
        if k2 == k {
            lemma_uniq_same_key(s2, j2, i);
        } else {
            assert(j2 != i);
            assert(s2[j2] == s[j2]);
            lemma_valid_idx(s, k2);
            let j3 = idx_of(s, k2);
            lemma_uniq_same_key(s, j2, j3);
        }
    }
    assert(view_of(s2) =~= view_of(s).insert(k, a));
}

proof fn lemma_push_view(s: Seq<CacheEntry>, s2: Seq<CacheEntry>, k: CacheKey, a: CachedAnswer)
    requires
        uniq(s),
        !has_key(s, k),
        s2.len() == s.len() + 1,
        forall|j: int| 0 <= j < s.len() ==> s2[j] == s[j],
        key_of(s2[s.len() as int]) == k,
        s2[s.len() as int].answer == a,
    ensures
        uniq(s2),
        view_of(s2) == view_of(s).insert(k, a),
{
    let n = s.len() as int;
    assert forall|p: int, q: int| 0 <= p < q < s2.len() implies key_of(s2[p]) != key_of(s2[q]) by {
        if q < n {
            assert(key_of(s2[p]) == key_of(s[p]));
            assert(key_of(s2[q]) == key_of(s[q]));
        } else {
            assert(q == n);
            assert(key_of(s2[p]) == key_of(s[p]));
            if key_of(s[p]) == k {
                assert(has_key(s, k));
            }
        }
    }
    assert forall|k2: CacheKey| has_key(s2, k2) implies (k2 == k || has_key(s, k2)) by {
        lemma_valid_idx(s2, k2);
        let w = idx_of(s2, k2);
        if w < n {
            assert(key_of(s[w]) == k2);
        }
    }
    assert forall|k2: CacheKey| has_key(s, k2) implies has_key(s2, k2) by {
        lemma_valid_idx(s, k2);
        let w = idx_of(s, k2);
        assert(key_of(s2[w]) == k2);
    }
    assert(key_of(s2[n]) == k);
    assert(has_key(s2, k));
    assert forall|k2: CacheKey| has_key(s2, k2) implies s2[idx_of(s2, k2)].answer == (if k2 == k {
        a
    } else {
        s[idx_of(s, k2)].answer
    }) by {
        lemma_valid_idx(s2, k2);
        let j2 = idx_of(s2, k2);
        if k2 == k {
            lemma_uniq_same_key(s2, j2, n);
        } else {
            assert(j2 != n);
            assert(s2[j2] == s[j2]);
            assert(has_key(s, k2));
            lemma_valid_idx(s, k2);
            lemma_uniq_same_key(s, j2, idx_of(s, k2));
        }
    }
    assert(view_of(s2) =~= view_of(s).insert(k, a));
}

impl AnswerCache {
    /// The cache's structural invariant: no two entries share a key.
    pub closed spec fn wf(&self) -> bool {
        uniq(self.entries@)
    }

    /// An empty cache.
    pub fn new() -> (c: AnswerCache)
        ensures
            c.wf(),
            c@ == Map::<CacheKey, CachedAnswer>::empty(),
    {
        let c = AnswerCache { entries: Vec::new() };
        proof {
            assert(c@ =~= Map::<CacheKey, CachedAnswer>::empty());
        }
        c
    }

    /// The records under `(name, rtype)`, but only while they are fresh at
    /// `now`; an absent or expired entry yields `None`.
    pub fn get(&self, name: &Vec<u8>, rtype: u16, now: u64) -> (r: Option<RecordSet>)
        requires
            self.wf(),
        ensures
            match r {
                Some(recs) => self@.contains_key((name@, rtype)) && self@[(name@, rtype)].expires_at
                    > now && recs == self@[(name@, rtype)].records,
                None => !(self@.contains_key((name@, rtype)) && self@[(name@, rtype)].expires_at
                    > now),
            },
    {
        let ghost k = (name@, rtype);
        let ghost s = self.entries@;
        let mut i: usize = 0;
        while i < self.entries.len()
            invariant
                uniq(s),
                s == self.entries@,
                k == (name@, rtype),
                i <= s.len(),
                forall|j: int| 0 <= j < i ==> key_of(s[j]) != k,
            decreases s.len() - i,
        {
            let e = &self.entries[i];
            if e.rtype == rtype && bytes_eq(&e.name, name) {
                proof {
                    assert(key_of(s[i as int]) == k);
                    assert(has_key(s, k));
                    lemma_valid_idx(s, k);
                    lemma_uniq_same_key(s, i as int, idx_of(s, k));
                    assert(self@[k] == s[i as int].answer);
                }
                if e.answer.expires_at > now {
                    return Some(e.answer.records.duplicate());
                } else {
                    return None;
                }
            }
            i += 1;
        }
        proof {
            assert(!has_key(s, k));
            assert(!self@.contains_key(k));
        }
        None
    }

    /// Inserts or overwrites the answer under `(name, rtype)`, to expire at
    /// [`expiry`]`(now, ttl_secs)`.  Last writer wins.
    pub fn put(&mut self, name: Vec<u8>, rtype: u16, records: RecordSet, ttl_secs: u32, now: u64)
        requires
            old(self).wf(),
            now + ttl_secs < u64::MAX,
        ensures
            final(self).wf(),
            final(self)@ == old(self)@.insert(
                (name@, rtype),
                CachedAnswer { records, expires_at: expiry(now, ttl_secs) },
            ),
    {
        let expires_at: u64 = if ttl_secs == 0 {
            now + 1
        } else {
            now + (ttl_secs as u64)
        };
        let answer = CachedAnswer { records, expires_at };
        let ghost s = self.entries@;
        let ghost k = (name@, rtype);
        let ghost a = answer;
        proof {
            assert(a == CachedAnswer { records, expires_at: expiry(now, ttl_secs) });
        }
        let mut i: usize = 0;
        while i < self.entries.len()
            invariant
                uniq(s),
                s == self.entries@,
                s == old(self).entries@,
                k == (name@, rtype),
                a == answer,
                a == (CachedAnswer { records, expires_at: expiry(now, ttl_secs) }),
                i <= s.len(),
                forall|j: int| 0 <= j < i ==> key_of(s[j]) != k,
            decreases s.len() - i,
        {
            let hit = {
                let e = &self.entries[i];
                e.rtype == rtype && bytes_eq(&e.name, &name)
            };
            if hit {
                proof {
                    assert(key_of(s[i as int]) == k);
                }
                let e2 = CacheEntry { name, rtype, answer };
                self.entries[i] = e2;
                proof {
                    lemma_update_view(s, self.entries@, i as int, k, a);
                }
                return ;
            }
            i += 1;
        }
        proof {
            assert(!has_key(s, k));
        }
        let e2 = CacheEntry { name, rtype, answer };
        self.entries.push(e2);
        proof {
            lemma_push_view(s, self.entries@, k, a);
        }
    }

    /// Removes every entry whose expiry is at or before `now`; every fresh
    /// entry stays, unchanged.
    #[verifier::rlimit(50)]
    #[verifier::spinoff_prover]
    pub fn sweep(&mut self, now: u64)
        requires
            old(self).wf(),
        ensures
            final(self).wf(),
            final(self)@ == swept(old(self)@, now),
    {
        let ghost s0 = self.entries@;
        let mut kept: Vec<CacheEntry> = Vec::new();
        proof {
            assert(s0.take(0) =~= Seq::<CacheEntry>::empty());
            assert(view_of(kept@) =~= swept(view_of(s0.take(0)), now));
        }
        let mut i: usize = 0;
        while i < self.entries.len()
            invariant
                uniq(s0),
                s0 == self.entries@,
                s0 == old(self).entries@,
                i <= s0.len(),
                uniq(kept@),
                view_of(kept@) == swept(view_of(s0.take(i as int)), now),
            decreases s0.len() - i,
        {
            let ghost prev = kept@;
            let ghost k = key_of(s0[i as int]);
            let ghost a = s0[i as int].answer;
            proof {
                if has_key(s0.take(i as int), k) {
                    lemma_valid_idx(s0.take(i as int), k);
                    let j = idx_of(s0.take(i as int), k);
                    assert(key_of(s0[j]) == k);
                    lemma_uniq_same_key(s0, j, i as int);
                }
                assert(s0.take(i as int).push(s0[i as int]) =~= s0.take(i + 1));
                lemma_push_view(s0.take(i as int), s0.take(i + 1), k, a);
                lemma_swept_insert(view_of(s0.take(i as int)), k, a, now);
            }
            let e = &self.entries[i];
            if e.answer.expires_at > now {
                let e2 = clone_entry(e);
                proof {
                    if has_key(prev, k) {
                        lemma_valid_idx(prev, k);
                        let j2 = idx_of(prev, k);
                        assert(view_of(prev).dom().contains(k));
                        assert(has_key(s0.take(i as int), k));
                    }
                }
                kept.push(e2);
                proof {
                    lemma_push_view(prev, kept@, k, a);
                }
            }
            i += 1;
        }
        proof {
            assert(s0.take(s0.len() as int) =~= s0);
        }
        self.entries = kept;
    }
}

fn clone_entry(e: &CacheEntry) -> (r: CacheEntry)
    ensures
        key_of(r) == key_of(*e),
        r.answer == e.answer,
{
    let name = e.name.clone();
    proof {
        assert(name@ =~= e.name@);
    }
    CacheEntry {
        name,
        rtype: e.rtype,
        answer: CachedAnswer { records: e.answer.records.duplicate(), expires_at: e.answer.expires_at },
    }
}

proof fn lemma_swept_insert(m: Map<CacheKey, CachedAnswer>, k: CacheKey, a: CachedAnswer, now: u64)
    requires
        !m.dom().contains(k),
    ensures
        a.expires_at > now ==> swept(m.insert(k, a), now) == swept(m, now).insert(k, a),
        a.expires_at <= now ==> swept(m.insert(k, a), now) == swept(m, now),
{
    if a.expires_at > now {
        assert(swept(m.insert(k, a), now) =~= swept(m, now).insert(k, a));
    } else {
        assert(swept(m.insert(k, a), now) =~= swept(m, now));
    }
}

} // verus!
