//! The per-datagram pipeline: decode, classify (deny / cache hit / miss),
//! and, after an upstream resolution, cache population and response assembly.
//!
//! The upstream transport is outside this crate: when a query is neither
//! denied nor cached, the pipeline hands back [`Action::AskUpstream`]; the
//! caller performs the one resolution and returns its outcome to
//! [`apply_upstream`].

use vstd::prelude::*;

verus! {

use crate::cache::{expiry, AnswerCache, CacheKey, CachedAnswer};
use crate::denylist::DenylistStore;
use crate::domain::{normal_name, normalize_name};
use crate::message::{
    decode_query, decodes_ok, first_ttl_of, record_count, DecodedQuery, RecordSet,
    ResponseCodeKind, ResponseMessage,
};

/// The time-to-live given to a cached answer when the upstream response is
/// empty, so empty results do not pin forever.
pub const DEFAULT_TTL_SECS: u32 = 60;

/// The pipeline's verdict on one datagram.
pub enum Action {
    /// The datagram is malformed: no response at all.
    Drop,
    /// The response can be sent at once.
    Respond(ResponseMessage),
    /// Nothing denied, nothing cached: the query needs one upstream
    /// resolution, whose outcome goes to [`apply_upstream`].
    AskUpstream(DecodedQuery),
}

/// The cache key a query resolves under: its normalized name and its
/// record-type code.
pub open spec fn query_key(q: DecodedQuery) -> CacheKey {
    (normal_name(q.name@), q.rtype)
}

/// A denylist answer to `q`: NXDOMAIN, authoritative, no answer records, the
/// query's id and recursion-desired flag echoed, recursion available.
pub open spec fn is_nx_response(r: ResponseMessage, q: DecodedQuery) -> bool {
    &&& r.id == q.id
    &&& r.recursion_desired == q.recursion_desired
    &&& r.recursion_available
    &&& r.authoritative
    &&& r.rcode == ResponseCodeKind::NxDomain
    &&& r.question is None
    &&& record_count(r.answers) == 0
}

/// A resolved answer to `q` carrying `recs`: NOERROR, not authoritative, the
/// question echoed, the query's id and recursion-desired flag echoed,
/// recursion available.
pub open spec fn is_answer_response(r: ResponseMessage, q: DecodedQuery, recs: RecordSet) -> bool {
    &&& r.id == q.id
    &&& r.recursion_desired == q.recursion_desired
    &&& r.recursion_available
    &&& !r.authoritative
    &&& r.rcode == ResponseCodeKind::NoError
    &&& r.question == Some(q.question)
    &&& r.answers == recs
}

/// An upstream-failure answer to `q`: SERVFAIL, no answer records, the
/// query's id and recursion-desired flag echoed, recursion available.
pub open spec fn is_servfail_response(r: ResponseMessage, q: DecodedQuery) -> bool {
    &&& r.id == q.id
    &&& r.recursion_desired == q.recursion_desired
    &&& r.recursion_available
    &&& !r.authoritative
    &&& r.rcode == ResponseCodeKind::ServFail
    &&& r.question is None
    &&& record_count(r.answers) == 0
}

/// What classification promises for query `q` at instant `now`: a denied name
/// is answered NXDOMAIN; a fresh cached answer is served as NOERROR; anything
/// else is sent upstream.
pub open spec fn plan_ok(
    deny: Set<Seq<u8>>,
    cache: Map<CacheKey, CachedAnswer>,
    q: DecodedQuery,
    now: u64,
    a: Action,
) -> bool {
    let k = query_key(q);
    &&& (deny.contains(k.0) ==> (a matches Action::Respond(r) && is_nx_response(r, q)))
    &&& (!deny.contains(k.0) && cache.contains_key(k) && cache[k].expires_at > now ==> (
    a matches Action::Respond(r) && is_answer_response(r, q, cache[k].records)))
    &&& (!deny.contains(k.0) && !(cache.contains_key(k) && cache[k].expires_at > now) ==> a
        == Action::AskUpstream(q))
}

/// The NXDOMAIN response for a denied query.
pub fn deny_response(q: &DecodedQuery) -> (r: ResponseMessage)
    ensures
        is_nx_response(r, *q),
{
    ResponseMessage {
        id: q.id,
        recursion_desired: q.recursion_desired,
        recursion_available: true,
        authoritative: true,
        rcode: ResponseCodeKind::NxDomain,
        question: None,
        answers: RecordSet::empty(),
    }
}

/// The SERVFAIL response for a query whose upstream resolution failed.
pub fn servfail_response(q: &DecodedQuery) -> (r: ResponseMessage)
    ensures
        is_servfail_response(r, *q),
{
    ResponseMessage {
        id: q.id,
        recursion_desired: q.recursion_desired,
        recursion_available: true,
        authoritative: false,
        rcode: ResponseCodeKind::ServFail,
        question: None,
        answers: RecordSet::empty(),
    }
}

/// The NOERROR response carrying `records` as answers to `q`.
pub fn answer_response(q: DecodedQuery, records: RecordSet) -> (r: ResponseMessage)
    ensures
        is_answer_response(r, q, records),
{
    ResponseMessage {
        id: q.id,
        recursion_desired: q.recursion_desired,
        recursion_available: true,
        authoritative: false,
        rcode: ResponseCodeKind::NoError,
        question: Some(q.question),
        answers: records,
    }
}

/// Classifies a decoded query: denylist check first, then cache lookup; a
/// miss asks for one upstream resolution.
pub fn handle_query(deny: &DenylistStore, cache: &AnswerCache, q: DecodedQuery, now: u64) -> (a:
    Action)
    requires
        cache.wf(),
    ensures
        plan_ok(deny@, cache@, q, now, a),
{
    let key_name = normalize_name(&q.name);
    if deny.contains(&key_name) {
        Action::Respond(deny_response(&q))
    } else {
        match cache.get(&key_name, q.rtype, now) {
            Some(records) => Action::Respond(answer_response(q, records)),
            None => Action::AskUpstream(q),
        }
    }
}

/// Handles one raw datagram: a datagram that does not decode as a query is
/// dropped, without a response and only then; a decoded one is classified by
/// [`handle_query`].
pub fn handle_datagram(deny: &DenylistStore, cache: &AnswerCache, datagram: &Vec<u8>, now: u64) -> (a:
    Action)
    requires
        cache.wf(),
    ensures
        (a matches Action::Drop) <==> !decodes_ok(datagram@),
        (a matches Action::Drop) || (exists|q: DecodedQuery|
            #[trigger] plan_ok(deny@, cache@, q, now, a)),
{
    match decode_query(datagram) {
        None => Action::Drop,
        Some(q) => {
            let ghost qq = q;
            let a = handle_query(deny, cache, q, now);
            proof {
                assert(plan_ok(deny@, cache@, qq, now, a));
                let k = query_key(qq);
                if deny@.contains(k.0) {
                    assert(!(a matches Action::Drop));
                } else if cache@.contains_key(k) && cache@[k].expires_at > now {
                    assert(!(a matches Action::Drop));
                } else {
                    assert(a == Action::AskUpstream(qq));
                }
            }
            a
        },
    }
}

/// What one upstream resolution returned: the records, and the first
/// record's time-to-live as read from it (`None` when no record came back).
pub struct UpstreamAnswer {
    /// The answer records.
    pub records: RecordSet,
    /// The first record's time-to-live, if any record came back.
    pub first_ttl: Option<u32>,
}

/// The outcome of one upstream resolution attempt: an answer, or any failure
/// (timeout, transport error, malformed reply), all treated alike.
pub enum UpstreamOutcome {
    /// The upstream returned records (possibly none).
    Answer(UpstreamAnswer),
    /// The upstream could not be reached or did not answer usably.
    Unavailable,
}

/// Packs upstream records into an [`UpstreamAnswer`], reading the first
/// record's time-to-live.
pub fn upstream_answer(records: RecordSet) -> (a: UpstreamAnswer)
    ensures
        a.records == records,
        (a.first_ttl is Some) <==> record_count(records) > 0,
        a.first_ttl matches Some(v) ==> v == first_ttl_of(records),
{
    let first_ttl = records.first_ttl();
    UpstreamAnswer { records, first_ttl }
}

/// The time-to-live a cached answer gets: the first record's, or
/// [`DEFAULT_TTL_SECS`] when the answer is empty.
pub open spec fn effective_ttl(a: UpstreamAnswer) -> u32 {
    match a.first_ttl {
        Some(t) => t,
        None => DEFAULT_TTL_SECS,
    }
}

/// Completes a miss after the upstream resolution: an answer is cached under
/// the query's key and served as NOERROR; a failure is answered SERVFAIL and
/// writes nothing to the cache.
pub fn apply_upstream(
    cache: &mut AnswerCache,
    q: DecodedQuery,
    outcome: UpstreamOutcome,
    now: u64,
) -> (r: ResponseMessage)
    requires
        old(cache).wf(),
        now + 0xffff_ffff < u64::MAX,
    ensures
        final(cache).wf(),
        (outcome matches UpstreamOutcome::Answer(ans) ==> is_answer_response(r, q, ans.records)
            && final(cache)@ == old(cache)@.insert(
            query_key(q),
            CachedAnswer { records: ans.records, expires_at: expiry(now, effective_ttl(ans)) },
        )),
        (outcome matches UpstreamOutcome::Unavailable ==> is_servfail_response(r, q)
            && final(cache)@ == old(cache)@),
{
    match outcome {
        UpstreamOutcome::Answer(ans) => {
            let ttl_secs = match ans.first_ttl {
                Some(t) => t,
                None => DEFAULT_TTL_SECS,
            };
            let key_name = normalize_name(&q.name);
            let cached = ans.records.duplicate();
            cache.put(key_name, q.rtype, cached, ttl_secs, now);
            answer_response(q, ans.records)
        },
        UpstreamOutcome::Unavailable => servfail_response(&q),
    }
}

/// Law: a query whose normalized name is on the denylist is answered NXDOMAIN
/// with zero answer records, whatever the cache holds and whatever any
/// upstream would say.
pub proof fn lemma_denied_always_nxdomain(
    deny: Set<Seq<u8>>,
    cache: Map<CacheKey, CachedAnswer>,
    q: DecodedQuery,
    now: u64,
    a: Action,
)
    requires
        plan_ok(deny, cache, q, now, a),
        deny.contains(normal_name(q.name@)),
    ensures
        a matches Action::Respond(r) && is_nx_response(r, q),
{
}

/// Law: the first resolution of a key that is neither denied nor freshly
/// cached asks for exactly one upstream resolution.
pub proof fn lemma_first_resolution_asks_upstream(
    deny: Set<Seq<u8>>,
    cache: Map<CacheKey, CachedAnswer>,
    q: DecodedQuery,
    now: u64,
    a: Action,
)
    requires
        plan_ok(deny, cache, q, now, a),
        !deny.contains(normal_name(q.name@)),
        !(cache.contains_key(query_key(q)) && cache[query_key(q)].expires_at > now),
    ensures
        a == Action::AskUpstream(q),
{
}

/// Law: once an upstream answer is cached, any classification of the same
/// query before the entry's expiry is served from the cache, with the records
/// of that answer, and asks nothing upstream.
pub proof fn lemma_cached_answer_served(
    deny: Set<Seq<u8>>,
    cache: Map<CacheKey, CachedAnswer>,
    cache2: Map<CacheKey, CachedAnswer>,
    q: DecodedQuery,
    now: u64,
    now2: u64,
    ans: UpstreamAnswer,
    a2: Action,
)
    requires
        !deny.contains(normal_name(q.name@)),
        cache2 == cache.insert(
            query_key(q),
            CachedAnswer { records: ans.records, expires_at: expiry(now, effective_ttl(ans)) },
        ),
        now2 < expiry(now, effective_ttl(ans)),
        plan_ok(deny, cache2, q, now2, a2),
    ensures
        a2 matches Action::Respond(r) && is_answer_response(r, q, ans.records),
{
    assert(cache2.contains_key(query_key(q)));
    assert(cache2[query_key(q)].expires_at > now2);
}

/// Law: a cache entry is not served at or after its expiry — the query goes
/// upstream again.
pub proof fn lemma_expired_entry_goes_upstream(
    deny: Set<Seq<u8>>,
    cache: Map<CacheKey, CachedAnswer>,
    q: DecodedQuery,
    now: u64,
    a: Action,
)
    requires
        plan_ok(deny, cache, q, now, a),
        !deny.contains(normal_name(q.name@)),
        cache.contains_key(query_key(q)),
        cache[query_key(q)].expires_at <= now,
    ensures
        a == Action::AskUpstream(q),
{
}

/// Law: every response the pipeline builds echoes the query's transaction id
/// and its recursion-desired flag.
pub proof fn lemma_response_echoes_query(r: ResponseMessage, q: DecodedQuery)
    requires
        is_nx_response(r, q) || is_servfail_response(r, q) || (exists|recs: RecordSet|
            #[trigger] is_answer_response(r, q, recs)),
    ensures
        r.id == q.id,
        r.recursion_desired == q.recursion_desired,
{
}

} // verus!
