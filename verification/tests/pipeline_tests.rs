use nukedns::cache::AnswerCache;
use nukedns::denylist::DenylistStore;
use nukedns::handler::{
    apply_upstream, handle_datagram, handle_query, upstream_answer, Action, UpstreamOutcome,
};
use nukedns::message::{encode_response, DecodedQuery, RecordSet, ResponseCodeKind};
use trust_dns_proto::op::{Message, MessageType, OpCode, Query, ResponseCode};
use trust_dns_proto::rr::rdata::A;
use trust_dns_proto::rr::{Name, RData, RecordType};

fn bytes(s: &str) -> Vec<u8> {
    s.as_bytes().to_vec()
}

fn query_datagram(id: u16, rd: bool, name: &str, rtype: RecordType) -> Vec<u8> {
    let mut m = Message::new();
    m.set_id(id);
    m.set_message_type(MessageType::Query);
    m.set_op_code(OpCode::Query);
    m.set_recursion_desired(rd);
    m.add_query(Query::query(Name::from_ascii(name).unwrap(), rtype));
    m.to_vec().unwrap()
}

fn decoded(id: u16, rd: bool, name: &str, rtype: u16) -> DecodedQuery {
    DecodedQuery {
        id,
        recursion_desired: rd,
        name: bytes(name),
        rtype,
        question: Query::query(Name::from_ascii(name).unwrap(), RecordType::from(rtype)),
    }
}

fn one_a_record(name: &str, ttl: u32) -> RecordSet {
    let mut rs = RecordSet::empty();
    rs.push_record(
        Name::from_ascii(name).unwrap(),
        ttl,
        RData::A(A::new(93, 184, 216, 34)),
    );
    rs
}

#[test]
fn denied_query_answered_nxdomain() {
    let deny = DenylistStore::load(&bytes("||ads.example.com^\n"));
    let cache = AnswerCache::new();
    let datagram = query_datagram(0x1234, true, "ads.example.com.", RecordType::A);
    match handle_datagram(&deny, &cache, &datagram, 1_000) {
        Action::Respond(r) => {
            assert_eq!(r.id, 0x1234);
            assert!(r.recursion_desired);
            assert!(r.recursion_available);
            assert!(r.authoritative);
            assert!(matches!(r.rcode, ResponseCodeKind::NxDomain));
            assert_eq!(r.answers.len(), 0);
        }
        _ => panic!("a denied query must be answered at once"),
    }
}

#[test]
fn denied_query_mixed_case_still_blocked() {
    let deny = DenylistStore::load(&bytes("||ads.example.com^\n"));
    let cache = AnswerCache::new();
    let datagram = query_datagram(9, false, "AdS.eXaMpLe.CoM.", RecordType::A);
    match handle_datagram(&deny, &cache, &datagram, 0) {
        Action::Respond(r) => {
            assert!(matches!(r.rcode, ResponseCodeKind::NxDomain));
            assert!(!r.recursion_desired);
        }
        _ => panic!("case must not bypass the filter"),
    }
}

#[test]
fn miss_then_cached_then_expired() {
    let deny = DenylistStore::load(&Vec::new());
    let mut cache = AnswerCache::new();
    let now = 10_000u64;

    // first resolution: cache empty, so the query goes upstream
    let q = match handle_query(&deny, &cache, decoded(7, true, "example.com.", 1), now) {
        Action::AskUpstream(q) => q,
        _ => panic!("an uncached query must go upstream"),
    };

    // the upstream stub returns one A record with TTL 300
    let outcome = UpstreamOutcome::Answer(upstream_answer(one_a_record("example.com.", 300)));
    let r = apply_upstream(&mut cache, q, outcome, now);
    assert!(matches!(r.rcode, ResponseCodeKind::NoError));
    assert_eq!(r.id, 7);
    assert_eq!(r.answers.len(), 1);
    assert!(!r.authoritative);
    assert!(r.recursion_available);

    // a second identical query within 300 s is served from the cache
    match handle_query(&deny, &cache, decoded(8, true, "example.com.", 1), now + 299) {
        Action::Respond(r2) => {
            assert!(matches!(r2.rcode, ResponseCodeKind::NoError));
            assert_eq!(r2.id, 8);
            assert_eq!(r2.answers.len(), 1);
        }
        _ => panic!("a fresh cached answer must be served without an upstream call"),
    }

    // at creation + TTL the entry no longer serves: a new upstream call
    match handle_query(&deny, &cache, decoded(9, true, "example.com.", 1), now + 300) {
        Action::AskUpstream(_) => {}
        _ => panic!("an entry at its expiry must not be served"),
    }
    match handle_query(&deny, &cache, decoded(10, true, "example.com.", 1), now + 301) {
        Action::AskUpstream(_) => {}
        _ => panic!("an expired entry must not be served"),
    }
}

#[test]
fn upstream_failure_answered_servfail_and_nothing_cached() {
    let deny = DenylistStore::load(&Vec::new());
    let mut cache = AnswerCache::new();
    let now = 500u64;
    let q = match handle_query(&deny, &cache, decoded(3, true, "down.example.com.", 1), now) {
        Action::AskUpstream(q) => q,
        _ => panic!("an uncached query must go upstream"),
    };
    let r = apply_upstream(&mut cache, q, UpstreamOutcome::Unavailable, now);
    assert!(matches!(r.rcode, ResponseCodeKind::ServFail));
    assert_eq!(r.answers.len(), 0);
    assert_eq!(r.id, 3);
    // nothing was written to the cache: the same query still goes upstream
    match handle_query(&deny, &cache, decoded(4, true, "down.example.com.", 1), now) {
        Action::AskUpstream(_) => {}
        _ => panic!("a failed resolution must not populate the cache"),
    }
}

#[test]
fn empty_upstream_answer_cached_with_default_ttl() {
    let deny = DenylistStore::load(&Vec::new());
    let mut cache = AnswerCache::new();
    let now = 0u64;
    let q = match handle_query(&deny, &cache, decoded(5, false, "empty.example.", 16), now) {
        Action::AskUpstream(q) => q,
        _ => panic!("an uncached query must go upstream"),
    };
    let outcome = UpstreamOutcome::Answer(upstream_answer(RecordSet::empty()));
    let r = apply_upstream(&mut cache, q, outcome, now);
    assert!(matches!(r.rcode, ResponseCodeKind::NoError));
    assert_eq!(r.answers.len(), 0);
    // the empty answer is cached for the default 60 seconds, not forever
    match handle_query(&deny, &cache, decoded(6, false, "empty.example.", 16), 59) {
        Action::Respond(_) => {}
        _ => panic!("an empty answer must be cached"),
    }
    match handle_query(&deny, &cache, decoded(7, false, "empty.example.", 16), 60) {
        Action::AskUpstream(_) => {}
        _ => panic!("an empty answer must expire after the default time-to-live"),
    }
}

#[test]
fn malformed_datagrams_produce_no_response() {
    let deny = DenylistStore::load(&bytes("||ads.example.com^\n"));
    let cache = AnswerCache::new();
    assert!(matches!(
        handle_datagram(&deny, &cache, &Vec::new(), 0),
        Action::Drop
    ));
    assert!(matches!(
        handle_datagram(&deny, &cache, &vec![0xff, 0x00, 0x01], 0),
        Action::Drop
    ));
    let truncated: Vec<u8> = query_datagram(1, true, "example.com.", RecordType::A)
        .into_iter()
        .take(5)
        .collect();
    assert!(matches!(
        handle_datagram(&deny, &cache, &truncated, 0),
        Action::Drop
    ));
}

#[test]
fn zero_question_datagram_is_dropped() {
    let deny = DenylistStore::load(&Vec::new());
    let cache = AnswerCache::new();
    let mut m = Message::new();
    m.set_id(77);
    m.set_message_type(MessageType::Query);
    m.set_op_code(OpCode::Query);
    let datagram = m.to_vec().unwrap();
    assert!(matches!(
        handle_datagram(&deny, &cache, &datagram, 0),
        Action::Drop
    ));
}

#[test]
fn reencoded_response_preserves_id_and_recursion_flag() {
    let deny = DenylistStore::load(&bytes("||ads.example.com^\n"));
    let cache = AnswerCache::new();

    // denied path
    let datagram = query_datagram(0xBEEF, true, "ads.example.com.", RecordType::A);
    let r = match handle_datagram(&deny, &cache, &datagram, 0) {
        Action::Respond(r) => r,
        _ => panic!("a denied query must be answered at once"),
    };
    let wire = encode_response(&r).unwrap();
    let m = Message::from_vec(&wire).unwrap();
    assert_eq!(m.id(), 0xBEEF);
    assert!(m.recursion_desired());
    assert!(m.recursion_available());
    assert_eq!(m.response_code(), ResponseCode::NXDomain);
    assert_eq!(m.answers().len(), 0);

    // resolved path
    let mut cache = AnswerCache::new();
    let q = match handle_query(&deny, &cache, decoded(0x0FA0, false, "example.com.", 1), 0) {
        Action::AskUpstream(q) => q,
        _ => panic!("an uncached query must go upstream"),
    };
    let outcome = UpstreamOutcome::Answer(upstream_answer(one_a_record("example.com.", 300)));
    let r2 = apply_upstream(&mut cache, q, outcome, 0);
    let wire2 = encode_response(&r2).unwrap();
    let m2 = Message::from_vec(&wire2).unwrap();
    assert_eq!(m2.id(), 0x0FA0);
    assert!(!m2.recursion_desired());
    assert_eq!(m2.response_code(), ResponseCode::NoError);
    assert_eq!(m2.answers().len(), 1);
    assert_eq!(m2.queries().len(), 1);
    assert_eq!(
        m2.queries()[0].name(),
        &Name::from_ascii("example.com.").unwrap()
    );
}
