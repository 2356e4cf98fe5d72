//! Decoded queries, response messages, and the trusted boundary to the
//! `trust_dns_proto` wire codec.
//!
//! The forwarder's decisions are made over plain values: a query is its
//! transaction id, its recursion-desired flag, its question name as bytes and
//! its record-type code.  The resource records of an answer pass through the
//! pipeline as one opaque batch, a [`RecordSet`]; the pipeline only counts
//! them and reads the first record's time-to-live, through trusted wrappers.

use vstd::prelude::*;

verus! {

use trust_dns_proto::op::{Message, MessageType, OpCode, ResponseCode};

/// Resource-record payload of the DNS protocol library (opaque here).
#[verifier::external_type_specification]
#[verifier::external_body]
pub struct ExRData(trust_dns_proto::rr::RData);

/// Domain name of the DNS protocol library (opaque here).
#[verifier::external_type_specification]
#[verifier::external_body]
pub struct ExName(trust_dns_proto::rr::Name);

/// Question section entry of the DNS protocol library (opaque here).
#[verifier::external_type_specification]
#[verifier::external_body]
pub struct ExQuery(trust_dns_proto::op::Query);

/// The answer records of one resolution, as the protocol library represents
/// them.  `trust_dns_proto`'s record type cannot be declared to the verifier
/// (it is generic over an outside trait), so the batch is held opaquely and
/// spoken of as a value, with [`record_count`] for its size.
#[verifier::external_body]
pub struct RecordSet {
    records: Vec<trust_dns_proto::rr::Record>,
}

/// How many records a [`RecordSet`] holds; what `Vec::len` returns on the
/// underlying vector.
pub uninterp spec fn record_count(rs: RecordSet) -> nat;

/// The time-to-live field of the first record of a (non-empty) batch; what
/// `Record::ttl` returns on it.
pub uninterp spec fn first_ttl_of(rs: RecordSet) -> u32;

impl RecordSet {
    /// Relies on `Vec::new`: a batch with no records.
    #[verifier::external_body]
    pub fn empty() -> (rs: RecordSet)
        ensures
            record_count(rs) == 0,
    {
        RecordSet { records: Vec::new() }
    }

    /// Relies on `Vec::len`.
    #[verifier::external_body]
    pub fn len(&self) -> (n: usize)
        ensures
            n == record_count(*self),
    {
        self.records.len()
    }

    /// Relies on `Record::clone` (a derived field-for-field copy) and
    /// `Vec::clone`: the copy holds the same records.
    #[verifier::external_body]
    pub fn duplicate(&self) -> (rs: RecordSet)
        ensures
            rs == *self,
    {
        RecordSet { records: self.records.clone() }
    }

    /// Relies on `Record::from_rdata`: appends one record built from a name,
    /// a time-to-live and a payload.
    #[verifier::external_body]
    pub fn push_record(
        &mut self,
        name: trust_dns_proto::rr::Name,
        ttl: u32,
        rdata: trust_dns_proto::rr::RData,
    )
        ensures
            record_count(*final(self)) == record_count(*old(self)) + 1,
    {
        self.records.push(trust_dns_proto::rr::Record::from_rdata(name, ttl, rdata));
    }

    /// Relies on `Record::ttl`: the first record's time-to-live field,
    /// [`first_ttl_of`]; `None` exactly when the batch is empty.
    #[verifier::external_body]
    pub fn first_ttl(&self) -> (t: Option<u32>)
        ensures
            t is Some <==> record_count(*self) > 0,
            t matches Some(v) ==> v == first_ttl_of(*self),
    {
        match self.records.first() {
            Some(r) => Some(r.ttl()),
            None => None,
        }
    }
}

/// The outcome field of a response: exactly the three codes the forwarder
/// sends.
#[derive(Clone, Copy, PartialEq, Eq, Structural, Debug)]
pub enum ResponseCodeKind {
    NoError,
    NxDomain,
    ServFail,
}

/// A client request, decoded: the fields the pipeline reads, and the original
/// question carried along so the response can echo it.
pub struct DecodedQuery {
    /// Transaction id of the request.
    pub id: u16,
    /// Whether the client asked for recursion.
    pub recursion_desired: bool,
    /// The question's name, as decoded (possibly mixed case, trailing dot).
    pub name: Vec<u8>,
    /// The question's record-type code.
    pub rtype: u16,
    /// The question itself, for the response's question section.
    pub question: trust_dns_proto::op::Query,
}

/// A response about to be encoded: the header fields the forwarder sets, the
/// echoed question and the answer records.
pub struct ResponseMessage {
    /// Transaction id, copied from the request.
    pub id: u16,
    /// Recursion-desired flag, copied from the request.
    pub recursion_desired: bool,
    /// Always set: this server recurses.
    pub recursion_available: bool,
    /// Set only on denylist answers.
    pub authoritative: bool,
    /// The outcome.
    pub rcode: ResponseCodeKind,
    /// The echoed question, present on resolved answers.
    pub question: Option<trust_dns_proto::op::Query>,
    /// The answer records.
    pub answers: RecordSet,
}

/// Whether a datagram decodes as a DNS query with at least one question —
/// what `Message::from_vec` decides on the bytes alone.
pub uninterp spec fn decodes_ok(b: Seq<u8>) -> bool;

/// Whether the encoder accepts a response message — what `Message::to_vec`
/// decides on the message alone.
pub uninterp spec fn encodable(r: ResponseMessage) -> bool;

/// The wire form of an (encodable) response message — what `Message::to_vec`
/// returns for it.
pub uninterp spec fn wire_of(r: ResponseMessage) -> Seq<u8>;

/// Relies on `Message::from_vec` of `trust_dns_proto`: decodes one DNS
/// message; a datagram that does not decode, or decodes with an empty
/// question section, yields `None` — that is [`decodes_ok`].
#[verifier::external_body]
pub(crate) fn decode_query(buf: &Vec<u8>) -> (r: Option<DecodedQuery>)
    ensures
        (r is Some) <==> decodes_ok(buf@),
{
    let msg = match Message::from_vec(buf.as_slice()) {
        Ok(m) => m,
        Err(_) => return None,
    };
    let q = match msg.queries().first() {
        Some(q) => q.clone(),
        None => return None,
    };
    Some(DecodedQuery {
        id: msg.id(),
        recursion_desired: msg.recursion_desired(),
        name: q.name().to_string().into_bytes(),
        rtype: u16::from(q.query_type()),
        question: q,
    })
}

/// Relies on `Message::to_vec` of `trust_dns_proto`: encodes the response
/// message built from these fields to [`wire_of`]; `None` exactly when the
/// encoder refuses it, [`encodable`].
#[verifier::external_body]
pub fn encode_response(r: &ResponseMessage) -> (b: Option<Vec<u8>>)
    ensures
        (b is Some) <==> encodable(*r),
        b matches Some(v) ==> v@ == wire_of(*r),
{
    let rcode = match r.rcode {
        ResponseCodeKind::NoError => ResponseCode::NoError,
        ResponseCodeKind::NxDomain => ResponseCode::NXDomain,
        ResponseCodeKind::ServFail => ResponseCode::ServFail,
    };
    let mut m = Message::new();
    m.set_id(r.id).set_message_type(MessageType::Response).set_op_code(OpCode::Query);
    m.set_authoritative(r.authoritative).set_recursion_desired(r.recursion_desired);
    m.set_recursion_available(r.recursion_available).set_response_code(rcode);
    if let Some(q) = &r.question {
        m.add_query(q.clone());
    }
    m.add_answers(r.answers.records.iter().cloned());
    m.to_vec().ok()
}

} // verus!
