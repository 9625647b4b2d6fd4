//! DNS messages as plain values, and their wire form, read and written by
//! `hickory-proto`.
use vstd::prelude::*;
use hickory_proto::op::{Message, MessageType, OpCode, ResponseCode};
use hickory_proto::rr::{rdata, Name, RData, Record, RecordType};
use hickory_proto::serialize::binary::{BinDecodable, BinEncodable};
use crate::net::IpAddr;

verus! {

/// Record type code of an IPv4 address record.
pub const TYPE_A: u16 = 1;
/// Record type code of a name server record.
pub const TYPE_NS: u16 = 2;
/// Record type code of a canonical name record.
pub const TYPE_CNAME: u16 = 5;
/// Record type code of a start of authority record.
pub const TYPE_SOA: u16 = 6;
/// Record type code of a mail exchange record.
pub const TYPE_MX: u16 = 15;
/// Record type code of a text record.
pub const TYPE_TXT: u16 = 16;
/// Record type code of an IPv6 address record.
pub const TYPE_AAAA: u16 = 28;

/// Operation code of a standard query.
pub const OP_QUERY: u8 = 0;

/// Response code: no error.
pub const RCODE_NO_ERROR: u16 = 0;
/// Response code: the request could not be read.
pub const RCODE_FORM_ERR: u16 = 1;
/// Response code: the server failed.
pub const RCODE_SERV_FAIL: u16 = 2;
/// Response code: the operation is not implemented.
pub const RCODE_NOT_IMP: u16 = 4;

/// A domain name without its root dot: the text with one trailing `.`
/// dropped, if it has one.
pub open spec fn without_root_dot(name: Seq<char>) -> Seq<char> {
    if name.len() > 0 && name.last() == '.' {
        name.drop_last()
    } else {
        name
    }
}

/// `name` without its root dot (see `without_root_dot`).
pub fn strip_root_dot(name: &str) -> (r: &str)
    ensures
        r@ == without_root_dot(name@),
{
    let n = name.unicode_len();
    if n > 0 && name.get_char(n - 1) == '.' {
        let r = name.substring_char(0, n - 1);
        assert(r@ =~= name@.drop_last());
        r
    } else {
        name
    }
}

/// One question of a request: a name (as text) and a record type code.
pub struct DnsQuestion {
    pub name: String,
    pub qtype: u16,
}

/// A request as read from the wire.
pub struct DnsRequest {
    pub id: u16,
    pub op_code: u8,
    pub recursion_desired: bool,
    pub questions: Vec<DnsQuestion>,
}

/// An address record: the name it answers, its time to live in seconds, and
/// the address (an A record for IPv4, an AAAA record for IPv6).
#[derive(Debug, Clone)]
pub struct DnsRecord {
    pub name: String,
    pub ttl: u32,
    pub ip: IpAddr,
}

impl DnsRecord {
    /// A copy of the record.
    pub fn copy(&self) -> (r: DnsRecord)
        ensures
            r.name@ == self.name@,
            r.ttl == self.ttl,
            r.ip == self.ip,
    {
        DnsRecord { name: self.name.clone(), ttl: self.ttl, ip: self.ip }
    }
}

/// A response to be written to the wire.
pub struct DnsResponse {
    pub id: u16,
    pub op_code: u8,
    pub recursion_desired: bool,
    pub recursion_available: bool,
    pub response_code: u16,
    pub answers: Vec<DnsRecord>,
}

/// The questions as (name, type code) pairs.
pub open spec fn question_views(qs: Seq<DnsQuestion>) -> Seq<(Seq<char>, u16)> {
    qs.map_values(|q: DnsQuestion| (q.name@, q.qtype))
}

/// The records as (name, time to live, address) triples.
pub open spec fn record_views(rs: Seq<DnsRecord>) -> Seq<(Seq<char>, u32, IpAddr)> {
    rs.map_values(|r: DnsRecord| (r.name@, r.ttl, r.ip))
}

/// What `Message::from_bytes` reads from `bytes`: the id,
/// the operation code, whether recursion is desired, and the questions (the
/// name as its `Display` text, the type as its code); `None` where it refuses
/// the bytes.
pub uninterp spec fn decoded_request(bytes: Seq<u8>) -> Option<(u16, u8, bool, Seq<(Seq<char>, u16)>)>;

/// Reads a request with `Message::from_bytes`. Each question takes bytes of
/// the message, so there are no more questions than bytes.
#[verifier::external_body]
pub(crate) fn decode_request(bytes: &[u8]) -> (r: Option<DnsRequest>)
    ensures
        r matches Some(q) ==> q.questions@.len() <= bytes@.len(),
        match r {
            Some(q) => decoded_request(bytes@) == Some((q.id, q.op_code, q.recursion_desired, question_views(q.questions@))),
            None => decoded_request(bytes@) is None,
        },
{
    let m = Message::from_bytes(bytes).ok()?;
    let questions = m.queries().iter().map(|q| DnsQuestion { name: q.name().to_string(), qtype: u16::from(q.query_type()) }).collect();
    Some(DnsRequest { id: m.id(), op_code: u8::from(m.op_code()), recursion_desired: m.recursion_desired(), questions })
}

/// The bytes `hickory-proto` writes for a response message with these header
/// fields and answers (each name read with `Name::from_str`); `None` where it
/// refuses the operation code or a name, or fails to write the message.
pub uninterp spec fn encoded_response(
    id: u16,
    op_code: u8,
    recursion_desired: bool,
    recursion_available: bool,
    response_code: u16,
    answers: Seq<(Seq<char>, u32, IpAddr)>,
) -> Option<Seq<u8>>;

/// Writes `resp` with `Message::to_bytes`.
#[verifier::external_body]
pub(crate) fn encode_response(resp: &DnsResponse) -> (r: Option<Vec<u8>>)
    ensures
        ({
            let e = encoded_response(resp.id, resp.op_code, resp.recursion_desired, resp.recursion_available,
                resp.response_code, record_views(resp.answers@));
            match r {
                Some(b) => e == Some(b@),
                None => e is None,
            }
        }),
{
    let mut m = Message::new();
    m.set_id(resp.id).set_message_type(MessageType::Response).set_op_code(OpCode::from_u8(resp.op_code).ok()?)
        .set_recursion_desired(resp.recursion_desired).set_recursion_available(resp.recursion_available)
        .set_response_code(resp.response_code.into());
    for a in resp.answers.iter() {
        let data = match a.ip {
            IpAddr::V4(x) => RData::A(rdata::A(x.bits.into())),
            IpAddr::V6(x) => RData::AAAA(rdata::AAAA(x.bits.into())),
        };
        m.add_answer(Record::from_rdata(a.name.parse().ok()?, a.ttl, data));
    }
    m.to_bytes().ok()
}

/// The error answer to the request `bytes` with response code `rcode`, as
/// `hickory-proto` writes it: `None` where `Message::from_bytes` cannot read
/// the request; otherwise the request made a response with that code and
/// written with `to_bytes`, or `Err` with hickory's message where writing fails.
pub uninterp spec fn error_reply_bytes(bytes: Seq<u8>, rcode: u16) -> Option<Result<Seq<u8>, Seq<char>>>;

/// Reads the request `bytes` and writes it back as a response with code
/// `rcode` (see `error_reply_bytes`).
#[verifier::external_body]
pub(crate) fn encode_error_reply(bytes: &[u8], rcode: u16) -> (r: Option<Result<Vec<u8>, String>>)
    ensures
        match r {
            None => error_reply_bytes(bytes@, rcode) is None,
            Some(Ok(b)) => error_reply_bytes(bytes@, rcode) == Some(Ok::<Seq<u8>, Seq<char>>(b@)),
            Some(Err(e)) => error_reply_bytes(bytes@, rcode) == Some(Err::<Seq<u8>, Seq<char>>(e@)),
        },
{
    match Message::from_bytes(bytes) {
        Ok(mut m) => {
            m.set_message_type(MessageType::Response).set_response_code(Into::<ResponseCode>::into(rcode));
            Some(m.to_bytes().map_err(|e| e.to_string()))
        },
        Err(_) => None,
    }
}

/// The bytes `hickory-proto` writes for an empty response (`Message::new`)
/// with id `id` and response code `rcode`, or `Err` with its message where
/// writing fails.
pub uninterp spec fn empty_reply_bytes(id: u16, rcode: u16) -> Result<Seq<u8>, Seq<char>>;

/// Writes an empty response with id `id` and code `rcode` (see `empty_reply_bytes`).
#[verifier::external_body]
pub(crate) fn encode_empty_reply(id: u16, rcode: u16) -> (r: Result<Vec<u8>, String>)
    ensures
        match r {
            Ok(b) => empty_reply_bytes(id, rcode) == Ok::<Seq<u8>, Seq<char>>(b@),
            Err(e) => empty_reply_bytes(id, rcode) == Err::<Seq<u8>, Seq<char>>(e@),
        },
{
    let mut m = Message::new();
    m.set_id(id).set_message_type(MessageType::Response).set_response_code(Into::<ResponseCode>::into(rcode));
    m.to_bytes().map_err(|e| e.to_string())
}

/// The text `hickory-proto` shows for a record type code (`Display` of
/// `RecordType::from(code)`: its name, or `Unknown` for a code it does not know).
pub uninterp spec fn record_type_name(code: u16) -> Seq<char>;

/// The name of the record type with code `code` (see `record_type_name`).
#[verifier::external_body]
pub(crate) fn record_type_label(code: u16) -> (s: String)
    ensures
        s@ == record_type_name(code),
{
    RecordType::from(code).to_string()
}

/// The text `hickory-proto` shows for a record type code in debug form
/// (`Debug` of `RecordType::from(code)`).
pub uninterp spec fn record_type_debug(code: u16) -> Seq<char>;

/// The debug text of the record type with code `code` (see `record_type_debug`).
#[verifier::external_body]
pub(crate) fn record_type_debug_label(code: u16) -> (s: String)
    ensures
        s@ == record_type_debug(code),
{
    format!("{:?}", RecordType::from(code))
}

} // verus!
