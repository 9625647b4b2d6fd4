//! Answering one DNS request: reading it, answering the questions about
//! accelerated domains from the cache or the resolver, and writing the
//! response or an error response.
use vstd::prelude::*;
use crate::config::models::{Config, string_views};
use crate::dns::cache::{CacheStats, DnsCache, answer_key};
use crate::dns::resolver::{DnsResolver, resolution};
use crate::dns::wire::{
    DnsRecord, DnsRequest, DnsResponse, OP_QUERY, RCODE_FORM_ERR, RCODE_NOT_IMP, RCODE_NO_ERROR, RCODE_SERV_FAIL,
    decode_request, decoded_request, empty_reply_bytes, encode_empty_reply, encode_error_reply, encode_response,
    encoded_response, error_reply_bytes,
    question_views, record_views, strip_root_dot, without_root_dot,
};
use crate::error::RusherError;
use crate::scanner::cache::MOKA_MAX_TTL_SECS;
use crate::scanner::scanner::ScanTable;

verus! {

/// Whether `s` ends with `t`.
pub open spec fn ends_with(s: Seq<char>, t: Seq<char>) -> bool {
    t.len() <= s.len() && s.subrange(s.len() - t.len(), s.len() as int) == t
}

/// Whether `name` is the domain `d` or one of its subdomains.
pub open spec fn in_domain(name: Seq<char>, d: Seq<char>) -> bool {
    name == d || ends_with(name, seq!['.'] + d)
}

/// Whether `domain`, without its root dot, is one of `domains` or a
/// subdomain of one of them.
pub open spec fn github_domain(domain: Seq<char>, domains: Seq<Seq<char>>) -> bool {
    exists|i: int| 0 <= i < domains.len() && in_domain(without_root_dot(domain), #[trigger] domains[i])
}

fn text_ends_with(s: &str, t: &str) -> (r: bool)
    ensures
        r == ends_with(s@, t@),
{
    let ns = s.unicode_len();
    let nt = t.unicode_len();
    if nt > ns {
        return false;
    }
    let off = ns - nt;
    let mut i: usize = 0;
    while i < nt
        invariant
            ns == s@.len(),
            nt == t@.len(),
            off == ns - nt,
            i <= nt,
            forall|j: int| 0 <= j < i ==> s@[off + j] == t@[j],
        decreases nt - i,
    {
        if s.get_char(off + i) != t.get_char(i) {
            assert(s@.subrange(off as int, ns as int)[i as int] != t@[i as int]);
            return false;
        }
        i = i + 1;
    }
    assert(s@.subrange(off as int, ns as int) =~= t@);
    true
}

/// Whether `domain` is the domain `d` or one of its subdomains.
fn is_in_domain(domain: &str, d: &str) -> (r: bool)
    ensures
        r == in_domain(domain@, d@),
{
    if crate::text::same_chars(domain, d) {
        return true;
    }
    let mut dotted = String::from_str(".");
    dotted.append(d);
    proof {
        reveal_strlit(".");
        assert(dotted@ =~= seq!['.'] + d@);
    }
    text_ends_with(domain, dotted.as_str())
}

/// Whether `domain`, without its root dot, is one of the accelerated
/// `domains` or a subdomain of one of them.
pub fn is_github_domain(domain: &str, domains: &Vec<String>) -> (r: bool)
    ensures
        r == github_domain(domain@, string_views(domains@)),
{
    let ghost v = string_views(domains@);
    let name = strip_root_dot(domain);
    let mut i: usize = 0;
    while i < domains.len()
        invariant
            i <= domains@.len(),
            v == string_views(domains@),
            name@ == without_root_dot(domain@),
            forall|j: int| 0 <= j < i ==> !in_domain(name@, #[trigger] v[j]),
        decreases domains@.len() - i,
    {
        let d = domains[i].as_str();
        if is_in_domain(name, d) {
            assert(in_domain(name@, v[i as int]));
            return true;
        }
        i = i + 1;
    }
    false
}

/// The records answering the questions of `qs` about accelerated `domains`,
/// question by question, as the resolver gives them (a question it cannot
/// answer adds none).
pub open spec fn resolver_answers(
    qs: Seq<(Seq<char>, u16)>,
    domains: Seq<Seq<char>>,
    fastest: Map<Seq<char>, crate::net::IpAddr>,
    ttl: u32,
    enable_ipv6: bool,
) -> Seq<(Seq<char>, u32, crate::net::IpAddr)>
    decreases qs.len(),
{
    if qs.len() == 0 {
        Seq::empty()
    } else {
        let before = resolver_answers(qs.drop_last(), domains, fastest, ttl, enable_ipv6);
        let q = qs.last();
        if github_domain(q.0, domains) {
            match resolution(fastest, ttl, enable_ipv6, q.0, q.1) {
                Ok(rs) => before + rs,
                Err(_) => before,
            }
        } else {
            before
        }
    }
}

/// The error answer to `bytes` with `rcode` as written: the request made a
/// response with that code, or, where the request cannot be read, an empty
/// response with id 0 and that code.
pub open spec fn error_reply(bytes: Seq<u8>, rcode: u16) -> Result<Seq<u8>, Seq<char>> {
    match error_reply_bytes(bytes, rcode) {
        Some(w) => w,
        None => empty_reply_bytes(0, rcode),
    }
}

/// The outcome of writing the error answer to `bytes` with `rcode` (see
/// `error_reply`): its bytes, or the message of the DNS error raised when
/// writing fails.
pub open spec fn error_outcome(bytes: Seq<u8>, rcode: u16) -> Result<Seq<u8>, Seq<char>> {
    match error_reply(bytes, rcode) {
        Ok(b) => Ok(b),
        Err(e) => Err("创建错误响应失败: "@ + e),
    }
}

/// Whether `r` is the outcome `o`, errors being DNS errors.
pub open spec fn is_outcome(r: Result<Vec<u8>, RusherError>, o: Result<Seq<u8>, Seq<char>>) -> bool {
    match (r, o) {
        (Ok(b), Ok(expected)) => b@ == expected,
        (Err(e), Err(msg)) => e matches RusherError::DnsError(m) && m@ == msg,
        _ => false,
    }
}

/// The error answer to `request_data` with response code `rcode` (see `error_outcome`).
pub fn create_error_response(request_data: &[u8], rcode: u16) -> (r: Result<Vec<u8>, RusherError>)
    ensures
        is_outcome(r, error_outcome(request_data@, rcode)),
{
    let written = match encode_error_reply(request_data, rcode) {
        Some(w) => w,
        None => encode_empty_reply(0, rcode),
    };
    match written {
        Ok(b) => Ok(b),
        Err(e) => {
            let mut msg = String::from_str("创建错误响应失败: ");
            msg.append(e.as_str());
            Err(RusherError::DnsError(msg))
        },
    }
}

/// Whether `b` is the wire form of a response to the query with this id,
/// operation code and recursion wish: recursion available, no error, and
/// some answers.
pub open spec fn answers_query(id: u16, op_code: u8, recursion_desired: bool, b: Seq<u8>) -> bool {
    exists|answers: Seq<(Seq<char>, u32, crate::net::IpAddr)>|
        encoded_response(id, op_code, recursion_desired, true, RCODE_NO_ERROR, answers) == Some(b)
}

/// The response to `req` before any answer: same id, operation code and
/// recursion wish, recursion available, no error.
pub fn response_header(req: &DnsRequest) -> (resp: DnsResponse)
    ensures
        resp.id == req.id,
        resp.op_code == req.op_code,
        resp.recursion_desired == req.recursion_desired,
        resp.recursion_available,
        resp.response_code == RCODE_NO_ERROR,
        resp.answers@.len() == 0,
{
    DnsResponse {
        id: req.id,
        op_code: req.op_code,
        recursion_desired: req.recursion_desired,
        recursion_available: true,
        response_code: RCODE_NO_ERROR,
        answers: Vec::new(),
    }
}

/// A DNS server's logic: the accelerated domains, the answer cache and the resolver.
pub struct DnsServer {
    domains: Vec<String>,
    cache: DnsCache,
    resolver: DnsResolver,
}

impl DnsServer {
    /// The accelerated domains.
    pub closed spec fn accelerated(self) -> Seq<Seq<char>> {
        string_views(self.domains@)
    }

    /// The resolver.
    pub closed spec fn resolver_of(self) -> DnsResolver {
        self.resolver
    }

    /// The answer cache.
    pub closed spec fn cache_of(self) -> DnsCache {
        self.cache
    }

    /// The counts of the answer cache.
    pub fn cache_stats(&self) -> (s: CacheStats)
        ensures
            s == self.cache_of().counts(),
    {
        self.cache.stats()
    }

    /// Whether the question `q` is about an accelerated domain.
    pub open spec fn asks_accelerated(self, q: (Seq<char>, u16)) -> bool {
        github_domain(q.0, self.accelerated())
    }

    /// A server for the domains of `config`, with `cache` and `resolver`.
    pub fn new(config: &Config, cache: DnsCache, resolver: DnsResolver) -> (s: Self)
        ensures
            s.accelerated() == string_views(config.github.domains@),
            s.resolver_of() == resolver,
            s.cache_of() == cache,
    {
        let mut domains: Vec<String> = Vec::new();
        crate::config::models::extend_strings(&mut domains, &config.github.domains);
        assert(string_views(domains@) =~= string_views(config.github.domains@));
        DnsServer { domains, cache, resolver }
    }

    /// Answers a question about an accelerated domain: the cached answer if
    /// there is a valid one, else the resolver's answer, which is then cached
    /// under the question's own name and type.
    /// A resolver error is passed on. What the cache holds depends on expiry,
    /// so only the resolver's part is promised.
    fn handle_github_query(&mut self, table: &ScanTable, response: &mut DnsResponse, name: &str, qtype: u16) -> (r: Result<(), RusherError>)
        requires
            table.wf(),
            old(self).cache_of().counts().hits < u64::MAX - 1,
            old(self).cache_of().counts().misses < u64::MAX - 1,
        ensures
            final(self).accelerated() == old(self).accelerated(),
            final(self).resolver_of() == old(self).resolver_of(),
            old(self).cache_of().counts().hits <= final(self).cache_of().counts().hits,
            final(self).cache_of().counts().hits <= old(self).cache_of().counts().hits + 1,
            final(self).cache_of().counts().misses <= old(self).cache_of().counts().misses + 1,
            final(self).cache_of().counts().hits == old(self).cache_of().counts().hits ==> match r {
                Ok(_) => resolution(table.fastest_view(), old(self).resolver_of().ttl(), old(self).resolver_of().ipv6_enabled(),
                    name@, qtype) matches Ok(rs) && record_views(final(response).answers@) == record_views(old(response).answers@) + rs
                    && final(self).cache_of().stored_answers().contains_key(answer_key(name@, qtype))
                    && final(self).cache_of().stored_answers()[answer_key(name@, qtype)] == rs,
                Err(_) => true,
            },
            final(response).id == old(response).id,
            final(response).op_code == old(response).op_code,
            final(response).recursion_desired == old(response).recursion_desired,
            final(response).recursion_available == old(response).recursion_available,
            final(response).response_code == old(response).response_code,
            r is Err ==> resolution(table.fastest_view(), old(self).resolver_of().ttl(),
                old(self).resolver_of().ipv6_enabled(), name@, qtype) is Err,
            r matches Err(e) ==> e is DnsError,
    {
        match self.cache.get(name, qtype) {
            Some(records) => {
                let mut rs = records;
                response.answers.append(&mut rs);
                Ok(())
            },
            None => match self.resolver.resolve(table, name, qtype) {
                Ok(records) => {
                    let mut copy: Vec<DnsRecord> = Vec::new();
                    let mut i: usize = 0;
                    while i < records.len()
                        invariant
                            i <= records@.len(),
                            record_views(copy@) == record_views(records@.take(i as int)),
                        decreases records@.len() - i,
                    {
                        let ghost before = record_views(copy@);
                        copy.push(records[i].copy());
                        assert(record_views(copy@) =~= before.push(record_views(records@)[i as int]));
                        assert(record_views(records@.take(i + 1)) =~= record_views(records@.take(i as int)).push(record_views(records@)[i as int]));
                        i = i + 1;
                    }
                    assert(records@.take(records@.len() as int) =~= records@);
                    let ghost before_answers = record_views(response.answers@);
                    let ghost copied = record_views(copy@);
                    response.answers.append(&mut copy);
                    assert(record_views(response.answers@) =~= before_answers + copied);
                    self.cache.set(name, qtype, records);
                    Ok(())
                },
                Err(e) => Err(e),
            },
        }
    }

    /// Answers the questions of `request`: those about accelerated domains
    /// from the cache or the resolver, the others with nothing (no upstream
    /// is asked). The first resolver error ends the processing.
    pub fn process_queries(&mut self, table: &ScanTable, request: &DnsRequest) -> (r: Result<DnsResponse, RusherError>)
        requires
            table.wf(),
            old(self).cache_of().counts().hits + request.questions@.len() < u64::MAX - 1,
            old(self).cache_of().counts().misses + request.questions@.len() < u64::MAX - 1,
        ensures
            final(self).accelerated() == old(self).accelerated(),
            final(self).resolver_of() == old(self).resolver_of(),
            r matches Ok(resp) ==> {
                &&& resp.id == request.id
                &&& resp.op_code == request.op_code
                &&& resp.recursion_desired == request.recursion_desired
                &&& resp.recursion_available
                &&& resp.response_code == RCODE_NO_ERROR
            },
            (forall|i: int| 0 <= i < request.questions@.len()
                ==> !old(self).asks_accelerated(#[trigger] question_views(request.questions@)[i]))
                ==> (r matches Ok(resp) && resp.answers@.len() == 0),
            (forall|i: int| 0 <= i < request.questions@.len() && old(self).asks_accelerated(#[trigger] question_views(request.questions@)[i])
                ==> resolution(table.fastest_view(), old(self).resolver_of().ttl(), old(self).resolver_of().ipv6_enabled(),
                    question_views(request.questions@)[i].0, question_views(request.questions@)[i].1) is Ok)
                ==> r is Ok,
            r matches Err(e) ==> e is DnsError,
            match r {
                Ok(resp) => final(self).cache_of().counts().hits == old(self).cache_of().counts().hits
                    ==> record_views(resp.answers@) == resolver_answers(question_views(request.questions@),
                        old(self).accelerated(), table.fastest_view(), old(self).resolver_of().ttl(),
                        old(self).resolver_of().ipv6_enabled()),
                Err(_) => true,
            },
    {
        let mut response = response_header(request);
        let ghost qs = question_views(request.questions@);
        let mut i: usize = 0;
        while i < request.questions.len()
            invariant
                table.wf(),
                i <= request.questions@.len(),
                qs == question_views(request.questions@),
                self.accelerated() == old(self).accelerated(),
                self.resolver_of() == old(self).resolver_of(),
                old(self).cache_of().counts().hits <= self.cache_of().counts().hits,
                self.cache_of().counts().hits <= old(self).cache_of().counts().hits + i,
                self.cache_of().counts().hits == old(self).cache_of().counts().hits ==> record_views(response.answers@)
                    == resolver_answers(qs.take(i as int), old(self).accelerated(), table.fastest_view(),
                        old(self).resolver_of().ttl(), old(self).resolver_of().ipv6_enabled()),
                self.cache_of().counts().misses <= old(self).cache_of().counts().misses + i,
                old(self).cache_of().counts().hits + request.questions@.len() < u64::MAX - 1,
                old(self).cache_of().counts().misses + request.questions@.len() < u64::MAX - 1,
                response.id == request.id,
                response.op_code == request.op_code,
                response.recursion_desired == request.recursion_desired,
                response.recursion_available,
                response.response_code == RCODE_NO_ERROR,
                (forall|j: int| 0 <= j < i ==> !old(self).asks_accelerated(#[trigger] qs[j])) ==> response.answers@.len() == 0,
            decreases request.questions@.len() - i,
        {
            let name = request.questions[i].name.as_str();
            let qtype = request.questions[i].qtype;
            proof {
                assert(qs.take(i + 1).drop_last() =~= qs.take(i as int));
                assert(qs.take(i + 1).last() == (name@, qtype));
            }
            if is_github_domain(name, &self.domains) {
                match self.handle_github_query(table, &mut response, name, qtype) {
                    Ok(()) => {},
                    Err(e) => {
                        proof {
                            assert(qs[i as int] == (name@, qtype));
                            assert(old(self).asks_accelerated(qs[i as int]));
                        }
                        return Err(e);
                    },
                }
            } else {
                assert(!old(self).asks_accelerated(qs[i as int]));
            }
            i = i + 1;
        }
        assert(qs.take(request.questions@.len() as int) =~= qs);
        Ok(response)
    }

    /// Answers the request in `request_data`: a request that cannot be read
    /// gets a format error answer, one that is not a standard query a
    /// not-implemented answer; a query gets its response, or a server failure
    /// answer where processing or writing fails.
    pub fn handle_request(&mut self, table: &ScanTable, request_data: &[u8]) -> (r: Result<Vec<u8>, RusherError>)
        requires
            table.wf(),
            old(self).cache_of().counts().hits + request_data@.len() < u64::MAX - 1,
            old(self).cache_of().counts().misses + request_data@.len() < u64::MAX - 1,
        ensures
            final(self).accelerated() == old(self).accelerated(),
            final(self).resolver_of() == old(self).resolver_of(),
            match decoded_request(request_data@) {
                None => is_outcome(r, error_outcome(request_data@, RCODE_FORM_ERR)),
                Some(q) => if q.1 != OP_QUERY {
                    is_outcome(r, error_outcome(request_data@, RCODE_NOT_IMP))
                } else {
                    &&& (r matches Ok(b) && answers_query(q.0, q.1, q.2, b@))
                        || is_outcome(r, error_outcome(request_data@, RCODE_SERV_FAIL))
                    &&& (final(self).cache_of().counts().hits == old(self).cache_of().counts().hits
                        && forall|i: int| 0 <= i < q.3.len() && old(self).asks_accelerated(#[trigger] q.3[i])
                            ==> resolution(table.fastest_view(), old(self).resolver_of().ttl(),
                                old(self).resolver_of().ipv6_enabled(), q.3[i].0, q.3[i].1) is Ok)
                        ==> match encoded_response(q.0, q.1, q.2, true, RCODE_NO_ERROR, resolver_answers(q.3,
                            old(self).accelerated(), table.fastest_view(), old(self).resolver_of().ttl(),
                            old(self).resolver_of().ipv6_enabled())) {
                            Some(b) => r matches Ok(x) && x@ == b,
                            None => is_outcome(r, error_outcome(request_data@, RCODE_SERV_FAIL)),
                        }
                },
            },
    {
        let request = match decode_request(request_data) {
            Some(q) => q,
            None => return create_error_response(request_data, RCODE_FORM_ERR),
        };
        assert(decoded_request(request_data@) == Some((request.id, request.op_code, request.recursion_desired,
            question_views(request.questions@))));
        if request.op_code != OP_QUERY {
            return create_error_response(request_data, RCODE_NOT_IMP);
        }
        match self.process_queries(table, &request) {
            Ok(response) => match encode_response(&response) {
                Some(b) => {
                    assert(encoded_response(request.id, request.op_code, request.recursion_desired, true, RCODE_NO_ERROR,
                        crate::dns::wire::record_views(response.answers@)) == Some(b@));
                    assert(answers_query(request.id, request.op_code, request.recursion_desired, b@));
                    Ok(b)
                },
                None => create_error_response(request_data, RCODE_SERV_FAIL),
            },
            Err(_) => create_error_response(request_data, RCODE_SERV_FAIL),
        }
    }
}

} // verus!
