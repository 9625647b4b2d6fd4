//! Answers from the scanner's fastest addresses.
use vstd::prelude::*;
use crate::config::models::Config;
use crate::dns::wire::{
    DnsRecord, TYPE_A, TYPE_AAAA, TYPE_CNAME, TYPE_MX, TYPE_NS, TYPE_SOA, TYPE_TXT,
    record_type_debug, record_type_debug_label, record_views, strip_root_dot, without_root_dot,
};
use crate::error::RusherError;
use crate::net::IpAddr;
use crate::scanner::scanner::{ScanResult, ScanTable, is_fastest};

verus! {

/// Whether `qtype` is a record type answered with no records.
pub open spec fn answered_empty(qtype: u16) -> bool {
    qtype == TYPE_CNAME || qtype == TYPE_MX || qtype == TYPE_TXT || qtype == TYPE_NS || qtype == TYPE_SOA
}

/// The message of a missing address: `未找到 <name> 的 IPv4 地址` (or IPv6).
pub open spec fn missing_address_message(name: Seq<char>, v6: bool) -> Seq<char> {
    "未找到 "@ + name + if v6 { " 的 IPv6 地址"@ } else { " 的 IPv4 地址"@ }
}

/// The message of an unsupported record type.
pub open spec fn unsupported_type_message(qtype: u16) -> Seq<char> {
    "不支持的记录类型: "@ + record_type_debug(qtype)
}

/// The fastest address of `name` in `fastest` if it is of the asked family.
pub open spec fn family_address(fastest: Map<Seq<char>, IpAddr>, name: Seq<char>, v6: bool) -> Option<IpAddr> {
    if fastest.contains_key(name) {
        match fastest[name] {
            IpAddr::V4(a) => if v6 { None } else { Some(IpAddr::V4(a)) },
            IpAddr::V6(a) => if v6 { Some(IpAddr::V6(a)) } else { None },
        }
    } else {
        None
    }
}

/// The answer to a query for `name` of type `qtype`: for A (and, when IPv6
/// is enabled, AAAA) one record for `name` with the fastest address of that
/// family found for `name` without its root dot, and time to live `ttl`, or
/// the message that there is none; no records for
/// AAAA with IPv6 disabled and for CNAME, MX, TXT, NS and SOA; the message
/// of an unsupported type for any other type.
pub open spec fn resolution(
    fastest: Map<Seq<char>, IpAddr>,
    ttl: u32,
    enable_ipv6: bool,
    name: Seq<char>,
    qtype: u16,
) -> Result<Seq<(Seq<char>, u32, IpAddr)>, Seq<char>> {
    if qtype == TYPE_A || (qtype == TYPE_AAAA && enable_ipv6) {
        let v6 = qtype == TYPE_AAAA;
        match family_address(fastest, without_root_dot(name), v6) {
            Some(ip) => Ok(seq![(name, ttl, ip)]),
            None => Err(missing_address_message(name, v6)),
        }
    } else if qtype == TYPE_AAAA || answered_empty(qtype) {
        Ok(Seq::empty())
    } else {
        Err(unsupported_type_message(qtype))
    }
}

/// An A query about a domain (with or without its root dot) whose chosen
/// address is the fastest available IPv4 address of its results is answered
/// with exactly that address.
pub proof fn lemma_answer_is_fastest(
    results: Map<IpAddr, ScanResult>,
    fastest: Map<Seq<char>, IpAddr>,
    ttl: u32,
    enable_ipv6: bool,
    name: Seq<char>,
)
    requires
        fastest.contains_key(without_root_dot(name)),
        fastest[without_root_dot(name)] is V4,
        is_fastest(results, fastest[without_root_dot(name)]),
    ensures
        resolution(fastest, ttl, enable_ipv6, name, TYPE_A) matches Ok(rs) && rs.len() == 1 && {
            let ip = rs[0].2;
            &&& rs[0].0 == name
            &&& rs[0].1 == ttl
            &&& ip == fastest[without_root_dot(name)]
            &&& results.contains_key(ip) && results[ip].available
            &&& forall|k: IpAddr| #[trigger] results.contains_key(k) && results[k].available
                ==> results[ip].response_time <= results[k].response_time
        },
{
}

/// An answer holds at most one record, for the asked name with time to live
/// `ttl`; an A answer holds only IPv4 addresses and an AAAA answer only IPv6
/// ones; and a name whose chosen address is of the other family gets an error
/// for A, and for AAAA when IPv6 is enabled.
pub proof fn lemma_answer_family(
    fastest: Map<Seq<char>, IpAddr>,
    ttl: u32,
    enable_ipv6: bool,
    name: Seq<char>,
    qtype: u16,
)
    ensures
        resolution(fastest, ttl, enable_ipv6, name, qtype) matches Ok(rs) ==> {
            &&& rs.len() <= 1
            &&& forall|i: int| 0 <= i < rs.len() ==> (#[trigger] rs[i]).0 == name && rs[i].1 == ttl
            &&& qtype == TYPE_A ==> forall|i: int| 0 <= i < rs.len() ==> (#[trigger] rs[i]).2 is V4
            &&& qtype == TYPE_AAAA ==> forall|i: int| 0 <= i < rs.len() ==> (#[trigger] rs[i]).2 is V6
        },
        fastest.contains_key(without_root_dot(name)) && fastest[without_root_dot(name)] is V6
            ==> resolution(fastest, ttl, enable_ipv6, name, TYPE_A) is Err,
        enable_ipv6 && fastest.contains_key(without_root_dot(name)) && fastest[without_root_dot(name)] is V4
            ==> resolution(fastest, ttl, enable_ipv6, name, TYPE_AAAA) is Err,
        !fastest.contains_key(without_root_dot(name)) ==> resolution(fastest, ttl, enable_ipv6, name, TYPE_A) is Err,
{
}

/// Whether `r` is the outcome `res` describes, errors being DNS errors.
pub open spec fn resolves_as(r: Result<Vec<DnsRecord>, RusherError>, res: Result<Seq<(Seq<char>, u32, IpAddr)>, Seq<char>>) -> bool {
    match (r, res) {
        (Ok(rs), Ok(expected)) => record_views(rs@) == expected,
        (Err(e), Err(msg)) => e matches RusherError::DnsError(m) && m@ == msg,
        _ => false,
    }
}

/// Resolves names from the scanner's fastest addresses.
pub struct DnsResolver {
    cache_ttl: u32,
    enable_ipv6: bool,
}

fn message_with(prefix: &str, name: &str, suffix: &str) -> (s: String)
    ensures
        s@ == prefix@ + name@ + suffix@,
{
    let mut s = String::from_str(prefix);
    s.append(name);
    s.append(suffix);
    s
}

impl DnsResolver {
    /// Time to live of the answers, in seconds.
    pub closed spec fn ttl(self) -> u32 {
        self.cache_ttl
    }

    /// Whether AAAA queries are answered.
    pub closed spec fn ipv6_enabled(self) -> bool {
        self.enable_ipv6
    }

    /// A resolver with the DNS settings of `config`.
    pub fn new(config: &Config) -> (r: Self)
        ensures
            r.ttl() == config.dns.cache_ttl,
            r.ipv6_enabled() == config.dns.enable_ipv6,
    {
        DnsResolver { cache_ttl: config.dns.cache_ttl, enable_ipv6: config.dns.enable_ipv6 }
    }

    /// Answers a query for `name` of type `query_type` from the fastest
    /// addresses of `table` (see `resolution`).
    pub fn resolve(&self, table: &ScanTable, name: &str, query_type: u16) -> (r: Result<Vec<DnsRecord>, RusherError>)
        requires
            table.wf(),
        ensures
            resolves_as(r, resolution(table.fastest_view(), self.ttl(), self.ipv6_enabled(), name@, query_type)),
    {
        if query_type == TYPE_A {
            self.resolve_a(table, name)
        } else if query_type == TYPE_AAAA {
            self.resolve_aaaa(table, name)
        } else if query_type == TYPE_CNAME || query_type == TYPE_MX || query_type == TYPE_TXT
            || query_type == TYPE_NS || query_type == TYPE_SOA {
            let v: Vec<DnsRecord> = Vec::new();
            assert(record_views(v@) =~= Seq::empty());
            Ok(v)
        } else {
            let mut msg = String::from_str("不支持的记录类型: ");
            let label = record_type_debug_label(query_type);
            msg.append(label.as_str());
            Err(RusherError::DnsError(msg))
        }
    }

    fn resolve_a(&self, table: &ScanTable, name: &str) -> (r: Result<Vec<DnsRecord>, RusherError>)
        requires
            table.wf(),
        ensures
            resolves_as(r, resolution(table.fastest_view(), self.ttl(), self.ipv6_enabled(), name@, TYPE_A)),
    {
        match table.get_fastest_ipv4(strip_root_dot(name)) {
            Some(ip) => {
                let mut v: Vec<DnsRecord> = Vec::new();
                v.push(DnsRecord { name: String::from_str(name), ttl: self.cache_ttl, ip: IpAddr::V4(ip) });
                assert(record_views(v@) =~= seq![(name@, self.ttl(), IpAddr::V4(ip))]);
                Ok(v)
            },
            None => Err(RusherError::DnsError(message_with("未找到 ", name, " 的 IPv4 地址"))),
        }
    }

    fn resolve_aaaa(&self, table: &ScanTable, name: &str) -> (r: Result<Vec<DnsRecord>, RusherError>)
        requires
            table.wf(),
        ensures
            resolves_as(r, resolution(table.fastest_view(), self.ttl(), self.ipv6_enabled(), name@, TYPE_AAAA)),
    {
        if !self.enable_ipv6 {
            let v: Vec<DnsRecord> = Vec::new();
            assert(record_views(v@) =~= Seq::empty());
            return Ok(v);
        }
        match table.get_fastest_ipv6(strip_root_dot(name)) {
            Some(ip) => {
                let mut v: Vec<DnsRecord> = Vec::new();
                v.push(DnsRecord { name: String::from_str(name), ttl: self.cache_ttl, ip: IpAddr::V6(ip) });
                assert(record_views(v@) =~= seq![(name@, self.ttl(), IpAddr::V6(ip))]);
                Ok(v)
            },
            None => Err(RusherError::DnsError(message_with("未找到 ", name, " 的 IPv6 地址"))),
        }
    }

    /// Answers each name in turn; a name whose query fails gets no records.
    pub fn resolve_batch(&self, table: &ScanTable, names: &Vec<String>, query_type: u16) -> (r: Result<Vec<Vec<DnsRecord>>, RusherError>)
        requires
            table.wf(),
        ensures
            r matches Ok(all) && all@.len() == names@.len() && forall|i: int| 0 <= i < names@.len() ==>
                match resolution(table.fastest_view(), self.ttl(), self.ipv6_enabled(), names@[i]@, query_type) {
                    Ok(expected) => record_views(#[trigger] all@[i]@) == expected,
                    Err(_) => all@[i]@.len() == 0,
                },
    {
        let mut all: Vec<Vec<DnsRecord>> = Vec::new();
        let mut i: usize = 0;
        while i < names.len()
            invariant
                table.wf(),
                i <= names@.len(),
                all@.len() == i,
                forall|j: int| 0 <= j < i ==>
                    match resolution(table.fastest_view(), self.ttl(), self.ipv6_enabled(), names@[j]@, query_type) {
                        Ok(expected) => record_views(#[trigger] all@[j]@) == expected,
                        Err(_) => all@[j]@.len() == 0,
                    },
            decreases names@.len() - i,
        {
            match self.resolve(table, names[i].as_str(), query_type) {
                Ok(records) => all.push(records),
                Err(_) => all.push(Vec::new()),
            }
            i = i + 1;
        }
        Ok(all)
    }

    /// The resolver keeps no cache of its own; there is nothing to clear.
    pub fn clear_cache(&self) {
    }
}

} // verus!
