use hickory_proto::op::{Message, MessageType, OpCode, Query, ResponseCode};
use hickory_proto::rr::{Name, RData, RecordType};
use hickory_proto::serialize::binary::{BinDecodable, BinEncodable};
use rusher::config::models::Config;
use rusher::dns::cache::{build_cache_key, calculate_min_ttl, fresh_records, DnsCache};
use rusher::dns::resolver::DnsResolver;
use rusher::dns::server::{create_error_response, is_github_domain, DnsServer};
use rusher::dns::wire::{strip_root_dot, DnsRecord, TYPE_A, TYPE_AAAA, TYPE_CNAME, TYPE_MX, TYPE_NS, TYPE_SOA, TYPE_TXT};
use rusher::error::RusherError;
use rusher::net::{IpAddr, Ipv4Addr, Ipv6Addr};
use rusher::scanner::scanner::{ScanResult, ScanTable};
use rusher::time::Duration;

fn table_with(domain: &str, ip: IpAddr) -> ScanTable {
    let mut table = ScanTable::new();
    table.update_results(
        domain,
        vec![ScanResult { ip, domain: domain.to_string(), response_time: 20, scanned_at_ms: 0, available: true }],
    );
    table.update_fastest_ip(domain);
    table
}

fn query_bytes(id: u16, name: &str, rtype: RecordType) -> Vec<u8> {
    let mut message = Message::new();
    message.set_id(id);
    message.set_recursion_desired(true);
    message.add_query(Query::query(Name::from_utf8(name).unwrap(), rtype));
    message.to_bytes().unwrap()
}

#[test]
fn accelerated_domains_and_their_subdomains() {
    let domains = Config::default().github.domains;
    assert!(is_github_domain("github.com", &domains));
    assert!(is_github_domain("api.github.com", &domains));
    assert!(is_github_domain("objects.githubusercontent.com", &domains));
    assert!(!is_github_domain("example.com", &domains));
    assert!(is_github_domain("github.com.", &domains));
    assert!(is_github_domain("api.github.com.", &domains));
    assert!(!is_github_domain("evilgithub.com", &domains));
    assert!(!is_github_domain("github.com.evil", &domains));
    assert!(!is_github_domain("", &domains));
}

#[test]
fn cache_key_uses_type_name() {
    assert_eq!(build_cache_key("github.com", TYPE_A), "github.com:A");
    assert_eq!(build_cache_key("github.com", TYPE_AAAA), "github.com:AAAA");
    assert_eq!(build_cache_key("github.com", 12), "github.com:PTR");
    assert_eq!(build_cache_key("github.com", 4242), "github.com:Unknown");
}

#[test]
fn min_ttl_is_capped() {
    let ip = IpAddr::V4(Ipv4Addr::new(1, 1, 1, 1));
    let rec = |ttl: u32| DnsRecord { name: "a".to_string(), ttl, ip };
    assert_eq!(calculate_min_ttl(&vec![], 300).as_secs(), 300);
    assert_eq!(calculate_min_ttl(&vec![rec(60), rec(30), rec(90)], 300).as_secs(), 30);
    assert_eq!(calculate_min_ttl(&vec![rec(600)], 300).as_secs(), 300);
}

#[test]
fn resolver_answers_from_fastest_address() {
    let mut config = Config::default();
    let resolver = DnsResolver::new(&config);
    let table = table_with("github.com", IpAddr::V4(Ipv4Addr::new(140, 82, 112, 3)));

    let records = resolver.resolve(&table, "github.com", TYPE_A).unwrap();
    assert_eq!(records.len(), 1);
    assert_eq!(records[0].name, "github.com");
    let dotted = resolver.resolve(&table, "github.com.", TYPE_A).unwrap();
    assert_eq!(dotted.len(), 1);
    assert_eq!(dotted[0].name, "github.com.");
    assert_eq!(dotted[0].ip, IpAddr::V4(Ipv4Addr::new(140, 82, 112, 3)));
    assert_eq!(records[0].ttl, 300);
    assert_eq!(records[0].ip, IpAddr::V4(Ipv4Addr::new(140, 82, 112, 3)));

    match resolver.resolve(&table, "gist.github.com", TYPE_A) {
        Err(RusherError::DnsError(m)) => assert_eq!(m, "未找到 gist.github.com 的 IPv4 地址"),
        _ => panic!("expected a DNS error"),
    }
    assert!(resolver.resolve(&table, "github.com", TYPE_AAAA).unwrap().is_empty());
    for t in [TYPE_CNAME, TYPE_MX, TYPE_TXT, TYPE_NS, TYPE_SOA] {
        assert!(resolver.resolve(&table, "github.com", t).unwrap().is_empty());
    }
    match resolver.resolve(&table, "github.com", 12) {
        Err(RusherError::DnsError(m)) => assert_eq!(m, "不支持的记录类型: PTR"),
        _ => panic!("expected a DNS error"),
    }

    config.dns.enable_ipv6 = true;
    let resolver6 = DnsResolver::new(&config);
    match resolver6.resolve(&table, "github.com", TYPE_AAAA) {
        Err(RusherError::DnsError(m)) => assert_eq!(m, "未找到 github.com 的 IPv6 地址"),
        _ => panic!("expected a DNS error"),
    }
    let v6 = IpAddr::V6(Ipv6Addr { bits: 0x2a0a_a440_0000_0000_0000_0000_0000_0001 });
    let table6 = table_with("github.com", v6);
    assert_eq!(resolver6.resolve(&table6, "github.com", TYPE_AAAA).unwrap()[0].ip, v6);

    let batch = resolver.resolve_batch(&table, &vec!["github.com".to_string(), "nope".to_string()], TYPE_A).unwrap();
    assert_eq!(batch.len(), 2);
    assert_eq!(batch[0].len(), 1);
    assert!(batch[1].is_empty());
}

#[test]
fn dns_cache_set_get_remove() {
    let config = Config::default();
    let mut cache = DnsCache::new(&config);
    let ip = IpAddr::V4(Ipv4Addr::new(140, 82, 112, 3));
    assert!(cache.get("github.com", TYPE_A).is_none());
    cache.set("github.com", TYPE_A, vec![DnsRecord { name: "github.com".to_string(), ttl: 60, ip }]);
    let got = cache.get("github.com", TYPE_A).expect("cached answer");
    assert_eq!(got[0].ip, ip);
    let s = cache.stats();
    assert_eq!((s.hits, s.misses), (1, 1));
    cache.remove("github.com", TYPE_A);
    assert!(cache.get("github.com", TYPE_A).is_none());
    cache.set("github.com", TYPE_A, vec![]);
    cache.clear();
    assert!(cache.get("github.com", TYPE_A).is_none());
    assert_eq!(cache.stats().misses, 3);
}

#[test]
fn names_from_the_wire_end_with_a_dot() {
    let config = Config::default();
    let mut server = DnsServer::new(&config, DnsCache::new(&config), DnsResolver::new(&config));
    let table = table_with("github.com", IpAddr::V4(Ipv4Addr::new(140, 82, 112, 3)));

    let request = Message::from_bytes(&query_bytes(7, "github.com", RecordType::A)).unwrap();
    assert_eq!(request.queries()[0].name().to_string(), "github.com.");

    let bytes = server.handle_request(&table, &query_bytes(7, "github.com", RecordType::A)).unwrap();
    let response = Message::from_bytes(&bytes).unwrap();
    assert_eq!(response.id(), 7);
    assert_eq!(response.response_code(), ResponseCode::NoError);
    assert_eq!(response.answers().len(), 1);
    assert_eq!(response.answers()[0].name().to_string(), "github.com.");
}

#[test]
fn server_answers_a_query_with_the_fastest_address() {
    let mut config = Config::default();
    config.github.domains = vec!["github.com".to_string()];
    let mut server = DnsServer::new(&config, DnsCache::new(&config), DnsResolver::new(&config));
    let table = table_with("github.com", IpAddr::V4(Ipv4Addr::new(140, 82, 112, 3)));

    let bytes = server.handle_request(&table, &query_bytes(7, "github.com", RecordType::A)).unwrap();
    let response = Message::from_bytes(&bytes).unwrap();
    assert_eq!(response.id(), 7);
    assert_eq!(response.message_type(), MessageType::Response);
    assert_eq!(response.response_code(), ResponseCode::NoError);
    assert!(response.recursion_available());
    assert!(response.recursion_desired());
    assert_eq!(response.answers().len(), 1);
    assert_eq!(response.answers()[0].ttl(), 300);
    match response.answers()[0].data() {
        Some(RData::A(a)) => assert_eq!(a.0.octets(), [140, 82, 112, 3]),
        _ => panic!("expected an A record"),
    }

    let again = Message::from_bytes(&server.handle_request(&table, &query_bytes(8, "www.github.com", RecordType::A)).unwrap()).unwrap();
    assert_eq!(again.id(), 8);
    assert_eq!(again.response_code(), ResponseCode::ServFail);

    let cached = Message::from_bytes(&server.handle_request(&table, &query_bytes(9, "github.com", RecordType::A)).unwrap()).unwrap();
    assert_eq!(cached.answers().len(), 1);
}

#[test]
fn server_ignores_other_domains_and_reports_failures() {
    let config = Config::default();
    let mut server = DnsServer::new(&config, DnsCache::new(&config), DnsResolver::new(&config));
    let table = ScanTable::new();

    let other = Message::from_bytes(&server.handle_request(&table, &query_bytes(9, "example.com", RecordType::A)).unwrap()).unwrap();
    assert_eq!(other.response_code(), ResponseCode::NoError);
    assert!(other.answers().is_empty());

    let failed = Message::from_bytes(&server.handle_request(&table, &query_bytes(10, "github.com", RecordType::A)).unwrap()).unwrap();
    assert_eq!(failed.id(), 10);
    assert_eq!(failed.response_code(), ResponseCode::ServFail);

    let garbage = Message::from_bytes(&server.handle_request(&table, &[1, 2, 3]).unwrap()).unwrap();
    assert_eq!(garbage.id(), 0);
    assert_eq!(garbage.response_code(), ResponseCode::FormErr);

    let mut notify = Message::from_bytes(&query_bytes(11, "github.com", RecordType::A)).unwrap();
    notify.set_op_code(OpCode::Notify);
    let not_imp = Message::from_bytes(&server.handle_request(&table, &notify.to_bytes().unwrap()).unwrap()).unwrap();
    assert_eq!(not_imp.id(), 11);
    assert_eq!(not_imp.response_code(), ResponseCode::NotImp);
}

#[test]
fn error_response_keeps_request_id() {
    let bytes = create_error_response(&query_bytes(99, "github.com", RecordType::A), 2).unwrap();
    let m = Message::from_bytes(&bytes).unwrap();
    assert_eq!(m.id(), 99);
    assert_eq!(m.response_code(), ResponseCode::ServFail);
}

#[test]
fn fresh_records_only_before_their_time_to_live() {
    let ip = IpAddr::V4(Ipv4Addr::new(1, 1, 1, 1));
    let recs = vec![DnsRecord { name: "a".to_string(), ttl: 60, ip }];
    assert_eq!(fresh_records(recs.clone(), Duration::from_secs(59), Duration::from_secs(60)).map(|r| r.len()), Some(1));
    assert!(fresh_records(recs.clone(), Duration::from_secs(60), Duration::from_secs(60)).is_none());
    assert!(fresh_records(recs, Duration::from_millis(60_001), Duration::from_secs(60)).is_none());
}

#[test]
fn root_dot_is_stripped_once() {
    assert_eq!(strip_root_dot("github.com."), "github.com");
    assert_eq!(strip_root_dot("github.com"), "github.com");
    assert_eq!(strip_root_dot("."), "");
    assert_eq!(strip_root_dot("a.."), "a.");
    assert_eq!(strip_root_dot(""), "");
}
