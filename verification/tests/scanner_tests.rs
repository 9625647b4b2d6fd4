use rusher::net::{IpAddr, Ipv4Addr, Ipv6Addr};
use rusher::scanner::github::GithubMetaResponse;
use rusher::scanner::ranges::{
    dedup_ips, extract_ips_from_cidr, extract_ips_from_ranges, get_fallback_ips, plan_domain_ips, ranges_for_domain,
    CidrRange,
};
use rusher::scanner::scanner::{batch_summary, keeps_current, ProbeRun, ScanResult, ScanTable, SCAN_THRESHOLD_MS};

fn v4(a: u8, b: u8, c: u8, d: u8) -> IpAddr {
    IpAddr::V4(Ipv4Addr::new(a, b, c, d))
}

fn result(ip: IpAddr, domain: &str, response_time: u64, available: bool) -> ScanResult {
    ScanResult { ip, domain: domain.to_string(), response_time, scanned_at_ms: 0, available }
}

fn meta() -> GithubMetaResponse {
    GithubMetaResponse {
        hooks: vec!["192.30.252.0/22".to_string()],
        web: vec!["140.82.112.0/20".to_string(), "192.30.255.112/30".to_string()],
        api: vec!["20.201.28.148/32".to_string()],
        git: vec![],
        packages: vec![],
        pages: vec!["185.199.108.0/22".to_string()],
        importer: vec![],
        actions: vec![],
        dependabot: vec![],
    }
}

#[test]
fn large_v4_network_gives_two_addresses() {
    let ips = extract_ips_from_cidr(&CidrRange::V4 { first: Ipv4Addr::new(140, 82, 112, 0).bits, len: 20 }, 10);
    assert_eq!(ips, vec![v4(140, 82, 112, 1), v4(140, 82, 112, 2)]);
}

#[test]
fn small_v4_network_is_capped_by_max() {
    let ips = extract_ips_from_cidr(&CidrRange::V4 { first: Ipv4Addr::new(10, 0, 0, 0).bits, len: 24 }, 3);
    assert_eq!(ips, vec![v4(10, 0, 0, 1), v4(10, 0, 0, 2), v4(10, 0, 0, 3)]);
}

#[test]
fn tiny_v4_network_skips_network_and_broadcast() {
    let ips = extract_ips_from_cidr(&CidrRange::V4 { first: Ipv4Addr::new(192, 0, 2, 0).bits, len: 30 }, 10);
    assert_eq!(ips, vec![v4(192, 0, 2, 1), v4(192, 0, 2, 2)]);
    let ips = extract_ips_from_cidr(&CidrRange::V4 { first: Ipv4Addr::new(10, 0, 0, 0).bits, len: 29 }, 10);
    assert_eq!(ips.len(), 6);
    assert_eq!(ips[5], v4(10, 0, 0, 6));
    assert!(extract_ips_from_cidr(&CidrRange::V4 { first: Ipv4Addr::new(10, 0, 0, 0).bits, len: 31 }, 10).is_empty());
    assert!(extract_ips_from_cidr(&CidrRange::V4 { first: Ipv4Addr::new(10, 0, 0, 0).bits, len: 32 }, 10).is_empty());
}

#[test]
fn v4_addresses_stop_before_the_top() {
    let ips = extract_ips_from_cidr(&CidrRange::V4 { first: u32::MAX - 3, len: 30 }, 10);
    assert_eq!(ips, vec![IpAddr::V4(Ipv4Addr { bits: u32::MAX - 2 }), IpAddr::V4(Ipv4Addr { bits: u32::MAX - 1 })]);
}

#[test]
fn v6_network_gives_two_addresses() {
    let first: u128 = 0x2a0a_a440_0000_0000_0000_0000_0000_0000;
    let ips = extract_ips_from_cidr(&CidrRange::V6 { first, len: 29 }, 10);
    assert_eq!(ips, vec![IpAddr::V6(Ipv6Addr { bits: first + 1 }), IpAddr::V6(Ipv6Addr { bits: first + 2 })]);
    assert_eq!(extract_ips_from_cidr(&CidrRange::V6 { first, len: 127 }, 10), vec![IpAddr::V6(Ipv6Addr { bits: first + 1 })]);
    assert!(extract_ips_from_cidr(&CidrRange::V6 { first, len: 128 }, 10).is_empty());
}

#[test]
fn ranges_are_parsed_gathered_and_deduplicated() {
    let ranges = vec![
        "140.82.112.0/20".to_string(),
        "not a range".to_string(),
        "140.82.112.0/20".to_string(),
        "192.30.255.112/30".to_string(),
        "2a0a:a440::/29".to_string(),
    ];
    let ips = extract_ips_from_ranges(&ranges, 10);
    assert_eq!(
        ips,
        vec![
            v4(140, 82, 112, 1),
            v4(140, 82, 112, 2),
            v4(192, 30, 255, 113),
            v4(192, 30, 255, 114),
            IpAddr::V6(Ipv6Addr { bits: 0x2a0a_a440_0000_0000_0000_0000_0000_0001 }),
            IpAddr::V6(Ipv6Addr { bits: 0x2a0a_a440_0000_0000_0000_0000_0000_0002 }),
        ]
    );
}

#[test]
fn a_plain_address_has_no_host_between_network_and_broadcast() {
    let ips = extract_ips_from_ranges(&vec!["1.2.3.4".to_string()], 10);
    assert!(ips.is_empty());
}

#[test]
fn a_range_with_host_bits_is_refused() {
    let ips = extract_ips_from_ranges(&vec!["1.2.3.4/24".to_string()], 10);
    assert!(ips.is_empty());
}

#[test]
fn gathering_stops_once_enough_addresses() {
    let ranges = vec!["10.0.0.0/24".to_string(), "10.0.1.0/24".to_string(), "10.0.2.0/24".to_string()];
    let ips = extract_ips_from_ranges(&ranges, 1);
    assert_eq!(ips, vec![v4(10, 0, 0, 1), v4(10, 0, 1, 1), v4(10, 0, 2, 1)]);
    let wide: Vec<String> = (0..7).map(|i| format!("10.{}.0.0/16", i)).collect();
    let ips = extract_ips_from_ranges(&wide, 1);
    assert_eq!(ips.len(), 10);
    assert_eq!(ips[9], v4(10, 4, 0, 2));
}

#[test]
fn at_most_one_hundred_addresses() {
    let ranges: Vec<String> = (0..60).map(|i| format!("10.{}.0.0/16", i)).collect();
    let ips = extract_ips_from_ranges(&ranges, 100);
    assert_eq!(ips.len(), 100);
    assert_eq!(ips[0], v4(10, 0, 0, 1));
    assert_eq!(ips[99], v4(10, 49, 0, 2));
}

#[test]
fn dedup_keeps_first_occurrences() {
    let ips = vec![v4(1, 1, 1, 1), v4(2, 2, 2, 2), v4(1, 1, 1, 1), v4(3, 3, 3, 3), v4(2, 2, 2, 2)];
    assert_eq!(dedup_ips(&ips), vec![v4(1, 1, 1, 1), v4(2, 2, 2, 2), v4(3, 3, 3, 3)]);
}

#[test]
fn fallback_addresses_by_domain() {
    assert_eq!(
        get_fallback_ips("github.com"),
        vec![v4(140, 82, 112, 3), v4(140, 82, 113, 3), v4(140, 82, 114, 3), v4(140, 82, 115, 3)]
    );
    assert_eq!(get_fallback_ips("gist.github.com"), vec![v4(140, 82, 112, 4), v4(140, 82, 113, 4)]);
    assert_eq!(get_fallback_ips("github.io")[0], v4(185, 199, 108, 153));
    assert_eq!(get_fallback_ips("raw.githubusercontent.com")[3], v4(185, 199, 111, 133));
    assert_eq!(get_fallback_ips("github.global.ssl.fastly.net")[1], v4(151, 101, 65, 194));
    assert_eq!(get_fallback_ips("example.org"), vec![v4(192, 30, 255, 113), v4(192, 30, 255, 112)]);
}

#[test]
fn ranges_follow_the_domain() {
    let m = meta();
    assert_eq!(ranges_for_domain(&m, "github.com"), vec!["140.82.112.0/20", "192.30.255.112/30", "20.201.28.148/32"]);
    assert_eq!(ranges_for_domain(&m, "gist.github.com").len(), 3);
    assert_eq!(ranges_for_domain(&m, "github.io"), vec!["185.199.108.0/22"]);
    assert_eq!(ranges_for_domain(&m, "raw.githubusercontent.com"), vec!["140.82.112.0/20", "192.30.255.112/30"]);
}

#[test]
fn planning_merges_resolved_addresses_or_falls_back() {
    let (ips, fallback) = plan_domain_ips("github.com", vec![v4(1, 1, 1, 1)], &vec![v4(2, 2, 2, 2), v4(1, 1, 1, 1)]);
    assert_eq!(ips, vec![v4(1, 1, 1, 1), v4(2, 2, 2, 2)]);
    assert!(!fallback);
    let (ips, fallback) = plan_domain_ips("github.io", vec![], &vec![]);
    assert_eq!(ips, get_fallback_ips("github.io"));
    assert!(fallback);
    let (ips, fallback) = plan_domain_ips("github.io", vec![], &vec![v4(9, 9, 9, 9)]);
    assert_eq!(ips, vec![v4(9, 9, 9, 9)]);
    assert!(!fallback);
}

#[test]
fn probe_run_stops_at_first_fast_address() {
    let mut run = ProbeRun::new(SCAN_THRESHOLD_MS);
    assert!(run.record(result(v4(1, 1, 1, 1), "github.com", u64::MAX, false)));
    assert!(run.record(result(v4(2, 2, 2, 2), "github.com", 250, true)));
    assert!(!run.record(result(v4(3, 3, 3, 3), "github.com", 99, true)));
    assert!(run.finished());
    let rs = run.into_results();
    assert_eq!(rs.len(), 3);
    assert_eq!(rs[2].response_time, 99);
}

#[test]
fn probe_run_keeps_going_at_the_threshold() {
    let mut run = ProbeRun::new(100);
    assert!(run.record(result(v4(1, 1, 1, 1), "github.com", 100, true)));
    assert!(!run.finished());
}

#[test]
fn batch_summary_counts_and_finds_fastest() {
    let rs = vec![
        result(v4(1, 1, 1, 1), "d", 300, true),
        result(v4(2, 2, 2, 2), "d", 5, false),
        result(v4(3, 3, 3, 3), "d", 120, true),
        result(v4(4, 4, 4, 4), "d", 120, true),
    ];
    assert_eq!(batch_summary(&rs), (3, Some(2)));
    assert_eq!(batch_summary(&vec![]), (0, None));
}

#[test]
fn keeping_the_current_address() {
    assert!(keeps_current(Some((v4(1, 1, 1, 1), 50, true)), 100));
    assert!(!keeps_current(Some((v4(1, 1, 1, 1), 100, true)), 100));
    assert!(!keeps_current(Some((v4(1, 1, 1, 1), 50, false)), 100));
    assert!(!keeps_current(None, 100));
}

#[test]
fn table_records_results_and_picks_fastest() {
    let mut table = ScanTable::new();
    table.update_results(
        "github.com",
        vec![
            result(v4(1, 1, 1, 1), "github.com", 300, true),
            result(v4(2, 2, 2, 2), "github.com", u64::MAX, false),
            result(v4(3, 3, 3, 3), "github.com", 80, true),
        ],
    );
    assert_eq!(table.fastest_ip("github.com"), None);
    table.update_fastest_ip("github.com");
    assert_eq!(table.fastest_ip("github.com"), Some(v4(3, 3, 3, 3)));
    assert_eq!(table.get_fastest_ipv4("github.com"), Some(Ipv4Addr::new(3, 3, 3, 3)));
    assert_eq!(table.get_fastest_ipv6("github.com"), None);
    assert_eq!(table.current_best("github.com"), Some((v4(3, 3, 3, 3), 80, true)));
    assert!(table.should_skip("github.com", SCAN_THRESHOLD_MS));

    table.update_results("github.com", vec![result(v4(3, 3, 3, 3), "github.com", 400, true)]);
    assert!(!table.should_skip("github.com", SCAN_THRESHOLD_MS));
    table.update_fastest_ip("github.com");
    assert_eq!(table.fastest_ip("github.com"), Some(v4(1, 1, 1, 1)));

    let stats = table.get_stats();
    assert_eq!(stats.total_domains, 1);
    assert_eq!(stats.total_ips, 3);
    assert_eq!(stats.available_ips, 2);
    assert_eq!(stats.fastest_ips_count, 1);

    let sorted = table.available_by_time("github.com");
    let times: Vec<u64> = sorted.iter().map(|r| r.response_time).collect();
    assert_eq!(times, vec![300, 400]);
    assert_eq!(table.results_for("github.com").len(), 3);
    assert_eq!(table.results_for("gist.github.com").len(), 0);
    let entries = table.fastest_entries();
    assert_eq!(entries, vec![("github.com".to_string(), v4(1, 1, 1, 1))]);
}

#[test]
fn no_available_result_leaves_choice_alone() {
    let mut table = ScanTable::new();
    table.update_results("github.io", vec![result(v4(5, 5, 5, 5), "github.io", u64::MAX, false)]);
    table.update_fastest_ip("github.io");
    assert_eq!(table.fastest_ip("github.io"), None);
    assert_eq!(table.current_best("github.io"), None);
    table.update_fastest_ip("nowhere.example");
    assert_eq!(table.get_stats().fastest_ips_count, 0);
}

#[test]
fn probe_results_from_outcomes() {
    let ok = ScanResult::from_probe(v4(1, 2, 3, 4), "github.com", Some(rusher::time::Duration::from_millis(1234)), 77);
    assert!(ok.available);
    assert_eq!(ok.response_time, 1234);
    assert_eq!(ok.scanned_at_ms, 77);
    assert_eq!(ok.domain, "github.com");
    let failed = ScanResult::from_probe(v4(1, 2, 3, 4), "github.com", None, 78);
    assert!(!failed.available);
    assert_eq!(failed.response_time, u64::MAX);
}

#[test]
fn connection_failures_are_named() {
    match rusher::error::utils::connection_failure("1.2.3.4", "github.com", "boom") {
        rusher::error::RusherError::NetworkError(m) => assert_eq!(m, "连接测试失败: 1.2.3.4 -> github.com: boom"),
        _ => panic!("expected a network error"),
    }
}
