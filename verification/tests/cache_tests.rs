use rusher::config::models::Config;
use rusher::net::{IpAddr, Ipv4Addr};
use rusher::scanner::cache::{build_ip_cache_key, build_scan_cache_key, calculate_scan_ttl, fresh_results, scan_ttl_at,
    ScanCache};
use rusher::scanner::scanner::ScanResult;
use rusher::time::Duration;

fn result_at(ms: u128) -> ScanResult {
    ScanResult {
        ip: IpAddr::V4(Ipv4Addr::new(140, 82, 112, 3)),
        domain: "github.com".to_string(),
        response_time: 42,
        scanned_at_ms: ms,
        available: true,
    }
}

#[test]
fn cache_keys() {
    assert_eq!(build_scan_cache_key("github.com"), "scan:github.com");
    assert_eq!(build_ip_cache_key("github.com"), "ip:github.com");
}

#[test]
fn scan_ttl_follows_freshness() {
    let now = Duration::from_secs(1_000_000);
    assert_eq!(calculate_scan_ttl(&vec![], now, 3600).as_secs(), 3600);
    assert_eq!(calculate_scan_ttl(&vec![result_at(1_000_000_000 - 30_000)], now, 3600).as_secs(), 300);
    assert_eq!(calculate_scan_ttl(&vec![result_at(1_000_000_000 - 60_000)], now, 3600).as_secs(), 120);
    assert_eq!(calculate_scan_ttl(&vec![result_at(1_000_000_000 - 299_999)], now, 3600).as_secs(), 120);
    assert_eq!(calculate_scan_ttl(&vec![result_at(1_000_000_000 - 300_000)], now, 3600).as_secs(), 30);
    assert_eq!(calculate_scan_ttl(&vec![result_at(1_000_000_000 + 5_000)], now, 3600).as_secs(), 30);
    let mixed = vec![result_at(1_000_000_000 - 400_000), result_at(1_000_000_000 - 10)];
    assert_eq!(calculate_scan_ttl(&mixed, now, 3600).as_secs(), 300);
}

#[test]
fn fresh_results_depend_on_age() {
    let rs = vec![result_at(0)];
    assert!(fresh_results(rs.clone(), Duration::from_secs(1), Duration::from_secs(2)).is_some());
    assert!(fresh_results(rs, Duration::from_secs(2), Duration::from_secs(2)).is_none());
}

#[test]
fn scan_cache_round_trip_and_counts() {
    let config = Config::default();
    let mut cache = ScanCache::new(&config);
    assert!(cache.get_scan_results("github.com").is_none());
    let s = cache.get_stats();
    assert_eq!((s.total_requests, s.hits, s.misses), (1, 0, 1));

    cache.set_scan_results("github.com", vec![result_at(0)]);
    let got = cache.get_scan_results("github.com").expect("cached results");
    assert_eq!(got.len(), 1);
    assert_eq!(got[0].response_time, 42);
    let s = cache.get_stats();
    assert_eq!((s.total_requests, s.hits, s.misses), (2, 1, 1));

    let ips = vec![IpAddr::V4(Ipv4Addr::new(1, 2, 3, 4))];
    cache.set_ips_for_domain("github.com", ips.clone());
    assert_eq!(cache.get_ips_for_domain("github.com"), Some(ips));
    cache.remove_ips_for_domain("github.com");
    assert_eq!(cache.get_ips_for_domain("github.com"), None);
    cache.remove_scan_results("github.com");
    assert!(cache.get_scan_results("github.com").is_none());

    let export = cache.export_data();
    assert!(export.scan_data.is_empty() && export.ip_data.is_empty());
    assert_eq!(export.stats.total_requests, 3);
    assert!(cache.import_data(export).is_ok());

    cache.clear();
    let s = cache.get_stats();
    assert_eq!((s.total_requests, s.hits, s.misses), (0, 0, 0));
}

#[test]
fn scan_ttl_with_a_clock_before_the_epoch() {
    let now = Duration::from_secs(1_000_000);
    assert_eq!(scan_ttl_at(&vec![result_at(1_000_000_000 - 30_000)], Some(now), 3600).as_secs(), 300);
    assert_eq!(scan_ttl_at(&vec![], None, 3600).as_secs(), 3600);
    assert_eq!(scan_ttl_at(&vec![result_at(0)], None, 3600).as_secs(), 30);
}
