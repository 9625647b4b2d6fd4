//! The configuration model.
use vstd::prelude::*;
use crate::net::{IpAddr, Ipv4Addr, SocketAddr, ipv4_number};
use crate::time::Duration;

verus! {

/// General settings.
#[derive(Debug, Clone)]
pub struct GeneralConfig {
    /// Log level name.
    pub log_level: String,
    /// Log file path; `None` writes to the console.
    pub log_file: Option<String>,
    /// Whether to run as a daemon.
    pub daemon: bool,
}

/// DNS settings.
#[derive(Debug, Clone)]
pub struct DnsConfig {
    /// Address the DNS server listens on.
    pub listen_addr: SocketAddr,
    /// Time to live of DNS answers, in seconds.
    pub cache_ttl: u32,
    /// Whether AAAA queries are answered.
    pub enable_ipv6: bool,
    /// Upstream DNS servers.
    pub upstream_dns: Vec<SocketAddr>,
    /// Whether DNS over HTTPS is used.
    pub doh_enabled: bool,
    /// DNS over HTTPS endpoint.
    pub doh_endpoint: Option<String>,
}

/// Scanner settings.
#[derive(Debug, Clone)]
pub struct ScannerConfig {
    /// Interval between full scans, in seconds.
    pub scan_interval: u64,
    /// Scan timeout, in seconds.
    pub scan_timeout: u64,
    /// Largest number of concurrent probes.
    pub max_concurrent: usize,
    /// Number of retries.
    pub retry_count: u32,
    /// Connect timeout, in seconds.
    pub connect_timeout: u64,
    /// Request timeout, in seconds.
    pub request_timeout: u64,
    /// Whether incremental scans run.
    pub incremental_scan: bool,
    /// Interval between incremental scans, in seconds.
    pub incremental_interval: u64,
    /// Largest number of addresses taken from one small CIDR range.
    pub max_ips_per_cidr: usize,
}

/// GitHub settings.
#[derive(Debug, Clone)]
pub struct GithubConfig {
    /// GitHub meta API URL.
    pub meta_url: String,
    /// Domains to accelerate.
    pub domains: Vec<String>,
    /// Extra IP ranges, in CIDR notation.
    pub custom_ranges: Vec<String>,
    /// Whether API requests carry a token.
    pub api_auth_enabled: bool,
    /// GitHub API token.
    pub api_token: Option<String>,
}

/// HTTP client settings.
#[derive(Debug, Clone)]
pub struct HttpConfig {
    /// User-Agent header.
    pub user_agent: String,
    /// Idle connections kept per host.
    pub connection_pool_size: usize,
    /// Whether HTTP/2 is used.
    pub http2_enabled: bool,
    /// Whether compression is accepted.
    pub compression_enabled: bool,
    /// Proxy URL.
    pub proxy: Option<String>,
}

/// Cache settings.
#[derive(Debug, Clone)]
pub struct CacheConfig {
    /// Capacity of the scan cache.
    pub scan_cache_size: u64,
    /// Capacity of the DNS cache.
    pub dns_cache_size: u64,
    /// Expiry of cache entries, in seconds.
    pub cache_expiry: u64,
}

impl CacheConfig {
    /// The expiry of cache entries.
    pub fn cache_expiry_duration(&self) -> (d: Duration)
        ensures
            d.whole_secs() == self.cache_expiry,
            d.total_nanos() == self.cache_expiry * 1_000_000_000,
    {
        Duration::from_secs(self.cache_expiry)
    }
}

/// Monitoring settings.
#[derive(Debug, Clone)]
pub struct MonitoringConfig {
    /// Whether monitoring is on.
    pub enabled: bool,
    /// Monitoring port.
    pub port: u16,
    /// Monitoring endpoint path.
    pub path: String,
    /// Whether the health check is on.
    pub health_check: bool,
}

/// The whole configuration.
#[derive(Debug, Clone)]
pub struct Config {
    /// General settings.
    pub general: GeneralConfig,
    /// DNS settings.
    pub dns: DnsConfig,
    /// Scanner settings.
    pub scanner: ScannerConfig,
    /// GitHub settings.
    pub github: GithubConfig,
    /// HTTP settings.
    pub http: HttpConfig,
    /// Cache settings.
    pub cache: CacheConfig,
    /// Monitoring settings.
    pub monitoring: MonitoringConfig,
}

/// The socket address `a.b.c.d:port`.
pub open spec fn v4_socket(a: u8, b: u8, c: u8, d: u8, port: u16) -> SocketAddr {
    SocketAddr { ip: IpAddr::V4(Ipv4Addr { bits: ipv4_number(a, b, c, d) as u32 }), port }
}

/// The domains accelerated by default.
pub open spec fn default_domains() -> Seq<Seq<char>> {
    seq![
        "github.com"@,
        "github.global.ssl.fastly.net"@,
        "raw.githubusercontent.com"@,
        "gist.github.com"@,
        "github.io"@,
        "githubusercontent.com"@,
        "githubassets.com"@,
        "github.dev"@,
    ]
}

/// The views of a vector of strings.
pub open spec fn string_views(v: Seq<String>) -> Seq<Seq<char>> {
    v.map_values(|s: String| s@)
}

/// Appends copies of the strings of `v` to `out`.
pub fn extend_strings(out: &mut Vec<String>, v: &Vec<String>)
    ensures
        string_views(final(out)@) == string_views(old(out)@) + string_views(v@),
{
    let ghost start = string_views(out@);
    let mut i: usize = 0;
    while i < v.len()
        invariant
            i <= v@.len(),
            string_views(out@) == start + string_views(v@.take(i as int)),
        decreases v@.len() - i,
    {
        let ghost before = out@;
        out.push(v[i].clone());
        assert(string_views(out@) =~= string_views(before).push(v@[i as int]@));
        assert(string_views(v@.take(i + 1)) =~= string_views(v@.take(i as int)).push(v@[i as int]@));
        i = i + 1;
    }
    assert(v@.take(v@.len() as int) =~= v@);
}

impl Config {
    /// Whether `self` holds the default settings.
    pub open spec fn is_default(self) -> bool {
        &&& self.general.log_level@ == "info"@
        &&& self.general.log_file matches Some(f) && f@ == "rusher.log"@
        &&& !self.general.daemon
        &&& self.dns.listen_addr == v4_socket(0, 0, 0, 0, 53)
        &&& self.dns.cache_ttl == 300
        &&& !self.dns.enable_ipv6
        &&& self.dns.upstream_dns@ == seq![v4_socket(8, 8, 8, 8, 53), v4_socket(1, 1, 1, 1, 53)]
        &&& !self.dns.doh_enabled
        &&& self.dns.doh_endpoint matches Some(e) && e@ == "https://cloudflare-dns.com/dns-query"@
        &&& self.scanner.scan_interval == 300
        &&& self.scanner.scan_timeout == 10
        &&& self.scanner.max_concurrent == 100
        &&& self.scanner.retry_count == 3
        &&& self.scanner.connect_timeout == 5
        &&& self.scanner.request_timeout == 10
        &&& self.scanner.incremental_scan
        &&& self.scanner.incremental_interval == 60
        &&& self.scanner.max_ips_per_cidr == 10
        &&& self.github.meta_url@ == "https://api.github.com/meta"@
        &&& string_views(self.github.domains@) == default_domains()
        &&& self.github.custom_ranges@.len() == 0
        &&& !self.github.api_auth_enabled
        &&& self.github.api_token is None
        &&& self.http.user_agent@ == "Rusher-Rust/1.0"@
        &&& self.http.connection_pool_size == 100
        &&& self.http.http2_enabled
        &&& self.http.compression_enabled
        &&& self.http.proxy is None
        &&& self.cache.scan_cache_size == 10000
        &&& self.cache.dns_cache_size == 1000
        &&& self.cache.cache_expiry == 3600
        &&& !self.monitoring.enabled
        &&& self.monitoring.port == 9090
        &&& self.monitoring.path@ == "/metrics"@
        &&& self.monitoring.health_check
    }

    /// The interval between full scans.
    pub fn scan_interval_duration(&self) -> (d: Duration)
        ensures
            d.whole_secs() == self.scanner.scan_interval,
            d.total_nanos() == self.scanner.scan_interval * 1_000_000_000,
    {
        Duration::from_secs(self.scanner.scan_interval)
    }

    /// The scan timeout.
    pub fn scan_timeout_duration(&self) -> (d: Duration)
        ensures
            d.whole_secs() == self.scanner.scan_timeout,
            d.total_nanos() == self.scanner.scan_timeout * 1_000_000_000,
    {
        Duration::from_secs(self.scanner.scan_timeout)
    }

    /// The connect timeout.
    pub fn connect_timeout_duration(&self) -> (d: Duration)
        ensures
            d.whole_secs() == self.scanner.connect_timeout,
            d.total_nanos() == self.scanner.connect_timeout * 1_000_000_000,
    {
        Duration::from_secs(self.scanner.connect_timeout)
    }

    /// The request timeout.
    pub fn request_timeout_duration(&self) -> (d: Duration)
        ensures
            d.whole_secs() == self.scanner.request_timeout,
            d.total_nanos() == self.scanner.request_timeout * 1_000_000_000,
    {
        Duration::from_secs(self.scanner.request_timeout)
    }

    /// The interval between incremental scans.
    pub fn incremental_interval_duration(&self) -> (d: Duration)
        ensures
            d.whole_secs() == self.scanner.incremental_interval,
            d.total_nanos() == self.scanner.incremental_interval * 1_000_000_000,
    {
        Duration::from_secs(self.scanner.incremental_interval)
    }

    /// The expiry of cache entries.
    pub fn cache_expiry_duration(&self) -> (d: Duration)
        ensures
            d.whole_secs() == self.cache.cache_expiry,
            d.total_nanos() == self.cache.cache_expiry * 1_000_000_000,
    {
        Duration::from_secs(self.cache.cache_expiry)
    }
}

/// The socket address `a.b.c.d:port`.
fn socket_v4(a: u8, b: u8, c: u8, d: u8, port: u16) -> (s: SocketAddr)
    ensures
        s == v4_socket(a, b, c, d, port),
{
    SocketAddr { ip: IpAddr::V4(Ipv4Addr::new(a, b, c, d)), port }
}

impl Default for Config {
    /// The default settings.
    fn default() -> (c: Self)
        ensures
            c.is_default(),
    {
        let mut upstream_dns: Vec<SocketAddr> = Vec::new();
        upstream_dns.push(socket_v4(8, 8, 8, 8, 53));
        upstream_dns.push(socket_v4(1, 1, 1, 1, 53));
        let mut domains: Vec<String> = Vec::new();
        domains.push(String::from_str("github.com"));
        domains.push(String::from_str("github.global.ssl.fastly.net"));
        domains.push(String::from_str("raw.githubusercontent.com"));
        domains.push(String::from_str("gist.github.com"));
        domains.push(String::from_str("github.io"));
        domains.push(String::from_str("githubusercontent.com"));
        domains.push(String::from_str("githubassets.com"));
        domains.push(String::from_str("github.dev"));
        let c = Config {
            general: GeneralConfig {
                log_level: String::from_str("info"),
                log_file: Some(String::from_str("rusher.log")),
                daemon: false,
            },
            dns: DnsConfig {
                listen_addr: socket_v4(0, 0, 0, 0, 53),
                cache_ttl: 300,
                enable_ipv6: false,
                upstream_dns,
                doh_enabled: false,
                doh_endpoint: Some(String::from_str("https://cloudflare-dns.com/dns-query")),
            },
            scanner: ScannerConfig {
                scan_interval: 300,
                scan_timeout: 10,
                max_concurrent: 100,
                retry_count: 3,
                connect_timeout: 5,
                request_timeout: 10,
                incremental_scan: true,
                incremental_interval: 60,
                max_ips_per_cidr: 10,
            },
            github: GithubConfig {
                meta_url: String::from_str("https://api.github.com/meta"),
                domains,
                custom_ranges: Vec::new(),
                api_auth_enabled: false,
                api_token: None,
            },
            http: HttpConfig {
                user_agent: String::from_str("Rusher-Rust/1.0"),
                connection_pool_size: 100,
                http2_enabled: true,
                compression_enabled: true,
                proxy: None,
            },
            cache: CacheConfig { scan_cache_size: 10000, dns_cache_size: 1000, cache_expiry: 3600 },
            monitoring: MonitoringConfig {
                enabled: false,
                port: 9090,
                path: String::from_str("/metrics"),
                health_check: true,
            },
        };
        assert(string_views(c.github.domains@) =~= default_domains());
        assert(c.dns.upstream_dns@ =~= seq![v4_socket(8, 8, 8, 8, 53), v4_socket(1, 1, 1, 1, 53)]);
        c
    }
}

} // verus!
