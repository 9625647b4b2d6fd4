use rusher::config::loader::utils::{file_defaults, validate_config};
use rusher::error::RusherError;
use rusher::{AppInfo, Config};

#[test]
fn test_app_info() {
    let app_info = AppInfo::get();

    assert_eq!(app_info.name, "rusher-rs");
    assert_eq!(app_info.version, "0.1.0");
    assert_eq!(app_info.description, "GitHub DNS加速服务 - Rust实现");
    assert_eq!(app_info.authors, "Rusher Team");
}

#[test]
fn test_error_types() {
    let config_error = RusherError::ConfigError("test".to_string());
    assert!(matches!(config_error, RusherError::ConfigError(_)));

    let io_error = RusherError::IoError(std::io::Error::new(std::io::ErrorKind::Other, "test"));
    assert!(matches!(io_error, RusherError::IoError(_)));

    let network_error = RusherError::NetworkError("test".to_string());
    assert!(matches!(network_error, RusherError::NetworkError(_)));
}

#[test]
fn test_config_default() {
    let config = Config::default();

    assert_eq!(config.general.log_level, "info");
    assert_eq!(config.dns.cache_ttl, 300);
    assert_eq!(config.scanner.scan_interval, 300);
    assert!(!config.github.domains.is_empty());
    assert_eq!(config.http.user_agent, "Rusher-Rust/1.0");
    assert_eq!(config.cache.scan_cache_size, 10000);
    assert!(!config.monitoring.enabled);
}

#[test]
fn app_info_version_string() {
    assert_eq!(AppInfo::get().version_string(), "rusher-rs v0.1.0");
}

#[test]
fn default_config_passes_validation() {
    assert!(validate_config(&Config::default()).is_ok());
}

#[test]
fn validation_rejects_unknown_level() {
    let mut config = Config::default();
    config.general.log_level = "loud".to_string();
    match validate_config(&config) {
        Err(RusherError::ConfigError(m)) => assert_eq!(
            m,
            "无效的日志级别: loud，有效值: [\"trace\", \"debug\", \"info\", \"warn\", \"error\"]"
        ),
        _ => panic!("expected a configuration error"),
    }
}

#[test]
fn validation_rejects_zero_interval_and_empty_domains() {
    let mut config = Config::default();
    config.scanner.scan_interval = 0;
    match validate_config(&config) {
        Err(RusherError::ConfigError(m)) => assert_eq!(m, "扫描间隔必须大于0"),
        _ => panic!("expected a configuration error"),
    }
    let mut config = Config::default();
    config.scanner.max_concurrent = 0;
    match validate_config(&config) {
        Err(RusherError::ConfigError(m)) => assert_eq!(m, "最大并发数必须大于0"),
        _ => panic!("expected a configuration error"),
    }
    let mut config = Config::default();
    config.github.domains.clear();
    match validate_config(&config) {
        Err(RusherError::ConfigError(m)) => assert_eq!(m, "GitHub 域名列表不能为空"),
        _ => panic!("expected a configuration error"),
    }
    let mut config = Config::default();
    config.dns.listen_addr.port = 0;
    match validate_config(&config) {
        Err(RusherError::ConfigError(m)) => assert_eq!(m, "DNS 监听端口不能为0"),
        _ => panic!("expected a configuration error"),
    }
}

#[test]
fn default_config_durations() {
    let config = Config::default();
    assert_eq!(config.scan_interval_duration().as_secs(), 300);
    assert_eq!(config.scan_timeout_duration().as_secs(), 10);
    assert_eq!(config.connect_timeout_duration().as_secs(), 5);
    assert_eq!(config.request_timeout_duration().as_secs(), 10);
    assert_eq!(config.incremental_interval_duration().as_secs(), 60);
    assert_eq!(config.cache_expiry_duration().as_secs(), 3600);
    assert_eq!(config.cache.cache_expiry_duration().as_secs(), 3600);
}

#[test]
fn error_helpers_carry_messages() {
    match rusher::error::utils::context_error("读取失败", "boom") {
        RusherError::UnknownError(m) => assert_eq!(m, "读取失败: boom"),
        _ => panic!("expected an unknown error"),
    }
    match rusher::error::utils::to_rusher_error("boom") {
        RusherError::UnknownError(m) => assert_eq!(m, "boom"),
        _ => panic!("expected an unknown error"),
    }
    match rusher::error::utils::dns_error("x") {
        RusherError::DnsError(m) => assert_eq!(m, "x"),
        _ => panic!("expected a DNS error"),
    }
}

#[test]
fn file_defaults_have_empty_token_and_proxy() {
    let c = file_defaults();
    assert_eq!(c.github.api_token.as_deref(), Some(""));
    assert_eq!(c.http.proxy.as_deref(), Some(""));
    assert_eq!(c.http.user_agent, "Rusher-Rust/1.0");
    assert_eq!(c.scanner.max_ips_per_cidr, 10);
}
