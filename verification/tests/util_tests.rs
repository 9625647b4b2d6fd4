use rusher::config::loader::utils::{default_config_paths, first_existing_path};
use rusher::config::ConfigLoader;
use rusher::error::RusherError;
use rusher::net::{IpAddr, Ipv4Addr, Ipv6Addr};
use rusher::time::Duration;
use rusher::utils::logging::level::{all_levels, from_str, LogLevel};
use rusher::utils::network::{is_loopback_ip, is_multicast_ip, is_private_ip, is_private_ipv4, is_private_ipv6};
use rusher::utils::signal::utils::should_shutdown;
use rusher::utils::utils::{
    byte_unit, byte_unit_position, format_bytes, format_duration, is_blank, measure_time,
};

#[test]
fn durations_are_written_in_units() {
    assert_eq!(format_duration(Duration::from_secs(45)), "45秒");
    assert_eq!(format_duration(Duration::from_secs(125)), "2分5秒");
    assert_eq!(format_duration(Duration::from_secs(3725)), "1时2分5秒");
    assert_eq!(format_duration(Duration::from_millis(59_999)), "59秒");
}

#[test]
fn duration_parts() {
    let d = Duration::new(3, 1_500_000_000);
    assert_eq!(d.as_secs(), 4);
    assert_eq!(d.subsec_nanos(), 500_000_000);
    assert_eq!(d.as_millis(), 4500);
    assert_eq!(d.as_nanos(), 4_500_000_000);
    assert!(Duration::from_millis(999).lt(&Duration::from_secs(1)));
    assert!(!Duration::from_secs(1).lt(&Duration::from_millis(1000)));
}

#[test]
fn blank_texts() {
    assert!(is_blank(""));
    assert!(is_blank(" \t\n\u{3000}"));
    assert!(!is_blank(" a "));
    assert!(is_blank("\u{85}\u{a0}\u{1680}\u{2000}\u{200a}\u{2028}\u{2029}\u{202f}\u{205f}\r\x0b\x0c"));
    assert!(!is_blank("\u{200b}"));
    assert!(!is_blank("\u{180e}"));
}

#[test]
fn byte_units() {
    assert_eq!(byte_unit(0), "B");
    assert_eq!(byte_unit(1023), "B");
    assert_eq!(byte_unit(1024), "KB");
    assert_eq!(byte_unit(1_048_575), "KB");
    assert_eq!(byte_unit(1_048_576), "MB");
    assert_eq!(byte_unit(1 << 40), "TB");
    assert_eq!(byte_unit(u64::MAX), "PB");
    assert_eq!(byte_unit_position(3 << 30), 3);
}

#[test]
fn address_classes() {
    let v4 = |a, b, c, d| IpAddr::V4(Ipv4Addr::new(a, b, c, d));
    assert!(is_private_ip(&v4(10, 1, 2, 3)));
    assert!(is_private_ipv4(&Ipv4Addr::new(172, 16, 0, 1)));
    assert!(!is_private_ipv4(&Ipv4Addr::new(172, 32, 0, 1)));
    assert!(is_private_ipv4(&Ipv4Addr::new(192, 168, 1, 1)));
    assert!(is_private_ipv4(&Ipv4Addr::new(169, 254, 1, 1)));
    assert!(!is_private_ip(&v4(140, 82, 112, 3)));
    assert!(is_private_ipv6(&Ipv6Addr { bits: 0xfd00_0000_0000_0000_0000_0000_0000_0001 }));
    assert!(is_private_ipv6(&Ipv6Addr { bits: 0xfe80_0000_0000_0000_0000_0000_0000_0001 }));
    assert!(!is_private_ipv6(&Ipv6Addr { bits: 0x2001_0db8_0000_0000_0000_0000_0000_0001 }));
    assert!(is_loopback_ip(&v4(127, 0, 0, 1)));
    assert!(is_loopback_ip(&IpAddr::V6(Ipv6Addr { bits: 1 })));
    assert!(!is_loopback_ip(&v4(128, 0, 0, 1)));
    assert!(is_multicast_ip(&v4(224, 0, 0, 1)));
    assert!(!is_multicast_ip(&v4(240, 0, 0, 1)));
    assert!(is_multicast_ip(&IpAddr::V6(Ipv6Addr { bits: 0xff02_0000_0000_0000_0000_0000_0000_0001 })));
    assert_eq!(Ipv4Addr::new(1, 2, 3, 4).octets(), [1, 2, 3, 4]);
}

#[test]
fn log_levels() {
    assert_eq!(from_str("INFO"), Some(LogLevel::Info));
    assert_eq!(from_str("TRACE"), Some(LogLevel::Trace));
    assert_eq!(from_str("eRrOr"), Some(LogLevel::Error));
    assert_eq!(from_str("INFO "), None);
    assert_eq!(from_str("Warn"), Some(LogLevel::Warn));
    assert_eq!(from_str("trace"), Some(LogLevel::Trace));
    assert_eq!(from_str("verbose"), None);
    assert_eq!(all_levels(), vec!["trace", "debug", "info", "warn", "error"]);
    for name in all_levels() {
        assert!(from_str(name).is_some());
    }
}

#[test]
fn shutdown_is_not_requested() {
    assert!(!should_shutdown());
}

#[test]
fn measuring_returns_the_result() {
    let (r, _d) = measure_time(|| 6 * 7);
    assert_eq!(r, 42);
}

#[test]
fn config_loader_paths_and_prefix() {
    let loader = ConfigLoader::new();
    assert_eq!(loader.config_path(), None);
    assert_eq!(loader.env_prefix(), "RUSHER");
    let loader = loader.with_config_path("my.toml").with_env_prefix("GITHUB_DNS");
    assert_eq!(loader.config_path(), Some("my.toml"));
    assert_eq!(loader.env_prefix(), "GITHUB_DNS");
    assert_eq!(loader.config_file(true, &vec![false, false, false]).unwrap(), Some("my.toml".to_string()));
    match loader.config_file(false, &vec![false, false, false]) {
        Err(RusherError::ConfigError(m)) => assert_eq!(m, "配置文件不存在: my.toml"),
        _ => panic!("expected a configuration error"),
    }
    let defaults = ConfigLoader::new();
    assert_eq!(defaults.config_file(false, &vec![false, true, true]).unwrap(), Some("./config/development.toml".to_string()));
    assert_eq!(defaults.config_file(false, &vec![false, false, false]).unwrap(), None);
    let paths = default_config_paths();
    assert_eq!(paths, vec!["./config/default.toml", "./config/development.toml", "/etc/rusher/config.toml"]);
    assert_eq!(first_existing_path(&paths, &vec![false, false, true]), Some("/etc/rusher/config.toml".to_string()));
}

#[test]
fn format_bytes_values() {
    assert_eq!(format_bytes(0), "0.00 B");
    assert_eq!(format_bytes(512), "512.00 B");
    assert_eq!(format_bytes(1023), "1023.00 B");
    assert_eq!(format_bytes(1024), "1.00 KB");
    assert_eq!(format_bytes(1536), "1.50 KB");
    assert_eq!(format_bytes(1_048_576), "1.00 MB");
    assert_eq!(format_bytes(5 << 30), "5.00 GB");
    assert_eq!(format_bytes(1 << 40), "1.00 TB");
    assert_eq!(format_bytes(1 << 50), "1.00 PB");
    assert_eq!(format_bytes(u64::MAX), "16384.00 PB");
}

#[test]
fn format_bytes_rounds_ties_to_even() {
    // 1152 / 1024 = 1.125 exactly, 1160 / 1024 = 1.1328125, 1034 / 1024 = 1.009765625
    assert_eq!(format_bytes(1152), "1.12 KB");
    assert_eq!(format_bytes(1160), "1.13 KB");
    assert_eq!(format_bytes(1034), "1.01 KB");
    // 3.375 KB rounds up to the even hundredth
    assert_eq!(format_bytes(3456), "3.38 KB");
}

fn float_text(bytes: u64) -> String {
    const UNITS: [&str; 6] = ["B", "KB", "MB", "GB", "TB", "PB"];
    let mut size = bytes as f64;
    let mut unit_index = 0;
    while size >= 1024.0 && unit_index < UNITS.len() - 1 {
        size /= 1024.0;
        unit_index += 1;
    }
    format!("{:.2} {}", size, UNITS[unit_index])
}

#[test]
fn format_bytes_matches_float_division() {
    let mut samples: Vec<u64> = Vec::new();
    for b in 0..5000u64 {
        samples.push(b);
    }
    for shift in 0..64u32 {
        let p = 1u64 << shift;
        for delta in 0..40u64 {
            samples.push(p.wrapping_add(delta));
            samples.push(p.wrapping_sub(delta));
            samples.push(p.wrapping_add(p / 8).wrapping_add(delta));
            samples.push(p.wrapping_add(p / 200).wrapping_sub(delta));
        }
    }
    let mut x: u64 = 0x9E37_79B9_7F4A_7C15;
    for _ in 0..20000 {
        x ^= x << 13;
        x ^= x >> 7;
        x ^= x << 17;
        samples.push(x);
        samples.push(x >> (x % 64));
    }
    for k in 1..6u32 {
        let unit = 1u64 << (10 * k);
        for n in 1..1024u64 {
            for q in [0u64, 1, 3, 5, 7] {
                // n + q/8 hundredths-ties and near-ties in each unit
                samples.push(n * unit + q * (unit / 800));
                samples.push(n * unit + unit / 200);
            }
        }
    }
    for b in samples {
        assert_eq!(format_bytes(b), float_text(b), "bytes = {}", b);
    }
}
