//! Configuration: its model and its loading rules.
pub mod loader;
pub mod models;

pub use loader::ConfigLoader;
pub use models::{CacheConfig, Config, DnsConfig, GeneralConfig, GithubConfig, HttpConfig, MonitoringConfig, ScannerConfig};
