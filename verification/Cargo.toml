[package]
name = "rusher"
version = "0.1.0"
edition = "2021"
publish = false

[dependencies]
cidr = "0.2"
url = "2"
hickory-proto = "0.24"
moka = { version = "0.12", features = ["sync"] }
parking_lot = "0.12"
reqwest = { version = "0.11", default-features = false, features = ["json", "rustls-tls"] }
tokio = { version = "1", features = ["full"] }
serde = { version = "1", features = ["derive"] }
clap = { version = "4", features = ["derive"] }
thiserror = "1"
tracing = "0.1"
tracing-subscriber = { version = "0.3", features = ["env-filter"] }
tracing-appender = "0.2"
config = { version = "0.13", default-features = false, features = ["toml"] }
