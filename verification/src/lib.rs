//! Rusher: a GitHub DNS accelerator.
//!
//! The verified core of the service: configuration model and validation,
//! the bounded counter, HTTP request/response values, the scanner's
//! bookkeeping of measured IP addresses, and the DNS answer logic.
use vstd::prelude::*;

pub mod assoc;
pub mod bits;
pub mod config;
pub mod counter;
pub mod dns;
pub mod error;
pub mod http;
pub mod net;
pub mod scanner;
pub mod text;
pub mod time;
pub mod utils;

pub use config::{Config, ConfigLoader};
pub use error::{Result, RusherError};

verus! {

/// Version of the service.
pub const VERSION: &'static str = "0.1.0";

/// Name of the service.
pub const NAME: &'static str = "rusher-rs";

/// One-line description of the service.
pub const DESCRIPTION: &'static str = "GitHub DNS加速服务 - Rust实现";

/// Authors of the service.
pub const AUTHORS: &'static str = "Rusher Team";

/// Name, version, description and authors of the service.
pub struct AppInfo {
    pub name: &'static str,
    pub version: &'static str,
    pub description: &'static str,
    pub authors: &'static str,
}

impl AppInfo {
    /// The service's own information.
    pub fn get() -> (info: Self)
        ensures
            info.name@ == NAME@,
            info.version@ == VERSION@,
            info.description@ == DESCRIPTION@,
            info.authors@ == AUTHORS@,
    {
        AppInfo { name: NAME, version: VERSION, description: DESCRIPTION, authors: AUTHORS }
    }

    /// `name v version`.
    pub fn version_string(&self) -> (s: String)
        ensures
            s@ == self.name@ + " v"@ + self.version@,
    {
        let mut s = String::from_str(self.name);
        s.append(" v");
        s.append(self.version);
        s
    }
}

} // verus!
