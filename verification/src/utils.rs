//! Helpers: durations and text, network address classes, log levels, shutdown.
pub mod logging;
pub mod network;
pub mod signal;
pub mod utils;
