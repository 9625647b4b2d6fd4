//! Shutdown signalling.
pub mod utils;
