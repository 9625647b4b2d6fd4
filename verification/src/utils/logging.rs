//! Log levels.
pub mod level;
