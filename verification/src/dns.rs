//! The DNS side: which queries are answered, with which addresses, and the
//! cache of answers.
pub mod cache;
pub mod resolver;
pub mod server;
pub mod wire;
