//! The IP scanner's logic: which addresses to probe for a domain, how probe
//! results are recorded, and which address is the fastest.
pub mod cache;
pub mod github;
pub mod lookup;
pub mod ranges;
pub mod scanner;
