//! HTTP requests, responses and the decisions of the connection tests.
use vstd::prelude::*;

pub mod client;
pub mod error;
pub mod request;
pub mod response;


pub use error::HttpError;



verus! {

/// Results of the HTTP layer.
pub type Result<T> = std::result::Result<T, HttpError>;

} // verus!
