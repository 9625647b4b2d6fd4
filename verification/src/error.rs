//! The crate's error type.
use vstd::prelude::*;

pub mod utils;

verus! {

/// `std::io::Error`, carried unchanged inside `RusherError::IoError`.
#[verifier::external_type_specification]
#[verifier::external_body]
pub struct ExIoError(std::io::Error);

/// `url::ParseError`, carried unchanged inside `RusherError::UrlParseError`.
#[verifier::external_type_specification]
#[verifier::external_body]
pub struct ExUrlParseError(url::ParseError);

/// Errors of the service, each with its message.
#[derive(Debug)]
pub enum RusherError {
    /// Configuration error.
    ConfigError(String),
    /// I/O error.
    IoError(std::io::Error),
    /// Network error.
    NetworkError(String),
    /// DNS error.
    DnsError(String),
    /// HTTP error.
    HttpError(String),
    /// Parse error.
    ParseError(String),
    /// URL parse error.
    UrlParseError(url::ParseError),
    /// Scan error.
    ScanError(String),
    /// Cache error.
    CacheError(String),
    /// System error.
    SystemError(String),
    /// Unknown error.
    UnknownError(String),
}

/// Results of the service.
pub type Result<T> = std::result::Result<T, RusherError>;

/// Adding context to a failed result whose error is given by its text.
pub trait ErrorExt<T>: Sized {
    /// The result with its error turned into an unknown error whose message
    /// is the context, `: `, and the error's text; a success is kept.
    fn with_context<F: FnOnce() -> String>(self, context: F) -> (r: Result<T>)
        requires
            context.requires(()),
    ;
}

impl<T> ErrorExt<T> for std::result::Result<T, String> {
    fn with_context<F: FnOnce() -> String>(self, context: F) -> (r: Result<T>)
        ensures
            match self {
                Ok(v) => r matches Ok(w) && w == v,
                Err(e) => r matches Err(RusherError::UnknownError(m))
                    && exists|c: String| context.ensures((), c) && m@ == c@ + ": "@ + e@,
            },
    {
        match self {
            Ok(v) => Ok(v),
            Err(e) => {
                let c = context();
                let mut m = c.clone();
                m.append(": ");
                m.append(e.as_str());
                Err(RusherError::UnknownError(m))
            },
        }
    }
}

} // verus!
