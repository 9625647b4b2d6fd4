//! Errors of the HTTP layer.
use vstd::prelude::*;
use crate::error::RusherError;

verus! {

/// Errors of the HTTP layer, each with its message.
#[derive(Debug)]
pub enum HttpError {
    /// Network error.
    NetworkError(String),
    /// HTTP error.
    HttpError(String),
    /// Timeout.
    TimeoutError(String),
    /// Parse error.
    ParseError(String),
    /// I/O error.
    IoError(std::io::Error),
    /// URL error.
    UrlError(url::ParseError),
    /// Other error.
    Other(String),
}

/// What a `RusherError` with a message becomes in the HTTP layer: the
/// variant and the message, for each of the message-carrying variants.
pub open spec fn converted_message(e: RusherError) -> (HttpErrorKind, Seq<char>) {
    match e {
        RusherError::ConfigError(m) => (HttpErrorKind::Other, "配置错误: "@ + m@),
        RusherError::NetworkError(m) => (HttpErrorKind::Network, m@),
        RusherError::DnsError(m) => (HttpErrorKind::Network, "DNS错误: "@ + m@),
        RusherError::HttpError(m) => (HttpErrorKind::Http, m@),
        RusherError::ParseError(m) => (HttpErrorKind::Parse, m@),
        RusherError::ScanError(m) => (HttpErrorKind::Other, "扫描错误: "@ + m@),
        RusherError::CacheError(m) => (HttpErrorKind::Other, "缓存错误: "@ + m@),
        RusherError::SystemError(m) => (HttpErrorKind::Other, "系统错误: "@ + m@),
        RusherError::UnknownError(m) => (HttpErrorKind::Other, m@),
        _ => (HttpErrorKind::Other, Seq::empty()),
    }
}

/// The variants of `HttpError` that carry a message.
#[derive(PartialEq, Eq, Structural, Clone, Copy, Debug)]
pub enum HttpErrorKind {
    Network,
    Http,
    Timeout,
    Parse,
    Other,
}

impl HttpError {
    /// The variant and message, for the message-carrying variants.
    pub open spec fn message_view(self) -> Option<(HttpErrorKind, Seq<char>)> {
        match self {
            HttpError::NetworkError(m) => Some((HttpErrorKind::Network, m@)),
            HttpError::HttpError(m) => Some((HttpErrorKind::Http, m@)),
            HttpError::TimeoutError(m) => Some((HttpErrorKind::Timeout, m@)),
            HttpError::ParseError(m) => Some((HttpErrorKind::Parse, m@)),
            HttpError::Other(m) => Some((HttpErrorKind::Other, m@)),
            _ => None,
        }
    }

    /// A network error with message `msg`.
    pub fn network(msg: &str) -> (e: Self)
        ensures
            e.message_view() == Some((HttpErrorKind::Network, msg@)),
    {
        HttpError::NetworkError(String::from_str(msg))
    }

    /// An HTTP error with message `msg`.
    pub fn http(msg: &str) -> (e: Self)
        ensures
            e.message_view() == Some((HttpErrorKind::Http, msg@)),
    {
        HttpError::HttpError(String::from_str(msg))
    }

    /// A timeout with message `msg`.
    pub fn timeout(msg: &str) -> (e: Self)
        ensures
            e.message_view() == Some((HttpErrorKind::Timeout, msg@)),
    {
        HttpError::TimeoutError(String::from_str(msg))
    }

    /// A parse error with message `msg`.
    pub fn parse(msg: &str) -> (e: Self)
        ensures
            e.message_view() == Some((HttpErrorKind::Parse, msg@)),
    {
        HttpError::ParseError(String::from_str(msg))
    }

    /// Another error with message `msg`.
    pub fn other(msg: &str) -> (e: Self)
        ensures
            e.message_view() == Some((HttpErrorKind::Other, msg@)),
    {
        HttpError::Other(String::from_str(msg))
    }

    /// The HTTP-layer form of a service error: I/O and URL errors are kept,
    /// network and DNS problems become network errors, HTTP and parse errors
    /// keep their kind, and the rest become other errors with their origin in
    /// front of the message.
    pub fn from_rusher_error(error: RusherError) -> (e: Self)
        ensures
            match error {
                RusherError::IoError(io) => e == HttpError::IoError(io),
                RusherError::UrlParseError(u) => e == HttpError::UrlError(u),
                _ => e.message_view() == Some(converted_message(error)),
            },
    {
        match error {
            RusherError::ConfigError(msg) => HttpError::Other(prefixed("配置错误: ", msg)),
            RusherError::IoError(e) => HttpError::IoError(e),
            RusherError::NetworkError(msg) => HttpError::NetworkError(msg),
            RusherError::DnsError(msg) => HttpError::NetworkError(prefixed("DNS错误: ", msg)),
            RusherError::HttpError(msg) => HttpError::HttpError(msg),
            RusherError::ParseError(msg) => HttpError::ParseError(msg),
            RusherError::UrlParseError(e) => HttpError::UrlError(e),
            RusherError::ScanError(msg) => HttpError::Other(prefixed("扫描错误: ", msg)),
            RusherError::CacheError(msg) => HttpError::Other(prefixed("缓存错误: ", msg)),
            RusherError::SystemError(msg) => HttpError::Other(prefixed("系统错误: ", msg)),
            RusherError::UnknownError(msg) => HttpError::Other(msg),
        }
    }

    /// The error for a failed transfer, by what the transport reported: a
    /// timeout, else a connection failure, else an HTTP status error, else
    /// another error; `message` is the transport's own description.
    pub fn from_transport_failure(is_timeout: bool, is_connect: bool, is_status: bool, message: String) -> (e: Self)
        ensures
            e.message_view() == Some((
                if is_timeout {
                    HttpErrorKind::Timeout
                } else if is_connect {
                    HttpErrorKind::Network
                } else if is_status {
                    HttpErrorKind::Http
                } else {
                    HttpErrorKind::Other
                },
                message@,
            )),
    {
        if is_timeout {
            HttpError::TimeoutError(message)
        } else if is_connect {
            HttpError::NetworkError(message)
        } else if is_status {
            HttpError::HttpError(message)
        } else {
            HttpError::Other(message)
        }
    }
}

impl HttpError {
    /// The error of a request that could not be sent: a timeout with the
    /// transport's text after `请求超时: `, else a connection failure after
    /// `连接失败: `, else the error `from_transport_failure` gives.
    pub fn from_send_failure(is_timeout: bool, is_connect: bool, is_status: bool, message: String) -> (e: Self)
        ensures
            e.message_view() == Some(
                if is_timeout {
                    (HttpErrorKind::Timeout, "请求超时: "@ + message@)
                } else if is_connect {
                    (HttpErrorKind::Network, "连接失败: "@ + message@)
                } else if is_status {
                    (HttpErrorKind::Http, message@)
                } else {
                    (HttpErrorKind::Other, message@)
                },
            ),
    {
        if is_timeout {
            HttpError::TimeoutError(prefixed("请求超时: ", message))
        } else if is_connect {
            HttpError::NetworkError(prefixed("连接失败: ", message))
        } else {
            HttpError::from_transport_failure(false, false, is_status, message)
        }
    }
}

/// `prefix` followed by `msg`.
fn prefixed(prefix: &str, msg: String) -> (s: String)
    ensures
        s@ == prefix@ + msg@,
{
    let mut s = String::from_str(prefix);
    s.append(msg.as_str());
    s
}

} // verus!
