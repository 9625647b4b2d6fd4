//! Constructors of errors from messages.
use vstd::prelude::*;
use super::RusherError;

verus! {

/// A configuration error with message `msg`.
pub fn config_error(msg: &str) -> (e: RusherError)
    ensures
        e matches RusherError::ConfigError(m) && m@ == msg@,
{
    RusherError::ConfigError(String::from_str(msg))
}

/// A network error with message `msg`.
pub fn network_error(msg: &str) -> (e: RusherError)
    ensures
        e matches RusherError::NetworkError(m) && m@ == msg@,
{
    RusherError::NetworkError(String::from_str(msg))
}

/// A DNS error with message `msg`.
pub fn dns_error(msg: &str) -> (e: RusherError)
    ensures
        e matches RusherError::DnsError(m) && m@ == msg@,
{
    RusherError::DnsError(String::from_str(msg))
}

/// An unknown error carrying `message`, the text of an error of another kind.
pub fn to_rusher_error(message: &str) -> (e: RusherError)
    ensures
        e matches RusherError::UnknownError(m) && m@ == message@,
{
    RusherError::UnknownError(String::from_str(message))
}

/// An unknown error with message `<context>: <detail>`.
pub fn context_error(context: &str, detail: &str) -> (e: RusherError)
    ensures
        e matches RusherError::UnknownError(m) && m@ == context@ + ": "@ + detail@,
{
    let mut m = String::from_str(context);
    m.append(": ");
    m.append(detail);
    RusherError::UnknownError(m)
}

/// The network error of an address that answered neither over HTTPS nor over
/// HTTP: `连接测试失败: <ip> -> <domain>: <detail>`.
pub fn connection_failure(ip: &str, domain: &str, detail: &str) -> (e: RusherError)
    ensures
        e matches RusherError::NetworkError(m) && m@ == "连接测试失败: "@ + ip@ + " -> "@ + domain@ + ": "@ + detail@,
{
    let mut m = String::from_str("连接测试失败: ");
    m.append(ip);
    m.append(" -> ");
    m.append(domain);
    m.append(": ");
    m.append(detail);
    RusherError::NetworkError(m)
}

} // verus!
