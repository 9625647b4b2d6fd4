//! The decisions of the HTTP client: its settings, the URLs it probes and
//! how a probe's response is judged.
use vstd::prelude::*;
use crate::config::models::Config;
use crate::text::{decimal, push_decimal};
use crate::time::Duration;
use super::error::{HttpError, HttpErrorKind};
use super::request::HttpRequest;
use super::response::HttpResponse;

verus! {

/// The settings of an HTTP client.
#[derive(Debug, Clone)]
pub struct HttpClientStatus {
    /// User-Agent.
    pub user_agent: String,
    /// Idle connections kept per host.
    pub connection_pool_size: usize,
    /// Whether HTTP/2 is used.
    pub http2_enabled: bool,
    /// Whether compression is accepted.
    pub compression_enabled: bool,
    /// Whether a proxy is enabled: one is configured and it is not empty.
    pub proxy_enabled: bool,
    /// Timeout of requests that set none.
    pub default_timeout: Duration,
    /// Connect timeout of requests that set none.
    pub default_connect_timeout: Duration,
}

impl HttpClientStatus {
    /// The settings of a client built from `config`.
    pub fn from_config(config: &Config) -> (s: Self)
        ensures
            s.user_agent@ == config.http.user_agent@,
            s.connection_pool_size == config.http.connection_pool_size,
            s.http2_enabled == config.http.http2_enabled,
            s.compression_enabled == config.http.compression_enabled,
            s.proxy_enabled == (config.http.proxy matches Some(p) && p@.len() > 0),
            s.default_timeout.total_nanos() == config.scanner.request_timeout * 1_000_000_000,
            s.default_connect_timeout.total_nanos() == config.scanner.connect_timeout * 1_000_000_000,
    {
        HttpClientStatus {
            user_agent: config.http.user_agent.clone(),
            connection_pool_size: config.http.connection_pool_size,
            http2_enabled: config.http.http2_enabled,
            compression_enabled: config.http.compression_enabled,
            proxy_enabled: match &config.http.proxy {
                Some(p) => p.as_str().unicode_len() > 0,
                None => false,
            },
            default_timeout: Duration::from_secs(config.scanner.request_timeout),
            default_connect_timeout: Duration::from_secs(config.scanner.connect_timeout),
        }
    }
}

/// `https` or `http`.
pub open spec fn scheme(use_https: bool) -> Seq<char> {
    if use_https {
        "https"@
    } else {
        "http"@
    }
}

/// `scheme://host:port`.
pub fn host_port_url(host: &str, port: u16, use_https: bool) -> (u: String)
    ensures
        u@ == scheme(use_https) + "://"@ + host@ + ":"@ + decimal(port as nat),
{
    let mut u = String::from_str(if use_https { "https" } else { "http" });
    u.append("://");
    u.append(host);
    u.append(":");
    push_decimal(&mut u, port as u64);
    u
}

/// `scheme://ip`, the URL used to reach a domain through one address.
pub fn ip_url(ip: &str, use_https: bool) -> (u: String)
    ensures
        u@ == scheme(use_https) + "://"@ + ip@,
{
    let mut u = String::from_str(if use_https { "https" } else { "http" });
    u.append("://");
    u.append(ip);
    u
}

/// The timeout a request is sent with: its own, else the client's default.
pub fn effective_timeout(request: &HttpRequest, default_timeout: Duration) -> (d: Duration)
    ensures
        d == (match request.timeout {
            Some(t) => t,
            None => default_timeout,
        }),
{
    match request.timeout {
        Some(t) => t,
        None => default_timeout,
    }
}

/// The connect timeout a request is sent with: its own, else the client's default.
pub fn effective_connect_timeout(request: &HttpRequest, default_connect_timeout: Duration) -> (d: Duration)
    ensures
        d == (match request.connect_timeout {
            Some(t) => t,
            None => default_connect_timeout,
        }),
{
    match request.connect_timeout {
        Some(t) => t,
        None => default_connect_timeout,
    }
}

/// Whether a probe's response counts as reachable: a 2xx or 3xx status.
pub open spec fn reachable_status(status: u16) -> bool {
    200 <= status < 400
}

/// The message of a probe of `url` answered with `status`.
pub open spec fn url_probe_failure(url: Seq<char>, status: u16) -> Seq<char> {
    "连接测试失败: "@ + url + " (状态码: "@ + decimal(status as nat) + ")"@
}

/// The message of a probe of `domain` through `ip` answered with `status`.
pub open spec fn ip_probe_failure(ip: Seq<char>, domain: Seq<char>, status: u16) -> Seq<char> {
    "连接测试失败: "@ + ip + " -> "@ + domain + " (状态码: "@ + decimal(status as nat) + ")"@
}

/// Judges a probe of `url`: reachable responses give the time taken, others
/// an HTTP error naming the URL and status.
pub fn judge_url_probe(response: &HttpResponse, url: &str, elapsed: Duration) -> (r: Result<Duration, HttpError>)
    ensures
        reachable_status(response.status) ==> r == Ok::<Duration, HttpError>(elapsed),
        !reachable_status(response.status) ==> (r matches Err(e) && e.message_view() == Some(
            (HttpErrorKind::Http, url_probe_failure(url@, response.status)),
        )),
{
    if response.is_success() || response.is_redirect() {
        Ok(elapsed)
    } else {
        let mut m = String::from_str("连接测试失败: ");
        m.append(url);
        m.append(" (状态码: ");
        push_decimal(&mut m, response.status as u64);
        m.append(")");
        Err(HttpError::HttpError(m))
    }
}

/// Judges a probe of `domain` through `ip`: reachable responses give the
/// time taken, others an HTTP error naming both and the status.
pub fn judge_ip_probe(response: &HttpResponse, ip: &str, domain: &str, elapsed: Duration) -> (r: Result<Duration, HttpError>)
    ensures
        reachable_status(response.status) ==> r == Ok::<Duration, HttpError>(elapsed),
        !reachable_status(response.status) ==> (r matches Err(e) && e.message_view() == Some(
            (HttpErrorKind::Http, ip_probe_failure(ip@, domain@, response.status)),
        )),
{
    if response.is_success() || response.is_redirect() {
        Ok(elapsed)
    } else {
        let mut m = String::from_str("连接测试失败: ");
        m.append(ip);
        m.append(" -> ");
        m.append(domain);
        m.append(" (状态码: ");
        push_decimal(&mut m, response.status as u64);
        m.append(")");
        Err(HttpError::HttpError(m))
    }
}

/// What follows an attempt to reach a domain through an address: reached in
/// the time given, try again over plain HTTP, or give up with the last error.
pub enum ProbeStep {
    Reached(Duration),
    RetryOverHttp,
    GiveUp(HttpError),
}

/// The step after an attempt over HTTPS (`over_https`) or plain HTTP that
/// ended with `outcome`: a success is final; a failure over HTTPS is tried
/// again over plain HTTP; a failure over plain HTTP gives up with its error.
pub fn probe_step(over_https: bool, outcome: Result<Duration, HttpError>) -> (s: ProbeStep)
    ensures
        outcome matches Ok(d) ==> s == ProbeStep::Reached(d),
        outcome is Err && over_https ==> s is RetryOverHttp,
        !over_https ==> (outcome matches Err(e) ==> s == ProbeStep::GiveUp(e)),
{
    match outcome {
        Ok(d) => ProbeStep::Reached(d),
        Err(e) => {
            if over_https {
                ProbeStep::RetryOverHttp
            } else {
                ProbeStep::GiveUp(e)
            }
        },
    }
}

} // verus!
