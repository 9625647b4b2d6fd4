use rusher::config::models::Config;
use rusher::error::RusherError;
use rusher::http::client::{
    probe_step, ProbeStep,
    effective_connect_timeout, effective_timeout, host_port_url, ip_url, judge_ip_probe, judge_url_probe,
    HttpClientStatus,
};
use rusher::http::error::HttpError;
use rusher::http::request::{HttpMethod, HttpRequest};
use rusher::http::response::HttpResponse;
use rusher::time::Duration;

fn response(status: u16) -> HttpResponse {
    HttpResponse::new(status, vec![], None, Duration::from_millis(1500))
}

#[test]
fn methods_have_their_names() {
    assert_eq!(HttpMethod::GET.as_str(), "GET");
    assert_eq!(HttpMethod::HEAD.as_str(), "HEAD");
}

#[test]
fn requests_parse_their_url() {
    let req = HttpRequest::get("https://api.github.com:8443/meta?x=1").unwrap();
    assert_eq!(req.host(), Some("api.github.com"));
    assert_eq!(req.port(), Some(8443));
    assert_eq!(req.path(), "/meta");
    assert_eq!(req.query(), Some("x=1"));
    assert!(req.follow_redirects);
    assert_eq!(req.max_redirects, 10);
    assert!(matches!(HttpRequest::head("not a url"), Err(RusherError::UrlParseError(_))));
    let plain = HttpRequest::head("https://github.com").unwrap();
    assert_eq!(plain.port(), None);
    assert_eq!(plain.path(), "/");
    assert_eq!(plain.query(), None);
}

#[test]
fn builders_set_their_fields() {
    let req = HttpRequest::get("https://github.com/")
        .unwrap()
        .with_header("Accept", "*/*")
        .with_timeout(Duration::from_secs(3))
        .with_connect_timeout(Duration::from_secs(1))
        .with_follow_redirects(false)
        .with_max_redirects(2)
        .with_body(vec![1, 2, 3])
        .with_resolve("140.82.112.3");
    assert_eq!(req.headers, vec![("Accept".to_string(), "*/*".to_string())]);
    assert_eq!(req.timeout, Some(Duration::from_secs(3)));
    assert_eq!(req.connect_timeout, Some(Duration::from_secs(1)));
    assert!(!req.follow_redirects);
    assert_eq!(req.max_redirects, 2);
    assert_eq!(req.body, Some(vec![1, 2, 3]));
    assert_eq!(req.resolve, Some("140.82.112.3".to_string()));
    assert_eq!(effective_timeout(&req, Duration::from_secs(10)), Duration::from_secs(3));
    let fresh = HttpRequest::get("https://github.com/").unwrap();
    assert_eq!(effective_timeout(&fresh, Duration::from_secs(10)), Duration::from_secs(10));
    assert_eq!(effective_connect_timeout(&fresh, Duration::from_secs(5)), Duration::from_secs(5));
}

#[test]
fn response_status_classes_and_headers() {
    let r = HttpResponse::new(
        301,
        vec![
            ("Content-Type".to_string(), "text/plain".to_string()),
            ("Set-Cookie".to_string(), "a=1".to_string()),
            ("set-cookie".to_string(), "b=2".to_string()),
        ],
        Some("hello".as_bytes().to_vec()),
        Duration::from_millis(1234),
    );
    assert!(r.is_redirect() && !r.is_success() && !r.is_client_error() && !r.is_server_error());
    assert_eq!(r.content_type, Some("text/plain".to_string()));
    assert_eq!(r.content_length, Some(5));
    assert_eq!(r.header("content-type"), Some("text/plain"));
    assert_eq!(r.headers("SET-COOKIE"), vec!["a=1", "b=2"]);
    assert_eq!(r.header("x-missing"), None);
    for name in ["set-cookie", "Content-Type", "x-missing"] {
        assert_eq!(r.headers(name).first().copied(), r.header(name));
        assert_eq!(r.headers(name).is_empty(), r.header(name).is_none());
    }
    assert_eq!(r.text(), Some("hello".to_string()));
    assert_eq!(r.response_time_ms(), 1234);
    assert!(response(204).is_success());
    assert!(response(404).is_client_error());
    assert!(response(503).is_server_error());
    let bad = HttpResponse::new(200, vec![], Some(vec![0xff, 0xfe]), Duration::from_secs(0));
    assert_eq!(bad.text(), None);
}

#[test]
fn probe_urls_and_judgement() {
    assert_eq!(host_port_url("github.com", 443, true), "https://github.com:443");
    assert_eq!(ip_url("140.82.112.3", false), "http://140.82.112.3");
    assert_eq!(judge_url_probe(&response(200), "u", Duration::from_millis(7)).unwrap(), Duration::from_millis(7));
    assert_eq!(judge_url_probe(&response(302), "u", Duration::from_millis(7)).unwrap(), Duration::from_millis(7));
    match judge_url_probe(&response(404), "https://github.com", Duration::from_millis(7)) {
        Err(HttpError::HttpError(m)) => assert_eq!(m, "连接测试失败: https://github.com (状态码: 404)"),
        _ => panic!("expected an HTTP error"),
    }
    match judge_ip_probe(&response(500), "1.2.3.4", "github.com", Duration::from_millis(7)) {
        Err(HttpError::HttpError(m)) => assert_eq!(m, "连接测试失败: 1.2.3.4 -> github.com (状态码: 500)"),
        _ => panic!("expected an HTTP error"),
    }
}

#[test]
fn errors_convert_between_layers() {
    match HttpError::from_rusher_error(RusherError::DnsError("x".to_string())) {
        HttpError::NetworkError(m) => assert_eq!(m, "DNS错误: x"),
        _ => panic!("expected a network error"),
    }
    match HttpError::from_rusher_error(RusherError::ConfigError("c".to_string())) {
        HttpError::Other(m) => assert_eq!(m, "配置错误: c"),
        _ => panic!("expected another error"),
    }
    assert!(matches!(HttpError::from_transport_failure(true, true, false, "t".to_string()), HttpError::TimeoutError(_)));
    assert!(matches!(HttpError::from_transport_failure(false, true, true, "t".to_string()), HttpError::NetworkError(_)));
    assert!(matches!(HttpError::from_transport_failure(false, false, true, "t".to_string()), HttpError::HttpError(_)));
    assert!(matches!(HttpError::from_transport_failure(false, false, false, "t".to_string()), HttpError::Other(_)));
    assert!(matches!(HttpError::timeout("t"), HttpError::TimeoutError(_)));
}

#[test]
fn client_status_from_config() {
    let s = HttpClientStatus::from_config(&Config::default());
    assert_eq!(s.user_agent, "Rusher-Rust/1.0");
    assert_eq!(s.connection_pool_size, 100);
    assert!(s.http2_enabled && s.compression_enabled && !s.proxy_enabled);
    assert_eq!(s.default_timeout.as_secs(), 10);
    assert_eq!(s.default_connect_timeout.as_secs(), 5);
    let mut c = Config::default();
    c.http.proxy = Some(String::new());
    assert!(!HttpClientStatus::from_config(&c).proxy_enabled);
    c.http.proxy = Some("http://127.0.0.1:8080".to_string());
    assert!(HttpClientStatus::from_config(&c).proxy_enabled);
}

#[test]
fn send_failures_are_named() {
    match HttpError::from_send_failure(true, false, false, "t".to_string()) {
        HttpError::TimeoutError(m) => assert_eq!(m, "请求超时: t"),
        _ => panic!("expected a timeout"),
    }
    match HttpError::from_send_failure(false, true, false, "c".to_string()) {
        HttpError::NetworkError(m) => assert_eq!(m, "连接失败: c"),
        _ => panic!("expected a network error"),
    }
    match HttpError::from_send_failure(false, false, true, "s".to_string()) {
        HttpError::HttpError(m) => assert_eq!(m, "s"),
        _ => panic!("expected an HTTP error"),
    }
    assert!(matches!(HttpError::from_send_failure(false, false, false, "o".to_string()), HttpError::Other(_)));
}

#[test]
fn probe_retries_over_http_once() {
    let d = Duration::from_millis(42);
    assert!(matches!(probe_step(true, Ok(d)), ProbeStep::Reached(x) if x == d));
    assert!(matches!(probe_step(false, Ok(d)), ProbeStep::Reached(x) if x == d));
    assert!(matches!(probe_step(true, Err(HttpError::timeout("t"))), ProbeStep::RetryOverHttp));
    assert!(matches!(probe_step(false, Err(HttpError::timeout("t"))), ProbeStep::GiveUp(HttpError::TimeoutError(m)) if m == "t"));
}
