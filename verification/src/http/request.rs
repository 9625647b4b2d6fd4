//! HTTP requests.
use vstd::prelude::*;
use crate::error::RusherError;
use crate::time::Duration;

verus! {

/// HTTP request methods.
#[derive(Debug, Clone, Copy, PartialEq, Eq, Structural)]
pub enum HttpMethod {
    GET,
    HEAD,
    POST,
    PUT,
    DELETE,
    PATCH,
    OPTIONS,
}

/// The name of a method.
pub open spec fn method_name(m: HttpMethod) -> Seq<char> {
    match m {
        HttpMethod::GET => "GET"@,
        HttpMethod::HEAD => "HEAD"@,
        HttpMethod::POST => "POST"@,
        HttpMethod::PUT => "PUT"@,
        HttpMethod::DELETE => "DELETE"@,
        HttpMethod::PATCH => "PATCH"@,
        HttpMethod::OPTIONS => "OPTIONS"@,
    }
}

impl HttpMethod {
    /// The name of the method, in capitals.
    pub fn as_str(&self) -> (s: &'static str)
        ensures
            s@ == method_name(*self),
    {
        match self {
            HttpMethod::GET => "GET",
            HttpMethod::HEAD => "HEAD",
            HttpMethod::POST => "POST",
            HttpMethod::PUT => "PUT",
            HttpMethod::DELETE => "DELETE",
            HttpMethod::PATCH => "PATCH",
            HttpMethod::OPTIONS => "OPTIONS",
        }
    }
}

/// Whether `url::Url::parse` accepts the text.
pub uninterp spec fn url_parses(input: Seq<char>) -> bool;

/// What `Url::as_str` gives for the URL parsed from the text.
pub uninterp spec fn url_serialization(input: Seq<char>) -> Seq<char>;

/// What `Url::host_str` gives for the URL parsed from the text.
pub uninterp spec fn url_host(input: Seq<char>) -> Option<Seq<char>>;

/// What `Url::port` gives for the URL parsed from the text.
pub uninterp spec fn url_port(input: Seq<char>) -> Option<u16>;

/// What `Url::path` gives for the URL parsed from the text.
pub uninterp spec fn url_path(input: Seq<char>) -> Seq<char>;

/// What `Url::query` gives for the URL parsed from the text.
pub uninterp spec fn url_query(input: Seq<char>) -> Option<Seq<char>>;

/// A parsed URL, held as the parts that requests read.
#[derive(Debug, Clone)]
pub struct ParsedUrl {
    serialization: String,
    host: Option<String>,
    port: Option<u16>,
    path: String,
    query: Option<String>,
}

/// The view of an optional string.
pub open spec fn opt_view(s: Option<String>) -> Option<Seq<char>> {
    match s {
        Some(t) => Some(t@),
        None => None,
    }
}

impl ParsedUrl {
    /// Whether these are the parts of the URL parsed from `input`.
    pub open spec fn parsed_from(self, input: Seq<char>) -> bool {
        &&& self.serialization_view() == url_serialization(input)
        &&& self.host_view() == url_host(input)
        &&& self.port_view() == url_port(input)
        &&& self.path_view() == url_path(input)
        &&& self.query_view() == url_query(input)
    }

    /// The whole URL as text.
    pub closed spec fn serialization_view(self) -> Seq<char> {
        self.serialization@
    }

    /// The host.
    pub closed spec fn host_view(self) -> Option<Seq<char>> {
        opt_view(self.host)
    }

    /// The explicit port.
    pub closed spec fn port_view(self) -> Option<u16> {
        self.port
    }

    /// The path.
    pub closed spec fn path_view(self) -> Seq<char> {
        self.path@
    }

    /// The query.
    pub closed spec fn query_view(self) -> Option<Seq<char>> {
        opt_view(self.query)
    }

    /// The whole URL as text.
    pub fn as_str(&self) -> (s: &str)
        ensures
            s@ == self.serialization_view(),
    {
        self.serialization.as_str()
    }
}

/// `url::Url::parse`: on success the URL's text, host, port, path and query,
/// which the contract names after the input; the kind of a failure is not stated.
#[verifier::external_body]
fn parse_url(input: &str) -> (r: Result<ParsedUrl, url::ParseError>)
    ensures
        r is Ok <==> url_parses(input@),
        r matches Ok(u) ==> u.serialization_view() == url_serialization(input@),
        r matches Ok(u) ==> u.host_view() == url_host(input@),
        r matches Ok(u) ==> u.port_view() == url_port(input@),
        r matches Ok(u) ==> u.path_view() == url_path(input@),
        r matches Ok(u) ==> u.query_view() == url_query(input@),
{
    let u = url::Url::parse(input)?;
    Ok(ParsedUrl {
        serialization: u.as_str().to_string(),
        host: u.host_str().map(|h| h.to_string()),
        port: u.port(),
        path: u.path().to_string(),
        query: u.query().map(|q| q.to_string()),
    })
}

/// An HTTP request and how to send it.
#[derive(Debug, Clone)]
pub struct HttpRequest {
    /// Method.
    pub method: HttpMethod,
    /// Target URL.
    pub url: ParsedUrl,
    /// Headers, in the order they were added.
    pub headers: Vec<(String, String)>,
    /// Body.
    pub body: Option<Vec<u8>>,
    /// Timeout of the whole request.
    pub timeout: Option<Duration>,
    /// Timeout of the connection.
    pub connect_timeout: Option<Duration>,
    /// Whether redirects are followed.
    pub follow_redirects: bool,
    /// Largest number of redirects followed.
    pub max_redirects: usize,
    /// Address that overrides name resolution.
    pub resolve: Option<String>,
}

/// The views of a list of header pairs.
pub open spec fn header_views(h: Seq<(String, String)>) -> Seq<(Seq<char>, Seq<char>)> {
    h.map_values(|p: (String, String)| (p.0@, p.1@))
}

impl HttpRequest {
    /// A fresh request: the given method and URL, no headers, no body, no
    /// timeouts, redirects followed up to ten times, no resolution override.
    pub open spec fn fresh(self, method: HttpMethod, input: Seq<char>) -> bool {
        &&& self.method == method
        &&& self.url.parsed_from(input)
        &&& self.headers@.len() == 0
        &&& self.body is None
        &&& self.timeout is None
        &&& self.connect_timeout is None
        &&& self.follow_redirects
        &&& self.max_redirects == 10
        &&& self.resolve is None
    }

    fn with_method(method: HttpMethod, url: &str) -> (r: Result<Self, RusherError>)
        ensures
            r is Ok <==> url_parses(url@),
            r matches Ok(req) ==> req.fresh(method, url@),
            r matches Err(e) ==> e is UrlParseError,
    {
        match parse_url(url) {
            Ok(url) => Ok(HttpRequest {
                method,
                url,
                headers: Vec::new(),
                body: None,
                timeout: None,
                connect_timeout: None,
                follow_redirects: true,
                max_redirects: 10,
                resolve: None,
            }),
            Err(e) => Err(RusherError::UrlParseError(e)),
        }
    }

    /// A GET request for `url`; a URL that does not parse is an error.
    pub fn get(url: &str) -> (r: Result<Self, RusherError>)
        ensures
            r is Ok <==> url_parses(url@),
            r matches Ok(req) ==> req.fresh(HttpMethod::GET, url@),
            r matches Err(e) ==> e is UrlParseError,
    {
        Self::with_method(HttpMethod::GET, url)
    }

    /// A HEAD request for `url`; a URL that does not parse is an error.
    pub fn head(url: &str) -> (r: Result<Self, RusherError>)
        ensures
            r is Ok <==> url_parses(url@),
            r matches Ok(req) ==> req.fresh(HttpMethod::HEAD, url@),
            r matches Err(e) ==> e is UrlParseError,
    {
        Self::with_method(HttpMethod::HEAD, url)
    }

    /// The same request with the header `name: value` added last.
    pub fn with_header(self, name: &str, value: &str) -> (r: Self)
        ensures
            header_views(r.headers@) == header_views(self.headers@).push((name@, value@)),
            r.method == self.method,
            r.url == self.url,
            r.body == self.body,
            r.timeout == self.timeout,
            r.connect_timeout == self.connect_timeout,
            r.follow_redirects == self.follow_redirects,
            r.max_redirects == self.max_redirects,
            r.resolve == self.resolve,
    {
        let mut s = self;
        let ghost old_headers = s.headers@;
        s.headers.push((String::from_str(name), String::from_str(value)));
        assert(header_views(s.headers@) =~= header_views(old_headers).push((name@, value@)));
        s
    }

    /// The same request with the timeout `timeout`.
    pub fn with_timeout(self, timeout: Duration) -> (r: Self)
        ensures
            r == (HttpRequest { timeout: Some(timeout), ..self }),
    {
        HttpRequest { timeout: Some(timeout), ..self }
    }

    /// The same request with the connect timeout `connect_timeout`.
    pub fn with_connect_timeout(self, connect_timeout: Duration) -> (r: Self)
        ensures
            r == (HttpRequest { connect_timeout: Some(connect_timeout), ..self }),
    {
        HttpRequest { connect_timeout: Some(connect_timeout), ..self }
    }

    /// The same request, following redirects or not.
    pub fn with_follow_redirects(self, follow: bool) -> (r: Self)
        ensures
            r == (HttpRequest { follow_redirects: follow, ..self }),
    {
        HttpRequest { follow_redirects: follow, ..self }
    }

    /// The same request with at most `max` redirects.
    pub fn with_max_redirects(self, max: usize) -> (r: Self)
        ensures
            r == (HttpRequest { max_redirects: max, ..self }),
    {
        HttpRequest { max_redirects: max, ..self }
    }

    /// The same request with the body `body`.
    pub fn with_body(self, body: Vec<u8>) -> (r: Self)
        ensures
            r == (HttpRequest { body: Some(body), ..self }),
    {
        HttpRequest { body: Some(body), ..self }
    }

    /// The same request with the resolution override `resolve`.
    pub fn with_resolve(self, resolve: &str) -> (r: Self)
        ensures
            r.resolve matches Some(s) && s@ == resolve@,
            r.method == self.method,
            r.url == self.url,
            r.headers == self.headers,
            r.body == self.body,
            r.timeout == self.timeout,
            r.connect_timeout == self.connect_timeout,
            r.follow_redirects == self.follow_redirects,
            r.max_redirects == self.max_redirects,
    {
        HttpRequest { resolve: Some(String::from_str(resolve)), ..self }
    }

    /// The host of the URL.
    pub fn host(&self) -> (h: Option<&str>)
        ensures
            match h {
                Some(s) => self.url.host_view() == Some(s@),
                None => self.url.host_view() is None,
            },
    {
        match &self.url.host {
            Some(h) => Some(h.as_str()),
            None => None,
        }
    }

    /// The explicit port of the URL.
    pub fn port(&self) -> (p: Option<u16>)
        ensures
            p == self.url.port_view(),
    {
        self.url.port
    }

    /// The path of the URL.
    pub fn path(&self) -> (p: &str)
        ensures
            p@ == self.url.path_view(),
    {
        self.url.path.as_str()
    }

    /// The query of the URL.
    pub fn query(&self) -> (q: Option<&str>)
        ensures
            match q {
                Some(s) => self.url.query_view() == Some(s@),
                None => self.url.query_view() is None,
            },
    {
        match &self.url.query {
            Some(q) => Some(q.as_str()),
            None => None,
        }
    }
}

} // verus!
