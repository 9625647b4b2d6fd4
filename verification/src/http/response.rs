//! HTTP responses.
use vstd::prelude::*;
use vstd::utf8::{decode_utf8, valid_utf8};
use crate::text::{eq_ignore_ascii_case, same_ignoring_ascii_case};
use crate::time::Duration;
use super::request::header_views;

verus! {

/// A received HTTP response.
#[derive(Debug, Clone)]
pub struct HttpResponse {
    /// Status code.
    pub status: u16,
    /// Headers, in the order received.
    pub headers: Vec<(String, String)>,
    /// Body.
    pub body: Option<Vec<u8>>,
    /// Time the response took.
    pub response_time: Duration,
    /// Length of the body.
    pub content_length: Option<u64>,
    /// Value of the first `Content-Type` header.
    pub content_type: Option<String>,
}

/// The value of the first header whose name equals `name` without regard to ASCII case.
pub open spec fn first_header(headers: Seq<(Seq<char>, Seq<char>)>, name: Seq<char>) -> Option<Seq<char>>
    decreases headers.len(),
{
    if headers.len() == 0 {
        None
    } else if eq_ignore_ascii_case(headers[0].0, name) {
        Some(headers[0].1)
    } else {
        first_header(headers.drop_first(), name)
    }
}

/// The values of all headers whose name equals `name` without regard to ASCII case, in order.
pub open spec fn all_headers(headers: Seq<(Seq<char>, Seq<char>)>, name: Seq<char>) -> Seq<Seq<char>>
    decreases headers.len(),
{
    if headers.len() == 0 {
        Seq::empty()
    } else if eq_ignore_ascii_case(headers.last().0, name) {
        all_headers(headers.drop_last(), name).push(headers.last().1)
    } else {
        all_headers(headers.drop_last(), name)
    }
}

/// Running the header search from position `i` to the end.
proof fn lemma_header_step(h: Seq<(Seq<char>, Seq<char>)>, name: Seq<char>, i: int)
    requires
        0 <= i < h.len(),
    ensures
        h.skip(i).drop_first() == h.skip(i + 1),
        h.skip(i)[0] == h[i],
        h.skip(i).len() > 0,
{
    assert(h.skip(i).drop_first() =~= h.skip(i + 1));
}

/// The position of the first header named `name` (without regard to ASCII case).
fn find_header(headers: &Vec<(String, String)>, name: &str) -> (r: Option<usize>)
    ensures
        match r {
            Some(i) => i < headers@.len() && first_header(header_views(headers@), name@) == Some(headers@[i as int].1@),
            None => first_header(header_views(headers@), name@) is None,
        },
{
    let ghost h = header_views(headers@);
    assert(h.skip(0) =~= h);
    let mut i: usize = 0;
    while i < headers.len()
        invariant
            i <= headers@.len(),
            h == header_views(headers@),
            first_header(h, name@) == first_header(h.skip(i as int), name@),
        decreases headers@.len() - i,
    {
        proof {
            lemma_header_step(h, name@, i as int);
        }
        if same_ignoring_ascii_case(headers[i].0.as_str(), name) {
            return Some(i);
        }
        i = i + 1;
    }
    None
}

impl HttpResponse {
    /// A response with the given status, headers, body and time; the content
    /// length is the body's length and the content type is the first
    /// `Content-Type` header.
    pub fn new(status: u16, headers: Vec<(String, String)>, body: Option<Vec<u8>>, response_time: Duration) -> (r: Self)
        ensures
            r.status == status,
            r.headers == headers,
            r.body == body,
            r.response_time == response_time,
            r.content_length == (match body {
                Some(b) => Some(b@.len() as u64),
                None => None,
            }),
            match r.content_type {
                Some(t) => first_header(header_views(headers@), "content-type"@) == Some(t@),
                None => first_header(header_views(headers@), "content-type"@) is None,
            },
    {
        let content_length = match &body {
            Some(b) => Some(b.len() as u64),
            None => None,
        };
        let content_type = match find_header(&headers, "content-type") {
            Some(i) => Some(headers[i].1.clone()),
            None => None,
        };
        HttpResponse { status, headers, body, response_time, content_length, content_type }
    }

    /// Whether the status is 2xx.
    pub fn is_success(&self) -> (b: bool)
        ensures
            b == (200 <= self.status < 300),
    {
        self.status >= 200 && self.status < 300
    }

    /// Whether the status is 3xx.
    pub fn is_redirect(&self) -> (b: bool)
        ensures
            b == (300 <= self.status < 400),
    {
        self.status >= 300 && self.status < 400
    }

    /// Whether the status is 4xx.
    pub fn is_client_error(&self) -> (b: bool)
        ensures
            b == (400 <= self.status < 500),
    {
        self.status >= 400 && self.status < 500
    }

    /// Whether the status is 5xx.
    pub fn is_server_error(&self) -> (b: bool)
        ensures
            b == (500 <= self.status < 600),
    {
        self.status >= 500 && self.status < 600
    }

    /// The body as text, if there is a body and it is valid UTF-8.
    pub fn text(&self) -> (t: Option<String>)
        ensures
            match self.body {
                Some(b) => match t {
                    Some(s) => valid_utf8(b@) && s@ == decode_utf8(b@),
                    None => !valid_utf8(b@),
                },
                None => t is None,
            },
    {
        match &self.body {
            Some(b) => string_from_utf8(b.clone()),
            None => None,
        }
    }

    /// The response time in whole milliseconds (cut to 64 bits).
    pub fn response_time_ms(&self) -> (m: u64)
        ensures
            m == ((self.response_time.total_nanos() / 1_000_000) as u64),
    {
        self.response_time.as_millis() as u64
    }

    /// The value of the first header named `name`, compared without ASCII case.
    pub fn header(&self, name: &str) -> (v: Option<&str>)
        ensures
            match v {
                Some(s) => first_header(header_views(self.headers@), name@) == Some(s@),
                None => first_header(header_views(self.headers@), name@) is None,
            },
    {
        match find_header(&self.headers, name) {
            Some(i) => Some(self.headers[i].1.as_str()),
            None => None,
        }
    }

    /// The values of all headers named `name`, compared without ASCII case, in order.
    pub fn headers(&self, name: &str) -> (v: Vec<&str>)
        ensures
            v@.map_values(|s: &str| s@) == all_headers(header_views(self.headers@), name@),
    {
        let ghost h = header_views(self.headers@);
        let mut out: Vec<&str> = Vec::new();
        let mut i: usize = 0;
        assert(h.take(0) =~= Seq::<(Seq<char>, Seq<char>)>::empty());
        assert(out@.map_values(|s: &str| s@) =~= Seq::<Seq<char>>::empty());
        while i < self.headers.len()
            invariant
                i <= self.headers@.len(),
                h == header_views(self.headers@),
                out@.map_values(|s: &str| s@) == all_headers(h.take(i as int), name@),
            decreases self.headers@.len() - i,
        {
            assert(h.take(i + 1).drop_last() =~= h.take(i as int));
            let ghost before = out@.map_values(|s: &str| s@);
            if same_ignoring_ascii_case(self.headers[i].0.as_str(), name) {
                out.push(self.headers[i].1.as_str());
                assert(out@.map_values(|s: &str| s@) =~= before.push(self.headers@[i as int].1@));
            }
            i = i + 1;
        }
        assert(h.take(h.len() as int) =~= h);
        out
    }
}

/// `String::from_utf8`: the decoded text if `bytes` is valid UTF-8, `None` otherwise.
#[verifier::external_body]
fn string_from_utf8(bytes: Vec<u8>) -> (r: Option<String>)
    ensures
        r is Some <==> valid_utf8(bytes@),
        r matches Some(s) ==> s@ == decode_utf8(bytes@),
{
    String::from_utf8(bytes).ok()
}

/// The first matching header of a list with one more header at its end.
proof fn lemma_first_header_push(h: Seq<(Seq<char>, Seq<char>)>, name: Seq<char>)
    requires
        h.len() > 0,
    ensures
        first_header(h, name) == (match first_header(h.drop_last(), name) {
            Some(v) => Some(v),
            None => if eq_ignore_ascii_case(h.last().0, name) { Some(h.last().1) } else { None },
        }),
    decreases h.len(),
{
    if h.len() == 1 {
        assert(h.last() == h[0]);
        assert(first_header(h.drop_first(), name) is None);
        assert(first_header(h.drop_last(), name) is None);
    } else {
        assert(h.drop_last()[0] == h[0]);
        if !eq_ignore_ascii_case(h[0].0, name) {
            let t = h.drop_first();
            lemma_first_header_push(t, name);
            assert(t.drop_last() =~= h.drop_last().drop_first());
            assert(t.last() == h.last());
            assert(h.drop_last().len() > 0);
            assert(first_header(h.drop_last(), name) == first_header(h.drop_last().drop_first(), name));
        }
    }
}

/// Of all the headers named `name`, the first is the one the single lookup
/// finds, and there are none exactly when the single lookup finds none.
pub proof fn lemma_first_of_all_headers(h: Seq<(Seq<char>, Seq<char>)>, name: Seq<char>)
    ensures
        all_headers(h, name).len() == 0 <==> first_header(h, name) is None,
        all_headers(h, name).len() > 0 ==> first_header(h, name) == Some(all_headers(h, name)[0]),
    decreases h.len(),
{
    if h.len() > 0 {
        lemma_first_of_all_headers(h.drop_last(), name);
        lemma_first_header_push(h, name);
    }
}

/// A status is in at most one of the classes success (2xx), redirect (3xx),
/// client error (4xx) and server error (5xx).
pub proof fn lemma_status_classes_exclusive(status: u16)
    ensures
        (200 <= status < 300) ==> !(300 <= status < 400) && !(400 <= status < 500) && !(500 <= status < 600),
        (300 <= status < 400) ==> !(400 <= status < 500) && !(500 <= status < 600),
        (400 <= status < 500) ==> !(500 <= status < 600),
{
}

} // verus!
