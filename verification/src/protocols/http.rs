//! HTTP requests and responses, and the parts of the HTTP client that do not
//! touch the network.
use vstd::prelude::*;
use crate::string_map::StringMap;
use crate::text::{
    chars_of,
    string_of,
    owned,
    str_contains,
    contains_seq,
    starts_with,
    str_starts_with,
    lower_case,
    to_lower,
    has_ascii_capital,
};
use crate::pattern::{
    regex_compile_error,
    regex_finds,
    regex_group,
    regex_check,
    regex_is_match,
    regex_capture,
};

verus! {

/// Connection timing breakdown, in milliseconds.
#[derive(Debug, Clone, Copy, PartialEq, Eq, Structural)]
pub struct ConnectionTimings {
    pub dns_lookup_ms: Option<u64>,
    pub tcp_connect_ms: Option<u64>,
    pub tls_handshake_ms: Option<u64>,
    pub time_to_first_byte_ms: Option<u64>,
    pub content_download_ms: Option<u64>,
}

impl Default for ConnectionTimings {
    fn default() -> (r: Self)
        ensures
            r.dns_lookup_ms is None,
            r.tcp_connect_ms is None,
            r.tls_handshake_ms is None,
            r.time_to_first_byte_ms is None,
            r.content_download_ms is None,
    {
        ConnectionTimings {
            dns_lookup_ms: None,
            tcp_connect_ms: None,
            tls_handshake_ms: None,
            time_to_first_byte_ms: None,
            content_download_ms: None,
        }
    }
}

impl ConnectionTimings {
    /// The estimate the client makes from the total time alone: half of it
    /// to the first byte, half downloading; the connection phases unknown.
    pub fn estimate(total_ms: u64) -> (r: Self)
        ensures
            r.dns_lookup_ms is None,
            r.tcp_connect_ms is None,
            r.tls_handshake_ms is None,
            r.time_to_first_byte_ms == Some(total_ms / 2),
            r.content_download_ms == Some(total_ms / 2),
    {
        ConnectionTimings {
            dns_lookup_ms: None,
            tcp_connect_ms: None,
            tls_handshake_ms: None,
            time_to_first_byte_ms: Some(total_ms / 2),
            content_download_ms: Some(total_ms / 2),
        }
    }
}

/// HTTP client configuration.
#[derive(Debug)]
pub struct HttpClientConfig {
    /// Request timeout in seconds.
    pub timeout_secs: u64,
    /// Maximum idle connections per host.
    pub max_idle_per_host: usize,
    /// Whether to follow redirects.
    pub follow_redirects: bool,
    /// Whether to accept invalid TLS certificates.
    pub accept_invalid_certs: bool,
    /// Base URL for relative requests.
    pub base_url: Option<String>,
    /// Headers sent with every request.
    pub default_headers: StringMap,
}

impl Default for HttpClientConfig {
    fn default() -> (r: Self)
        ensures
            r.timeout_secs == 30,
            r.max_idle_per_host == 10,
            r.follow_redirects,
            !r.accept_invalid_certs,
            r.base_url is None,
            r.default_headers@ == Map::<Seq<char>, Seq<char>>::empty(),
    {
        HttpClientConfig {
            timeout_secs: 30,
            max_idle_per_host: 10,
            follow_redirects: true,
            accept_invalid_certs: false,
            base_url: None,
            default_headers: StringMap::new(),
        }
    }
}

/// Number of `/` at the end of `s`.
pub open spec fn trailing_slashes(s: Seq<char>) -> nat
    decreases s.len(),
{
    if s.len() > 0 && s.last() == '/' {
        1 + trailing_slashes(s.drop_last())
    } else {
        0
    }
}

/// `s` without the `/` at its end (as `str::trim_end_matches('/')`).
pub open spec fn trim_end_slashes(s: Seq<char>) -> Seq<char> {
    s.take(s.len() - trailing_slashes(s))
}

/// The URL a client sends a request to: an absolute URL (`http://` or
/// `https://`) as it is, else appended to the base URL stripped of its
/// trailing slashes; without a base URL, the URL as it is.
pub open spec fn full_url(base: Option<Seq<char>>, url: Seq<char>) -> Seq<char> {
    match base {
        Some(b) => if starts_with(url, "http://"@) || starts_with(url, "https://"@) {
            url
        } else {
            trim_end_slashes(b) + url
        },
        None => url,
    }
}

proof fn lemma_trailing(s: Seq<char>, k: int)
    requires
        0 <= k <= s.len(),
        forall|j: int| s.len() - k <= j < s.len() ==> s[j] == '/',
        k == s.len() || s[s.len() - k - 1] != '/',
    ensures
        trailing_slashes(s) == k,
    decreases k,
{
    if k > 0 {
        lemma_trailing(s.drop_last(), k - 1);
    }
}

/// The URL a client sends a request to (see `full_url`).
pub fn resolve_url(base_url: &Option<String>, url: &str) -> (r: String)
    ensures
        r@ == full_url(
            match base_url {
                Some(b) => Some(b@),
                None => None,
            },
            url@,
        ),
{
    match base_url {
        None => owned(url),
        Some(base) => {
            if str_starts_with(url, "http://") || str_starts_with(url, "https://") {
                owned(url)
            } else {
                let b = chars_of(base.as_str());
                let mut end = b.len();
                while end > 0 && b[end - 1] == '/'
                    invariant
                        end <= b@.len(),
                        forall|j: int| end <= j < b@.len() ==> b@[j] == '/',
                    decreases end,
                {
                    end -= 1;
                }
                proof {
                    lemma_trailing(b@, b@.len() - end);
                    assert(b@.take(end as int) =~= b@.subrange(0, end as int));
                }
                let mut r = string_of(&b[0..end]);
                r.append(url);
                r
            }
        },
    }
}

/// An HTTP request.
#[derive(Debug)]
pub struct HttpRequest {
    pub method: String,
    pub url: String,
    pub headers: StringMap,
    pub query_params: StringMap,
    pub body: Option<String>,
}

impl HttpRequest {
    /// A request with no headers, query parameters or body.
    pub fn new(method: &str, url: &str) -> (r: Self)
        ensures
            r.method@ == method@,
            r.url@ == url@,
            r.headers@ == Map::<Seq<char>, Seq<char>>::empty(),
            r.query_params@ == Map::<Seq<char>, Seq<char>>::empty(),
            r.body is None,
    {
        HttpRequest {
            method: owned(method),
            url: owned(url),
            headers: StringMap::new(),
            query_params: StringMap::new(),
            body: None,
        }
    }

    /// A GET request.
    pub fn get(url: &str) -> (r: Self)
        ensures
            r.method@ == "GET"@,
            r.url@ == url@,
            r.headers@ == Map::<Seq<char>, Seq<char>>::empty(),
            r.query_params@ == Map::<Seq<char>, Seq<char>>::empty(),
            r.body is None,
    {
        Self::new("GET", url)
    }

    /// A POST request with a body.
    pub fn post(url: &str, body: String) -> (r: Self)
        ensures
            r.method@ == "POST"@,
            r.url@ == url@,
            r.headers@ == Map::<Seq<char>, Seq<char>>::empty(),
            r.query_params@ == Map::<Seq<char>, Seq<char>>::empty(),
            r.body == Some(body),
    {
        HttpRequest {
            method: owned("POST"),
            url: owned(url),
            headers: StringMap::new(),
            query_params: StringMap::new(),
            body: Some(body),
        }
    }

    /// A PUT request with a body.
    pub fn put(url: &str, body: String) -> (r: Self)
        ensures
            r.method@ == "PUT"@,
            r.url@ == url@,
            r.headers@ == Map::<Seq<char>, Seq<char>>::empty(),
            r.query_params@ == Map::<Seq<char>, Seq<char>>::empty(),
            r.body == Some(body),
    {
        HttpRequest {
            method: owned("PUT"),
            url: owned(url),
            headers: StringMap::new(),
            query_params: StringMap::new(),
            body: Some(body),
        }
    }

    /// A DELETE request.
    pub fn delete(url: &str) -> (r: Self)
        ensures
            r.method@ == "DELETE"@,
            r.url@ == url@,
            r.headers@ == Map::<Seq<char>, Seq<char>>::empty(),
            r.query_params@ == Map::<Seq<char>, Seq<char>>::empty(),
            r.body is None,
    {
        Self::new("DELETE", url)
    }

    /// The request with a header set.
    pub fn with_header(self, key: String, value: String) -> (r: Self)
        ensures
            r.headers@ == self.headers@.insert(key@, value@),
            r.method == self.method,
            r.url == self.url,
            r.query_params@ == self.query_params@,
            r.body == self.body,
    {
        let mut s = self;
        s.headers.insert(key, value);
        s
    }

    /// The request with several headers set (replacing those of the same
    /// name).
    pub fn with_headers(self, headers: StringMap) -> (r: Self)
        ensures
            r.headers@ == self.headers@.union_prefer_right(headers@),
            r.method == self.method,
            r.url == self.url,
            r.query_params@ == self.query_params@,
            r.body == self.body,
    {
        let mut s = self;
        s.headers.extend(headers);
        s
    }

    /// The request with a query parameter set.
    pub fn with_query_param(self, key: String, value: String) -> (r: Self)
        ensures
            r.query_params@ == self.query_params@.insert(key@, value@),
            r.method == self.method,
            r.url == self.url,
            r.headers@ == self.headers@,
            r.body == self.body,
    {
        let mut s = self;
        s.query_params.insert(key, value);
        s
    }

    /// The request with a body.
    pub fn with_body(self, body: String) -> (r: Self)
        ensures
            r.body == Some(body),
            r.method == self.method,
            r.url == self.url,
            r.headers@ == self.headers@,
            r.query_params@ == self.query_params@,
    {
        let mut s = self;
        s.body = Some(body);
        s
    }

    /// Bytes of the body (0 without one).
    pub fn body_size(&self) -> (r: usize)
        ensures
            r == match self.body {
                Some(b) => vstd::utf8::encode_utf8(b@).len(),
                None => 0,
            },
    {
        match &self.body {
            Some(b) => b.as_str().as_bytes().len(),
            None => 0,
        }
    }
}

/// The error of a regular expression that does not compile.
#[derive(Debug)]
pub struct PatternError {
    /// The error's text.
    pub message: String,
}

/// An HTTP response.
#[derive(Debug)]
pub struct HttpResponse {
    pub status_code: u16,
    pub status_text: String,
    /// Headers, by lower-case name.
    pub headers: StringMap,
    pub body: String,
    pub response_time_ms: u64,
    pub bytes_sent: usize,
    pub bytes_received: usize,
    /// Connection timing breakdown.
    pub timings: ConnectionTimings,
}

impl HttpResponse {
    /// The status is 2xx.
    pub fn is_success(&self) -> (r: bool)
        ensures
            r == (200 <= self.status_code < 300),
    {
        self.status_code >= 200 && self.status_code < 300
    }

    /// The status is 4xx.
    pub fn is_client_error(&self) -> (r: bool)
        ensures
            r == (400 <= self.status_code < 500),
    {
        self.status_code >= 400 && self.status_code < 500
    }

    /// The status is 5xx.
    pub fn is_server_error(&self) -> (r: bool)
        ensures
            r == (500 <= self.status_code < 600),
    {
        self.status_code >= 500 && self.status_code < 600
    }

    /// The value of a header, looked up by the lower-case form of `name`; a
    /// header stored under a name with an ASCII capital letter is never
    /// found.  Of other capital letters nothing is stated: the standard
    /// library's documentation does not say that lower-casing removes them
    /// (and some, such as U+03D2, have no lower-case form and stay).
    pub fn get_header(&self, name: &str) -> (r: Option<&String>)
        ensures
            r is Some <==> self.headers@.contains_key(lower_case(name@)),
            r matches Some(v) ==> v@ == self.headers@[lower_case(name@)],
            match r {
                Some(v) => header_lookup(self.headers@, name@) == Some(v@),
                None => header_lookup(self.headers@, name@) is None,
            },
            !has_ascii_capital(lower_case(name@)),
            forall|k: Seq<char>|
                #![trigger self.headers@.contains_key(k)]
                self.headers@.contains_key(k) && has_ascii_capital(k) ==> k != lower_case(name@),
    {
        let key = to_lower(name);
        self.headers.get(key.as_str())
    }

    /// Whether the body contains `text`.
    pub fn body_contains(&self, text: &str) -> (r: bool)
        ensures
            r == contains_seq(self.body@, text@),
    {
        str_contains(self.body.as_str(), text)
    }

    /// Whether the body matches the regular expression `pattern`.
    pub fn body_matches(&self, pattern: &str) -> (r: Result<bool, PatternError>)
        ensures
            match regex_compile_error(pattern@) {
                Some(t) => r matches Err(e) && e.message@ == t,
                None => r == Ok::<bool, PatternError>(regex_finds(pattern@, self.body@)),
            },
    {
        match regex_check(pattern) {
            Some(t) => Err(PatternError { message: t }),
            None => Ok(regex_is_match(pattern, self.body.as_str())),
        }
    }

    /// The text of capture group `group` of the first match of `pattern`
    /// in the body.
    pub fn extract_regex(&self, pattern: &str, group: usize) -> (r: Result<
        Option<String>,
        PatternError,
    >)
        ensures
            match regex_compile_error(pattern@) {
                Some(t) => r matches Err(e) && e.message@ == t,
                None => match regex_group(pattern@, self.body@, group) {
                    Some(g) => r matches Ok(Some(x)) && x@ == g,
                    None => r matches Ok(None),
                },
            },
    {
        match regex_check(pattern) {
            Some(t) => Err(PatternError { message: t }),
            None => Ok(regex_capture(pattern, self.body.as_str(), group)),
        }
    }
}

/// The header found for `name`: the one stored under the lower-case form of
/// `name`.
pub open spec fn header_lookup(headers: Map<Seq<char>, Seq<char>>, name: Seq<char>) -> Option<
    Seq<char>,
> {
    if headers.contains_key(lower_case(name)) {
        Some(headers[lower_case(name)])
    } else {
        None
    }
}

/// Header lookup ignores case: two names with the same lower-case form find
/// the same header.
pub proof fn law_header_lookup_ignores_case(
    headers: Map<Seq<char>, Seq<char>>,
    n1: Seq<char>,
    n2: Seq<char>,
)
    requires
        lower_case(n1) == lower_case(n2),
    ensures
        header_lookup(headers, n1) == header_lookup(headers, n2),
{
}

/// A status code is in at most one of the classes success (2xx), client
/// error (4xx) and server error (5xx).
pub proof fn law_status_classes_disjoint(code: u16)
    ensures
        !((200 <= code < 300) && (400 <= code < 500)),
        !((200 <= code < 300) && (500 <= code < 600)),
        !((400 <= code < 500) && (500 <= code < 600)),
{
}

} // verus!
