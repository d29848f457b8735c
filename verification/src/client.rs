//! The HTTP client's model: its configuration, the request it sends, the
//! retry decisions, the response it gets back and the checks made on it.
//! The network exchange itself happens outside this library.
use vstd::prelude::*;
use vstd::utf8::{decode_utf8, valid_utf8};

use crate::text::{decimal, push_decimal, push_str, string_of};
use crate::{HttpHeaders, HttpMethod, StatusCode, TimeSpan};

verus! {

/// The settings of an HTTP client.
#[derive(Debug, Clone)]
pub struct HttpClientConfig {
    pub timeout: TimeSpan,
    pub connect_timeout: TimeSpan,
    pub max_retries: u32,
    pub retry_delay: TimeSpan,
    pub keep_alive: bool,
    pub max_connections: usize,
    pub follow_redirects: bool,
    pub max_redirects: u32,
    pub verify_ssl: bool,
    pub proxy: Option<String>,
    pub default_headers: HttpHeaders,
    pub user_agent: String,
}

/// The default settings: 30 s timeout, 10 s connect timeout, 3 retries 500 ms
/// apart, keep-alive, 10 connections, redirects followed up to 10, TLS
/// certificates checked, no proxy, no default header, user agent
/// "AlMarjaa/3.2.0".
pub open spec fn is_default_config(c: HttpClientConfig) -> bool {
    &&& c.timeout.nanos == 30_000_000_000
    &&& c.connect_timeout.nanos == 10_000_000_000
    &&& c.max_retries == 3
    &&& c.retry_delay.nanos == 500_000_000
    &&& c.keep_alive
    &&& c.max_connections == 10
    &&& c.follow_redirects
    &&& c.max_redirects == 10
    &&& c.verify_ssl
    &&& c.proxy is None
    &&& c.default_headers@ == Map::<Seq<char>, Seq<char>>::empty()
    &&& c.user_agent@ == "AlMarjaa/3.2.0"@
}

impl Default for HttpClientConfig {
    fn default() -> (c: Self)
        ensures
            is_default_config(c),
    {
        HttpClientConfig {
            timeout: TimeSpan::from_secs(30),
            connect_timeout: TimeSpan::from_secs(10),
            max_retries: 3,
            retry_delay: TimeSpan::from_millis(500),
            keep_alive: true,
            max_connections: 10,
            follow_redirects: true,
            max_redirects: 10,
            verify_ssl: true,
            proxy: None,
            default_headers: HttpHeaders::new(),
            user_agent: string_of("AlMarjaa/3.2.0"),
        }
    }
}

impl HttpClientConfig {
    /// The default settings.
    pub fn new() -> (c: Self)
        ensures
            is_default_config(c),
    {
        HttpClientConfig::default()
    }

    /// Sets the timeout to `seconds` seconds.
    pub fn with_timeout(self, seconds: u64) -> (c: Self)
        ensures
            c == (HttpClientConfig { timeout: TimeSpan { nanos: (seconds * 1_000_000_000) as u128 }, ..self }),
    {
        let mut c = self;
        c.timeout = TimeSpan::from_secs(seconds);
        c
    }

    /// Sets the connect timeout to `seconds` seconds.
    pub fn with_connect_timeout(self, seconds: u64) -> (c: Self)
        ensures
            c == (HttpClientConfig { connect_timeout: TimeSpan { nanos: (seconds * 1_000_000_000) as u128 }, ..self }),
    {
        let mut c = self;
        c.connect_timeout = TimeSpan::from_secs(seconds);
        c
    }

    /// Sets the number of retries.
    pub fn with_max_retries(self, retries: u32) -> (c: Self)
        ensures
            c == (HttpClientConfig { max_retries: retries, ..self }),
    {
        let mut c = self;
        c.max_retries = retries;
        c
    }

    /// Sets the proxy.
    pub fn with_proxy(self, proxy: String) -> (c: Self)
        ensures
            c == (HttpClientConfig { proxy: Some(proxy), ..self }),
    {
        let mut c = self;
        c.proxy = Some(proxy);
        c
    }

    /// Sets the user agent.
    pub fn with_user_agent(self, user_agent: String) -> (c: Self)
        ensures
            c == (HttpClientConfig { user_agent: user_agent, ..self }),
    {
        let mut c = self;
        c.user_agent = user_agent;
        c
    }

    /// Stops checking TLS certificates (insecure).
    pub fn insecure(self) -> (c: Self)
        ensures
            c == (HttpClientConfig { verify_ssl: false, ..self }),
    {
        let mut c = self;
        c.verify_ssl = false;
        c
    }
}

/// The response to a client request.
#[derive(Debug, Clone)]
pub struct HttpResponse {
    pub status: StatusCode,
    pub headers: HttpHeaders,
    pub body: String,
    pub body_bytes: Option<Vec<u8>>,
    pub response_time: TimeSpan,
    pub final_url: Option<String>,
}

/// Name for what `String::from_utf8_lossy` returns: the bytes read as UTF-8,
/// each invalid sequence replaced by U+FFFD.
pub uninterp spec fn utf8_lossy(bytes: Seq<u8>) -> Seq<char>;

/// Calls `String::from_utf8_lossy`. The result is named `utf8_lossy`; on
/// valid UTF-8 it is the decoded text, as the documentation states.
#[verifier::external_body]
fn lossy_text(bytes: &[u8]) -> (r: String)
    ensures
        r@ == utf8_lossy(bytes@),
        valid_utf8(bytes@) ==> r@ == decode_utf8(bytes@),
{
    String::from_utf8_lossy(bytes).to_string()
}

/// The message of a failed download: the status code that came back.
pub open spec fn download_failed_message(code: u16) -> Seq<char> {
    "فشل التحميل: "@ + decimal(code as nat)
}

/// The message of a download without content.
pub open spec fn no_content_message() -> Seq<char> {
    "لا يوجد محتوى"@
}

impl HttpResponse {
    /// Whether the status is 2xx.
    pub fn is_success(&self) -> (b: bool)
        ensures
            b == (200 <= self.status.0 && self.status.0 < 300),
    {
        self.status.is_success()
    }

    /// Whether the status is 4xx or 5xx.
    pub fn is_error(&self) -> (b: bool)
        ensures
            b == (400 <= self.status.0 && self.status.0 < 600),
    {
        self.status.is_client_error() || self.status.is_server_error()
    }

    /// The body as bytes; empty when there are none.
    pub fn bytes(&self) -> (r: &[u8])
        ensures
            r@ == match self.body_bytes {
                Some(b) => b@,
                None => Seq::<u8>::empty(),
            },
    {
        match &self.body_bytes {
            Some(b) => b.as_slice(),
            None => &[],
        }
    }

    /// The body as text; reading it always succeeds.
    pub fn text(&self) -> (r: Result<&str, String>)
        ensures
            r matches Ok(t) && t@ == self.body@,
    {
        Ok(self.body.as_str())
    }

    /// What a download keeps of the response: its bytes when the status is
    /// 2xx and there are bytes, else the error.
    pub fn download_bytes(self) -> (r: Result<Vec<u8>, String>)
        ensures
            !(200 <= self.status.0 && self.status.0 < 300) ==> (r matches Err(e) && e@ == download_failed_message(self.status.0)),
            (200 <= self.status.0 && self.status.0 < 300) ==> match self.body_bytes {
                Some(b) => r == Ok::<Vec<u8>, String>(b),
                None => r matches Err(e) && e@ == no_content_message(),
            },
    {
        if !self.is_success() {
            let mut e = String::new();
            push_str(&mut e, "فشل التحميل: ");
            push_decimal(&mut e, self.status.0 as u128);
            assert(e@ =~= download_failed_message(self.status.0));
            return Err(e);
        }
        match self.body_bytes {
            Some(b) => Ok(b),
            None => Err(string_of("لا يوجد محتوى")),
        }
    }
}

/// A response built from what came over the wire: the status code, the
/// header pairs (set in order, names compared without regard to case), and
/// the body bytes, also read as text with invalid UTF-8 replaced, and the URL
/// that answered after any redirects. No time has been measured yet.
pub fn response_from_parts(status: u16, final_url: String, header_pairs: Vec<(String, String)>, body: Vec<u8>) -> (r: HttpResponse)
    ensures
        r.status.0 == status,
        r.final_url == Some(final_url),
        r.headers@ == headers_of_pairs(header_pairs@),
        r.body@ == utf8_lossy(body@),
        valid_utf8(body@) ==> r.body@ == decode_utf8(body@),
        r.body_bytes == Some(body),
        r.response_time.nanos == 0,
{
    let text = lossy_text(body.as_slice());
    response_with_text(status, final_url, header_pairs, body, text)
}

/// A response from the status code, the header pairs (set in order, names
/// compared without regard to case), the body bytes, the text read from them
/// and the URL that answered after any redirects. No time has been measured
/// yet.
pub fn response_with_text(status: u16, final_url: String, header_pairs: Vec<(String, String)>, body: Vec<u8>, text: String) -> (r: HttpResponse)
    ensures
        r.status.0 == status,
        r.final_url == Some(final_url),
        r.headers@ == headers_of_pairs(header_pairs@),
        r.body == text,
        r.body_bytes == Some(body),
        r.response_time.nanos == 0,
{
    let mut headers = HttpHeaders::new();
    let mut i: usize = 0;
    while i < header_pairs.len()
        invariant
            0 <= i <= header_pairs@.len(),
            headers@ == headers_of_pairs(header_pairs@.take(i as int)),
        decreases header_pairs@.len() - i,
    {
        let (k, v) = (header_pairs[i].0.clone(), header_pairs[i].1.clone());
        headers.insert(k, v);
        proof {
            assert(header_pairs@.take(i + 1).drop_last() =~= header_pairs@.take(i as int));
        }
        i = i + 1;
    }
    proof {
        assert(header_pairs@.take(header_pairs@.len() as int) =~= header_pairs@);
    }
    HttpResponse {
        status: StatusCode(status),
        headers,
        body: text,
        body_bytes: Some(body),
        response_time: TimeSpan { nanos: 0 },
        final_url: Some(final_url),
    }
}

/// The headers that setting each pair in order gives.
pub open spec fn headers_of_pairs(pairs: Seq<(String, String)>) -> Map<Seq<char>, Seq<char>>
    decreases pairs.len(),
{
    if pairs.len() == 0 {
        Map::empty()
    } else {
        headers_of_pairs(pairs.drop_last()).insert(
            crate::text::lowercase_of(pairs.last().0@),
            pairs.last().1@,
        )
    }
}

/// The HTTP client.
pub struct HttpClient {
    config: HttpClientConfig,
}

/// A request as it is handed to the network: method, URL, headers, body and
/// the connection settings of the client.
pub struct PreparedRequest {
    pub method: HttpMethod,
    pub url: String,
    /// The headers of this request, which take precedence over the defaults.
    pub headers: Vec<(String, String)>,
    pub body: Option<String>,
    pub timeout: TimeSpan,
    pub connect_timeout: TimeSpan,
    pub user_agent: String,
    /// The client's default headers, sent unless the request sets them.
    pub default_headers: Vec<(String, String)>,
    pub proxy: Option<String>,
    /// How many redirects are followed; none when redirects are not followed.
    pub redirect_limit: Option<u32>,
    pub accept_invalid_certs: bool,
}

/// `pairs` lists the entries of `h`, in order.
pub open spec fn lists_entries(pairs: Seq<(String, String)>, h: HttpHeaders) -> bool {
    &&& pairs.len() == h.entries().len()
    &&& forall|i: int| 0 <= i < pairs.len() ==> #[trigger] h.entries()[i] == (pairs[i].0@, pairs[i].1@)
}

/// The name of a method as `Debug` writes it.
pub open spec fn method_debug_name(m: HttpMethod) -> Seq<char> {
    match m {
        HttpMethod::Get => "Get"@,
        HttpMethod::Post => "Post"@,
        HttpMethod::Put => "Put"@,
        HttpMethod::Delete => "Delete"@,
        HttpMethod::Patch => "Patch"@,
        HttpMethod::Head => "Head"@,
        HttpMethod::Options => "Options"@,
        HttpMethod::Connect => "Connect"@,
        HttpMethod::Trace => "Trace"@,
    }
}

/// The methods that the client sends.
pub open spec fn is_sendable(m: HttpMethod) -> bool {
    match m {
        HttpMethod::Options | HttpMethod::Connect | HttpMethod::Trace => false,
        _ => true,
    }
}

/// The client sends exactly GET, POST, PUT, DELETE, PATCH and HEAD; it
/// refuses OPTIONS, CONNECT and TRACE.
pub proof fn law_sendable_methods(m: HttpMethod)
    ensures
        is_sendable(m) <==> (m == HttpMethod::Get || m == HttpMethod::Post || m == HttpMethod::Put || m
            == HttpMethod::Delete || m == HttpMethod::Patch || m == HttpMethod::Head),
        !is_sendable(m) <==> (m == HttpMethod::Options || m == HttpMethod::Connect || m == HttpMethod::Trace),
{
}

/// The message for a refused method names it as `Debug` writes it, after
/// "الطريقة غير مدعومة: ".
pub proof fn law_unsupported_method_messages()
    ensures
        unsupported_method_message(HttpMethod::Options) == "الطريقة غير مدعومة: "@ + "Options"@,
        unsupported_method_message(HttpMethod::Connect) == "الطريقة غير مدعومة: "@ + "Connect"@,
        unsupported_method_message(HttpMethod::Trace) == "الطريقة غير مدعومة: "@ + "Trace"@,
{
}

/// The message for a method that the client does not send.
pub open spec fn unsupported_method_message(m: HttpMethod) -> Seq<char> {
    "الطريقة غير مدعومة: "@ + method_debug_name(m)
}

/// What the client does after an attempt.
#[derive(Debug, Clone, Copy, PartialEq, Eq, Structural)]
pub enum RetryStep {
    /// Wait `delay`, then try again.
    Retry { delay: TimeSpan },
    /// Stop and give back the last result.
    Done,
}

/// What the client does after an attempt, with settings `cfg`, when
/// `retries_done` retries have been made: retry after the configured delay
/// while the last attempt failed and fewer than `max_retries` retries have
/// been made.
pub open spec fn retry_decision(cfg: HttpClientConfig, retries_done: u32, last_failed: bool) -> RetryStep {
    if last_failed && retries_done < cfg.max_retries {
        RetryStep::Retry { delay: cfg.retry_delay }
    } else {
        RetryStep::Done
    }
}

/// The number of attempts a request makes from attempt `k` on, when attempt
/// `j` fails exactly when `failed[j]` holds and each decision is
/// `retry_decision`.
pub open spec fn attempts_from(cfg: HttpClientConfig, failed: Seq<bool>, k: nat) -> nat
    decreases cfg.max_retries - k,
{
    if k < cfg.max_retries && retry_decision(cfg, k as u32, failed[k as int]) is Retry {
        attempts_from(cfg, failed, k + 1)
    } else {
        k + 1
    }
}

proof fn lemma_attempts_from(cfg: HttpClientConfig, failed: Seq<bool>, k: nat)
    requires
        k <= cfg.max_retries,
        failed.len() > cfg.max_retries,
    ensures
        k + 1 <= attempts_from(cfg, failed, k) <= cfg.max_retries + 1,
        forall|j: int| k <= j < attempts_from(cfg, failed, k) - 1 ==> #[trigger] failed[j],
        attempts_from(cfg, failed, k) <= cfg.max_retries ==> !failed[attempts_from(cfg, failed, k) - 1],
    decreases cfg.max_retries - k,
{
    if k < cfg.max_retries && retry_decision(cfg, k as u32, failed[k as int]) is Retry {
        lemma_attempts_from(cfg, failed, k + 1);
    }
}

/// A request makes at least one attempt and at most `max_retries + 1`; every
/// attempt but the last failed; and it stops before the limit only on an
/// attempt that succeeded.
pub proof fn law_retry_attempts_bounded(cfg: HttpClientConfig, failed: Seq<bool>)
    requires
        failed.len() > cfg.max_retries,
    ensures
        1 <= attempts_from(cfg, failed, 0) <= cfg.max_retries + 1,
        forall|j: int| 0 <= j < attempts_from(cfg, failed, 0) - 1 ==> #[trigger] failed[j],
        attempts_from(cfg, failed, 0) <= cfg.max_retries ==> !failed[attempts_from(cfg, failed, 0) - 1],
{
    lemma_attempts_from(cfg, failed, 0);
}

impl HttpClient {
    /// The settings.
    pub closed spec fn settings(&self) -> HttpClientConfig {
        self.config
    }

    /// A client with the default settings.
    pub fn new() -> (c: Self)
        ensures
            is_default_config(c.settings()),
    {
        HttpClient { config: HttpClientConfig::default() }
    }

    /// A client with the given settings.
    pub fn with_config(config: HttpClientConfig) -> (c: Self)
        ensures
            c.settings() == config,
    {
        HttpClient { config }
    }

    /// The settings.
    pub fn config(&self) -> (r: &HttpClientConfig)
        ensures
            *r == self.settings(),
    {
        &self.config
    }

    /// The request to send: only GET, POST, PUT, DELETE, PATCH and HEAD are
    /// sent; it carries the client's timeouts, user agent, default headers,
    /// proxy and redirect policy, and checks certificates unless the settings
    /// say otherwise.
    pub fn prepare(&self, method: HttpMethod, url: &str, body: Option<&str>, headers: Option<&HttpHeaders>) -> (r: Result<PreparedRequest, String>)
        ensures
            !is_sendable(method) ==> (r matches Err(e) && e@ == unsupported_method_message(method)),
            is_sendable(method) ==> (r matches Ok(p) && {
                &&& p.method == method
                &&& p.url@ == url@
                &&& p.timeout == self.settings().timeout
                &&& p.connect_timeout == self.settings().connect_timeout
                &&& p.user_agent@ == self.settings().user_agent@
                &&& lists_entries(p.default_headers@, self.settings().default_headers)
                &&& p.proxy == self.settings().proxy
                &&& p.redirect_limit == (if self.settings().follow_redirects {
                    Some(self.settings().max_redirects)
                } else {
                    None
                })
                &&& p.accept_invalid_certs == !self.settings().verify_ssl
                &&& match body {
                    Some(b) => p.body matches Some(pb) && pb@ == b@,
                    None => p.body is None,
                }
                &&& match headers {
                    Some(h) => lists_entries(p.headers@, *h),
                    None => p.headers@.len() == 0,
                }
            }),
    {
        let sendable = match method {
            HttpMethod::Options | HttpMethod::Connect | HttpMethod::Trace => false,
            _ => true,
        };
        if !sendable {
            let mut e = String::new();
            push_str(&mut e, "الطريقة غير مدعومة: ");
            let name = match method {
                HttpMethod::Get => "Get",
                HttpMethod::Post => "Post",
                HttpMethod::Put => "Put",
                HttpMethod::Delete => "Delete",
                HttpMethod::Patch => "Patch",
                HttpMethod::Head => "Head",
                HttpMethod::Options => "Options",
                HttpMethod::Connect => "Connect",
                HttpMethod::Trace => "Trace",
            };
            push_str(&mut e, name);
            assert(e@ =~= unsupported_method_message(method));
            return Err(e);
        }
        let pairs = match headers {
            Some(h) => h.iter(),
            None => Vec::new(),
        };
        let b = match body {
            Some(b) => Some(string_of(b)),
            None => None,
        };
        let redirect_limit = if self.config.follow_redirects {
            Some(self.config.max_redirects)
        } else {
            None
        };
        let proxy = match &self.config.proxy {
            Some(p) => Some(p.clone()),
            None => None,
        };
        Ok(PreparedRequest {
            method,
            url: string_of(url),
            headers: pairs,
            body: b,
            timeout: self.config.timeout,
            connect_timeout: self.config.connect_timeout,
            user_agent: self.config.user_agent.clone(),
            default_headers: self.config.default_headers.iter(),
            proxy,
            redirect_limit,
            accept_invalid_certs: !self.config.verify_ssl,
        })
    }

    /// What to do after an attempt when `retries_done` retries have been
    /// made: retry after the configured delay while the last attempt failed
    /// and fewer than `max_retries` retries have been made.
    pub fn retry_step(&self, retries_done: u32, last_failed: bool) -> (s: RetryStep)
        ensures
            s == retry_decision(self.settings(), retries_done, last_failed),
    {
        if last_failed && retries_done < self.config.max_retries {
            RetryStep::Retry { delay: self.config.retry_delay }
        } else {
            RetryStep::Done
        }
    }

    /// The result of a request once its time is known: a response gets the
    /// measured time; an error stays as it is.
    pub fn finish(result: Result<HttpResponse, String>, elapsed: TimeSpan) -> (r: Result<HttpResponse, String>)
        ensures
            match result {
                Ok(res) => r matches Ok(x) && x == (HttpResponse { response_time: elapsed, ..res }),
                Err(e) => r == Err::<HttpResponse, String>(e),
            },
    {
        match result {
            Ok(res) => {
                let mut res = res;
                res.response_time = elapsed;
                Ok(res)
            },
            Err(e) => Err(e),
        }
    }
}

impl Default for HttpClient {
    fn default() -> (c: Self)
        ensures
            is_default_config(c.settings()),
    {
        HttpClient::new()
    }
}

/// A client with the default settings (see `HttpClient::new`).
pub fn new_client() -> (c: HttpClient)
    ensures
        is_default_config(c.settings()),
{
    HttpClient::new()
}

} // verus!
