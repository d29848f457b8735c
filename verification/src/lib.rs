//! An HTTP toolkit: methods, headers, status codes and content types, a client
//! configuration and response model, cookies, middleware, a routing server,
//! sessions and WebSocket bookkeeping.
use vstd::prelude::*;

pub mod client;
pub mod clock;
pub mod cookies;
pub mod middleware;
pub mod server;
pub mod session;
pub mod string_map;
pub mod text;
pub mod websocket;

pub use crate::client::{new_client, HttpClient, HttpClientConfig, HttpResponse, PreparedRequest, RetryStep};
pub use crate::cookies::{parse_cookies, Cookie};
pub use crate::middleware::{auth_checker, cors, gzip, log_line, rate_limit, Cors, RateLimit, RateLimiter};
pub use crate::server::{
    match_pattern, new_response, new_server, Handler, HttpRequest, HttpResponseBuilder, HttpServer,
    Middleware, MiddlewareFn, RealHttpServer, Route, RouteHandler,
};
pub use crate::session::{Session, SessionManager};
pub use crate::string_map::StringMap;
pub use crate::websocket::{WebSocketConnection, WebSocketMessage, WebSocketServer, WebSocketState};

use crate::text::{ascii_lower, chars_equal, chars_of, lowercase_of, string_of, to_lowercase};
use vstd::utf8::is_ascii_chars;

verus! {

/// An HTTP request method.
#[derive(Debug, Clone, Copy, PartialEq, Eq, Structural)]
pub enum HttpMethod {
    Get,
    Post,
    Put,
    Delete,
    Patch,
    Head,
    Options,
    Connect,
    Trace,
}

/// The method that a name denotes: the Arabic verb or the upper-case English
/// name of each method.
pub open spec fn method_from_name(s: Seq<char>) -> Option<HttpMethod> {
    if s == "احضر"@ || s == "GET"@ {
        Some(HttpMethod::Get)
    } else if s == "ارسل"@ || s == "POST"@ {
        Some(HttpMethod::Post)
    } else if s == "ضع"@ || s == "PUT"@ {
        Some(HttpMethod::Put)
    } else if s == "احذف"@ || s == "DELETE"@ {
        Some(HttpMethod::Delete)
    } else if s == "عدل"@ || s == "PATCH"@ {
        Some(HttpMethod::Patch)
    } else if s == "رأس"@ || s == "HEAD"@ {
        Some(HttpMethod::Head)
    } else if s == "خيارات"@ || s == "OPTIONS"@ {
        Some(HttpMethod::Options)
    } else if s == "اتصل"@ || s == "CONNECT"@ {
        Some(HttpMethod::Connect)
    } else if s == "تتبع"@ || s == "TRACE"@ {
        Some(HttpMethod::Trace)
    } else {
        None
    }
}

/// The upper-case English name of a method.
pub open spec fn method_name(m: HttpMethod) -> Seq<char> {
    match m {
        HttpMethod::Get => "GET"@,
        HttpMethod::Post => "POST"@,
        HttpMethod::Put => "PUT"@,
        HttpMethod::Delete => "DELETE"@,
        HttpMethod::Patch => "PATCH"@,
        HttpMethod::Head => "HEAD"@,
        HttpMethod::Options => "OPTIONS"@,
        HttpMethod::Connect => "CONNECT"@,
        HttpMethod::Trace => "TRACE"@,
    }
}

impl HttpMethod {
    /// The method named by `name` (Arabic verb or English name), if any.
    pub fn from_arabic(name: &str) -> (r: Option<HttpMethod>)
        ensures
            r == method_from_name(name@),
    {
        let v = chars_of(name);
        if chars_equal(&v, "احضر") || chars_equal(&v, "GET") {
            Some(HttpMethod::Get)
        } else if chars_equal(&v, "ارسل") || chars_equal(&v, "POST") {
            Some(HttpMethod::Post)
        } else if chars_equal(&v, "ضع") || chars_equal(&v, "PUT") {
            Some(HttpMethod::Put)
        } else if chars_equal(&v, "احذف") || chars_equal(&v, "DELETE") {
            Some(HttpMethod::Delete)
        } else if chars_equal(&v, "عدل") || chars_equal(&v, "PATCH") {
            Some(HttpMethod::Patch)
        } else if chars_equal(&v, "رأس") || chars_equal(&v, "HEAD") {
            Some(HttpMethod::Head)
        } else if chars_equal(&v, "خيارات") || chars_equal(&v, "OPTIONS") {
            Some(HttpMethod::Options)
        } else if chars_equal(&v, "اتصل") || chars_equal(&v, "CONNECT") {
            Some(HttpMethod::Connect)
        } else if chars_equal(&v, "تتبع") || chars_equal(&v, "TRACE") {
            Some(HttpMethod::Trace)
        } else {
            None
        }
    }

    /// The upper-case English name, as the method is written in a request line.
    pub fn as_str(&self) -> (r: &'static str)
        ensures
            r@ == method_name(*self),
    {
        match self {
            HttpMethod::Get => "GET",
            HttpMethod::Post => "POST",
            HttpMethod::Put => "PUT",
            HttpMethod::Delete => "DELETE",
            HttpMethod::Patch => "PATCH",
            HttpMethod::Head => "HEAD",
            HttpMethod::Options => "OPTIONS",
            HttpMethod::Connect => "CONNECT",
            HttpMethod::Trace => "TRACE",
        }
    }
}

/// Reading back the name of a method gives the method.
pub proof fn law_method_name_round_trip(m: HttpMethod)
    ensures
        method_from_name(method_name(m)) == Some(m),
{
    reveal_strlit("احضر");
    reveal_strlit("GET");
    reveal_strlit("ارسل");
    reveal_strlit("POST");
    reveal_strlit("ضع");
    reveal_strlit("PUT");
    reveal_strlit("احذف");
    reveal_strlit("DELETE");
    reveal_strlit("عدل");
    reveal_strlit("PATCH");
    reveal_strlit("رأس");
    reveal_strlit("HEAD");
    reveal_strlit("خيارات");
    reveal_strlit("OPTIONS");
    reveal_strlit("اتصل");
    reveal_strlit("CONNECT");
    reveal_strlit("تتبع");
    reveal_strlit("TRACE");
    assert("احضر"@.len() == 4 && "احضر"@[0] == 'ا');
    assert("GET"@.len() == 3 && "GET"@[0] == 'G');
    assert("ارسل"@.len() == 4 && "ارسل"@[0] == 'ا');
    assert("POST"@.len() == 4 && "POST"@[0] == 'P');
    assert("ضع"@.len() == 2 && "ضع"@[0] == 'ض');
    assert("PUT"@.len() == 3 && "PUT"@[0] == 'P');
    assert("احذف"@.len() == 4 && "احذف"@[0] == 'ا');
    assert("DELETE"@.len() == 6 && "DELETE"@[0] == 'D');
    assert("عدل"@.len() == 3 && "عدل"@[0] == 'ع');
    assert("PATCH"@.len() == 5 && "PATCH"@[0] == 'P');
    assert("رأس"@.len() == 3 && "رأس"@[0] == 'ر');
    assert("HEAD"@.len() == 4 && "HEAD"@[0] == 'H');
    assert("خيارات"@.len() == 6 && "خيارات"@[0] == 'خ');
    assert("OPTIONS"@.len() == 7 && "OPTIONS"@[0] == 'O');
    assert("اتصل"@.len() == 4 && "اتصل"@[0] == 'ا');
    assert("CONNECT"@.len() == 7 && "CONNECT"@[0] == 'C');
    assert("تتبع"@.len() == 4 && "تتبع"@[0] == 'ت');
    assert("TRACE"@.len() == 5 && "TRACE"@[0] == 'T');
}


/// A span of time, held as a whole number of nanoseconds.
#[derive(Debug, Clone, Copy, PartialEq, Eq, Structural)]
pub struct TimeSpan {
    pub nanos: u128,
}

impl TimeSpan {
    /// `secs` seconds.
    pub fn from_secs(secs: u64) -> (t: TimeSpan)
        ensures
            t.nanos == secs * 1_000_000_000,
    {
        TimeSpan { nanos: (secs as u128) * 1_000_000_000 }
    }

    /// `millis` milliseconds.
    pub fn from_millis(millis: u64) -> (t: TimeSpan)
        ensures
            t.nanos == millis * 1_000_000,
    {
        TimeSpan { nanos: (millis as u128) * 1_000_000 }
    }

    /// `nanos` nanoseconds.
    pub fn from_nanos(nanos: u128) -> (t: TimeSpan)
        ensures
            t.nanos == nanos,
    {
        TimeSpan { nanos }
    }
}

/// HTTP headers: a map whose keys are kept in lower case, so that names that
/// differ only in case denote the same header.
#[derive(Debug)]
pub struct HttpHeaders {
    headers: StringMap<String>,
}

/// The pairs of a map's key and value sequences, values taken by their view.
pub open spec fn text_entries(m: StringMap<String>) -> Seq<(Seq<char>, Seq<char>)> {
    Seq::new(m.key_seq().len(), |i: int| (m.key_seq()[i], m.val_seq()[i]@))
}

impl View for HttpHeaders {
    type V = Map<Seq<char>, Seq<char>>;

    /// Lower-cased name to value.
    closed spec fn view(&self) -> Map<Seq<char>, Seq<char>> {
        self.headers@.map_values(|v: String| v@)
    }
}

impl HttpHeaders {
    #[verifier::type_invariant]
    spec fn inv(self) -> bool {
        self.headers.wf()
    }

    /// The (lower-cased name, value) pairs in the order in which their names
    /// were first set.
    pub closed spec fn entries(&self) -> Seq<(Seq<char>, Seq<char>)> {
        text_entries(self.headers)
    }

    proof fn lemma_dom(&self)
        ensures
            self@.dom() == self.headers@.dom(),
    {
        assert(self@.dom() =~= self.headers@.dom());
    }

    /// No headers.
    pub fn new() -> (h: Self)
        ensures
            h@ == Map::<Seq<char>, Seq<char>>::empty(),
            h@.dom().finite(),
    {
        let h = HttpHeaders { headers: StringMap::new() };
        assert(h@ =~= Map::<Seq<char>, Seq<char>>::empty());
        h
    }

    /// Sets the header `key` (compared without regard to case) to `value`.
    pub fn insert(&mut self, key: String, value: String)
        ensures
            final(self)@ == old(self)@.insert(lowercase_of(key@), value@),
            is_ascii_chars(key@) ==> final(self)@ == old(self)@.insert(ascii_lower(key@), value@),
            final(self)@.dom().finite(),
    {
        proof {
            use_type_invariant(&*self);
        }
        let k = to_lowercase(key.as_str());
        let ghost v = value@;
        let mut tmp = HttpHeaders::new();
        std::mem::swap(self, &mut tmp);
        proof {
            use_type_invariant(&tmp);
        }
        let HttpHeaders { mut headers } = tmp;
        headers.insert(k, value);
        *self = HttpHeaders { headers };
        assert(self@ =~= old(self)@.insert(lowercase_of(key@), v));
        proof {
            self.headers.lemma_wf_facts();
            self.lemma_dom();
        }
    }

    /// The value of the header `key`, compared without regard to case.
    pub fn get(&self, key: &str) -> (r: Option<&String>)
        ensures
            r.is_some() == self@.contains_key(lowercase_of(key@)),
            r matches Some(v) ==> v@ == self@[lowercase_of(key@)],
            is_ascii_chars(key@) ==> lowercase_of(key@) == ascii_lower(key@),
    {
        proof {
            use_type_invariant(self);
        }
        let k = to_lowercase(key);
        self.headers.get(k.as_str())
    }

    /// Removes the header `key`, compared without regard to case, and gives
    /// back its value.
    pub fn remove(&mut self, key: &str) -> (r: Option<String>)
        ensures
            final(self)@ == old(self)@.remove(lowercase_of(key@)),
            r.is_some() == old(self)@.contains_key(lowercase_of(key@)),
            r matches Some(v) ==> v@ == old(self)@[lowercase_of(key@)],
            is_ascii_chars(key@) ==> lowercase_of(key@) == ascii_lower(key@),
            final(self)@.dom().finite(),
    {
        proof {
            use_type_invariant(&*self);
        }
        let k = to_lowercase(key);
        let mut tmp = HttpHeaders::new();
        std::mem::swap(self, &mut tmp);
        proof {
            use_type_invariant(&tmp);
        }
        let HttpHeaders { mut headers } = tmp;
        let r = headers.remove(k.as_str());
        *self = HttpHeaders { headers };
        assert(self@ =~= old(self)@.remove(lowercase_of(key@)));
        proof {
            self.headers.lemma_wf_facts();
            self.lemma_dom();
        }
        r
    }

    /// Whether the header `key` is present, compared without regard to case.
    pub fn contains(&self, key: &str) -> (b: bool)
        ensures
            b == self@.contains_key(lowercase_of(key@)),
            is_ascii_chars(key@) ==> lowercase_of(key@) == ascii_lower(key@),
    {
        proof {
            use_type_invariant(self);
        }
        let k = to_lowercase(key);
        self.headers.contains_key(k.as_str())
    }

    /// The entries as (lower-cased name, value) pairs, in the order in which
    /// their names were first set.
    pub fn iter(&self) -> (r: Vec<(String, String)>)
        ensures
            r@.len() == self@.len(),
            forall|i: int|
                0 <= i < r@.len() ==> #[trigger] self@.contains_key(r@[i].0@) && self@[r@[i].0@]
                    == r@[i].1@,
            forall|i: int, j: int| 0 <= i < j < r@.len() ==> #[trigger] r@[i].0@ != #[trigger] r@[j].0@,
            forall|k: Seq<char>| #[trigger] self@.contains_key(k) ==> exists|i: int| 0 <= i < r@.len() && r@[i].0@ == k,
            forall|i: int| 0 <= i < r@.len() ==> #[trigger] self.entries()[i] == (r@[i].0@, r@[i].1@),
            r@.len() == self.entries().len(),
    {
        proof {
            use_type_invariant(self);
            self.headers.lemma_wf_facts();
            self.lemma_dom();
        }
        let mut r: Vec<(String, String)> = Vec::new();
        let n = self.headers.len();
        let mut i: usize = 0;
        while i < n
            invariant
                self.headers.wf(),
                n == self.headers.spec_len(),
                n == self.headers.val_seq().len(),
                0 <= i <= n,
                r@.len() == i,
                forall|j: int| 0 <= j < i ==> #[trigger] r@[j].0@ == self.headers.key_seq()[j] && r@[j].1@ == self.headers.val_seq()[j]@,
            decreases n - i,
        {
            let k = self.headers.key_at(i).clone();
            let v = self.headers.value_at(i).clone();
            let ghost r0 = r@;
            r.push((k, v));
            assert(r@ == r0.push((k, v)));
            assert forall|j: int| 0 <= j < i + 1 implies #[trigger] r@[j].0@ == self.headers.key_seq()[j] && r@[j].1@
                == self.headers.val_seq()[j]@ by {
                if j < i {
                    assert(r@[j] == r0[j]);
                }
            }
            i = i + 1;
        }
        proof {
            self.headers.lemma_wf_facts();
            assert forall|i: int, j: int| 0 <= i < j < r@.len() implies #[trigger] r@[i].0@ != #[trigger] r@[j].0@ by {
                assert(self.headers.key_seq()[i] != self.headers.key_seq()[j]);
            }
            assert forall|i: int| 0 <= i < r@.len() implies #[trigger] self@.contains_key(r@[i].0@) && self@[r@[i].0@]
                    == r@[i].1@ by {
                assert(self.headers.key_seq().contains(self.headers.key_seq()[i]));
            }
            assert forall|k: Seq<char>| #[trigger] self@.contains_key(k) implies exists|i: int| 0 <= i < r@.len() && r@[i].0@ == k by {
                let i = self.headers.key_seq().index_of(k);
                assert(r@[i].0@ == k);
            }
        }
        r
    }

    /// The underlying map from lower-cased names to values.
    pub fn as_map(&self) -> (m: &StringMap<String>)
        ensures
            m.wf(),
            m@.map_values(|v: String| v@) == self@,
            text_entries(*m) == self.entries(),
    {
        proof {
            use_type_invariant(self);
        }
        &self.headers
    }

    /// The number of headers.
    pub fn len(&self) -> (n: usize)
        ensures
            n == self@.len(),
            self@.dom().finite(),
    {
        proof {
            use_type_invariant(self);
            self.headers.lemma_wf_facts();
            self.lemma_dom();
        }
        self.headers.len()
    }

    /// Whether there is no header.
    pub fn is_empty(&self) -> (b: bool)
        ensures
            b == (self@.len() == 0),
    {
        proof {
            use_type_invariant(self);
            self.lemma_dom();
        }
        self.headers.is_empty()
    }
}

impl Clone for HttpHeaders {
    fn clone(&self) -> (r: Self)
        ensures
            r@ == self@,
    {
        proof {
            use_type_invariant(self);
        }
        let m = self.headers.clone();
        proof {
            assert forall|i: int| 0 <= i < m.val_seq().len() implies m.val_seq()[i] == self.headers.val_seq()[i] by {
                assert(cloned::<String>(self.headers.val_seq()[i], m.val_seq()[i]));
            }
            assert(m.val_seq() =~= self.headers.val_seq());
        }
        let r = HttpHeaders { headers: m };
        assert(r@ =~= self@);
        r
    }
}

impl Default for HttpHeaders {
    fn default() -> (h: Self)
        ensures
            h@ == Map::<Seq<char>, Seq<char>>::empty(),
    {
        HttpHeaders::new()
    }
}


/// An HTTP status code.
#[derive(Debug, Clone, Copy, PartialEq, Eq, Structural)]
pub struct StatusCode(pub u16);

/// The English reason phrase of a status code.
pub open spec fn reason_phrase_of(code: u16) -> Seq<char> {
    if code == 200 {
        "OK"@
    } else if code == 201 {
        "Created"@
    } else if code == 202 {
        "Accepted"@
    } else if code == 204 {
        "No Content"@
    } else if code == 301 {
        "Moved Permanently"@
    } else if code == 302 {
        "Found"@
    } else if code == 304 {
        "Not Modified"@
    } else if code == 400 {
        "Bad Request"@
    } else if code == 401 {
        "Unauthorized"@
    } else if code == 403 {
        "Forbidden"@
    } else if code == 404 {
        "Not Found"@
    } else if code == 405 {
        "Method Not Allowed"@
    } else if code == 408 {
        "Request Timeout"@
    } else if code == 409 {
        "Conflict"@
    } else if code == 429 {
        "Too Many Requests"@
    } else if code == 500 {
        "Internal Server Error"@
    } else if code == 501 {
        "Not Implemented"@
    } else if code == 502 {
        "Bad Gateway"@
    } else if code == 503 {
        "Service Unavailable"@
    } else if code == 504 {
        "Gateway Timeout"@
    } else {
        "Unknown"@
    }
}

/// The Arabic reason phrase of a status code.
pub open spec fn reason_phrase_arabic_of(code: u16) -> Seq<char> {
    if code == 200 {
        "نجاح"@
    } else if code == 201 {
        "تم الإنشاء"@
    } else if code == 202 {
        "مقبول"@
    } else if code == 204 {
        "بدون محتوى"@
    } else if code == 301 {
        "نقل دائم"@
    } else if code == 302 {
        "وجد"@
    } else if code == 304 {
        "لم يعدل"@
    } else if code == 400 {
        "طلب غير صالح"@
    } else if code == 401 {
        "غير مصرح"@
    } else if code == 403 {
        "ممنوع"@
    } else if code == 404 {
        "غير موجود"@
    } else if code == 405 {
        "الطريقة غير مسموحة"@
    } else if code == 408 {
        "انتهت مهلة الطلب"@
    } else if code == 409 {
        "تعارض"@
    } else if code == 429 {
        "طلبات كثيرة جداً"@
    } else if code == 500 {
        "خطأ داخلي في الخادم"@
    } else if code == 501 {
        "غير منفذ"@
    } else if code == 502 {
        "بوابة سيئة"@
    } else if code == 503 {
        "الخدمة غير متاحة"@
    } else if code == 504 {
        "انتهت مهلة البوابة"@
    } else {
        "غير معروف"@
    }
}

#[allow(non_snake_case)]
impl StatusCode {
    /// Status 200.
    pub fn OK() -> (s: StatusCode)
        ensures
            s.0 == 200,
    {
        StatusCode(200)
    }

    /// Status 201.
    pub fn CREATED() -> (s: StatusCode)
        ensures
            s.0 == 201,
    {
        StatusCode(201)
    }

    /// Status 202.
    pub fn ACCEPTED() -> (s: StatusCode)
        ensures
            s.0 == 202,
    {
        StatusCode(202)
    }

    /// Status 204.
    pub fn NO_CONTENT() -> (s: StatusCode)
        ensures
            s.0 == 204,
    {
        StatusCode(204)
    }

    /// Status 301.
    pub fn MOVED_PERMANENTLY() -> (s: StatusCode)
        ensures
            s.0 == 301,
    {
        StatusCode(301)
    }

    /// Status 302.
    pub fn FOUND() -> (s: StatusCode)
        ensures
            s.0 == 302,
    {
        StatusCode(302)
    }

    /// Status 303.
    pub fn SEE_OTHER() -> (s: StatusCode)
        ensures
            s.0 == 303,
    {
        StatusCode(303)
    }

    /// Status 304.
    pub fn NOT_MODIFIED() -> (s: StatusCode)
        ensures
            s.0 == 304,
    {
        StatusCode(304)
    }

    /// Status 307.
    pub fn TEMPORARY_REDIRECT() -> (s: StatusCode)
        ensures
            s.0 == 307,
    {
        StatusCode(307)
    }

    /// Status 308.
    pub fn PERMANENT_REDIRECT() -> (s: StatusCode)
        ensures
            s.0 == 308,
    {
        StatusCode(308)
    }

    /// Status 400.
    pub fn BAD_REQUEST() -> (s: StatusCode)
        ensures
            s.0 == 400,
    {
        StatusCode(400)
    }

    /// Status 401.
    pub fn UNAUTHORIZED() -> (s: StatusCode)
        ensures
            s.0 == 401,
    {
        StatusCode(401)
    }

    /// Status 403.
    pub fn FORBIDDEN() -> (s: StatusCode)
        ensures
            s.0 == 403,
    {
        StatusCode(403)
    }

    /// Status 404.
    pub fn NOT_FOUND() -> (s: StatusCode)
        ensures
            s.0 == 404,
    {
        StatusCode(404)
    }

    /// Status 405.
    pub fn METHOD_NOT_ALLOWED() -> (s: StatusCode)
        ensures
            s.0 == 405,
    {
        StatusCode(405)
    }

    /// Status 408.
    pub fn REQUEST_TIMEOUT() -> (s: StatusCode)
        ensures
            s.0 == 408,
    {
        StatusCode(408)
    }

    /// Status 409.
    pub fn CONFLICT() -> (s: StatusCode)
        ensures
            s.0 == 409,
    {
        StatusCode(409)
    }

    /// Status 410.
    pub fn GONE() -> (s: StatusCode)
        ensures
            s.0 == 410,
    {
        StatusCode(410)
    }

    /// Status 413.
    pub fn PAYLOAD_TOO_LARGE() -> (s: StatusCode)
        ensures
            s.0 == 413,
    {
        StatusCode(413)
    }

    /// Status 414.
    pub fn URI_TOO_LONG() -> (s: StatusCode)
        ensures
            s.0 == 414,
    {
        StatusCode(414)
    }

    /// Status 415.
    pub fn UNSUPPORTED_MEDIA_TYPE() -> (s: StatusCode)
        ensures
            s.0 == 415,
    {
        StatusCode(415)
    }

    /// Status 429.
    pub fn TOO_MANY_REQUESTS() -> (s: StatusCode)
        ensures
            s.0 == 429,
    {
        StatusCode(429)
    }

    /// Status 500.
    pub fn INTERNAL_SERVER_ERROR() -> (s: StatusCode)
        ensures
            s.0 == 500,
    {
        StatusCode(500)
    }

    /// Status 501.
    pub fn NOT_IMPLEMENTED() -> (s: StatusCode)
        ensures
            s.0 == 501,
    {
        StatusCode(501)
    }

    /// Status 502.
    pub fn BAD_GATEWAY() -> (s: StatusCode)
        ensures
            s.0 == 502,
    {
        StatusCode(502)
    }

    /// Status 503.
    pub fn SERVICE_UNAVAILABLE() -> (s: StatusCode)
        ensures
            s.0 == 503,
    {
        StatusCode(503)
    }

    /// Status 504.
    pub fn GATEWAY_TIMEOUT() -> (s: StatusCode)
        ensures
            s.0 == 504,
    {
        StatusCode(504)
    }

    /// Status 505.
    pub fn HTTP_VERSION_NOT_SUPPORTED() -> (s: StatusCode)
        ensures
            s.0 == 505,
    {
        StatusCode(505)
    }

    /// 2xx.
    pub fn is_success(&self) -> (b: bool)
        ensures
            b == (200 <= self.0 && self.0 < 300),
    {
        self.0 >= 200 && self.0 < 300
    }

    /// 3xx.
    pub fn is_redirect(&self) -> (b: bool)
        ensures
            b == (300 <= self.0 && self.0 < 400),
    {
        self.0 >= 300 && self.0 < 400
    }

    /// 4xx.
    pub fn is_client_error(&self) -> (b: bool)
        ensures
            b == (400 <= self.0 && self.0 < 500),
    {
        self.0 >= 400 && self.0 < 500
    }

    /// 5xx.
    pub fn is_server_error(&self) -> (b: bool)
        ensures
            b == (500 <= self.0 && self.0 < 600),
    {
        self.0 >= 500 && self.0 < 600
    }

    /// The English reason phrase; "Unknown" for codes without one.
    pub fn reason_phrase(&self) -> (r: &'static str)
        ensures
            r@ == reason_phrase_of(self.0),
    {
        match self.0 {
            200 => "OK",
            201 => "Created",
            202 => "Accepted",
            204 => "No Content",
            301 => "Moved Permanently",
            302 => "Found",
            304 => "Not Modified",
            400 => "Bad Request",
            401 => "Unauthorized",
            403 => "Forbidden",
            404 => "Not Found",
            405 => "Method Not Allowed",
            408 => "Request Timeout",
            409 => "Conflict",
            429 => "Too Many Requests",
            500 => "Internal Server Error",
            501 => "Not Implemented",
            502 => "Bad Gateway",
            503 => "Service Unavailable",
            504 => "Gateway Timeout",
            _ => "Unknown",
        }
    }

    /// The Arabic reason phrase; "غير معروف" for codes without one.
    pub fn reason_phrase_arabic(&self) -> (r: &'static str)
        ensures
            r@ == reason_phrase_arabic_of(self.0),
    {
        match self.0 {
            200 => "نجاح",
            201 => "تم الإنشاء",
            202 => "مقبول",
            204 => "بدون محتوى",
            301 => "نقل دائم",
            302 => "وجد",
            304 => "لم يعدل",
            400 => "طلب غير صالح",
            401 => "غير مصرح",
            403 => "ممنوع",
            404 => "غير موجود",
            405 => "الطريقة غير مسموحة",
            408 => "انتهت مهلة الطلب",
            409 => "تعارض",
            429 => "طلبات كثيرة جداً",
            500 => "خطأ داخلي في الخادم",
            501 => "غير منفذ",
            502 => "بوابة سيئة",
            503 => "الخدمة غير متاحة",
            504 => "انتهت مهلة البوابة",
            _ => "غير معروف",
        }
    }
}

/// The standard reason phrases, in English and in Arabic, of the status codes
/// the library names; every other code is "Unknown" ("غير معروف").
pub proof fn law_reason_phrases(code: u16)
    ensures
        reason_phrase_of(200) == "OK"@,
        reason_phrase_of(201) == "Created"@,
        reason_phrase_of(202) == "Accepted"@,
        reason_phrase_of(204) == "No Content"@,
        reason_phrase_of(301) == "Moved Permanently"@,
        reason_phrase_of(302) == "Found"@,
        reason_phrase_of(304) == "Not Modified"@,
        reason_phrase_of(400) == "Bad Request"@,
        reason_phrase_of(401) == "Unauthorized"@,
        reason_phrase_of(403) == "Forbidden"@,
        reason_phrase_of(404) == "Not Found"@,
        reason_phrase_of(405) == "Method Not Allowed"@,
        reason_phrase_of(408) == "Request Timeout"@,
        reason_phrase_of(409) == "Conflict"@,
        reason_phrase_of(429) == "Too Many Requests"@,
        reason_phrase_of(500) == "Internal Server Error"@,
        reason_phrase_of(501) == "Not Implemented"@,
        reason_phrase_of(502) == "Bad Gateway"@,
        reason_phrase_of(503) == "Service Unavailable"@,
        reason_phrase_of(504) == "Gateway Timeout"@,
        reason_phrase_arabic_of(200) == "نجاح"@,
        reason_phrase_arabic_of(201) == "تم الإنشاء"@,
        reason_phrase_arabic_of(202) == "مقبول"@,
        reason_phrase_arabic_of(204) == "بدون محتوى"@,
        reason_phrase_arabic_of(301) == "نقل دائم"@,
        reason_phrase_arabic_of(302) == "وجد"@,
        reason_phrase_arabic_of(304) == "لم يعدل"@,
        reason_phrase_arabic_of(400) == "طلب غير صالح"@,
        reason_phrase_arabic_of(401) == "غير مصرح"@,
        reason_phrase_arabic_of(403) == "ممنوع"@,
        reason_phrase_arabic_of(404) == "غير موجود"@,
        reason_phrase_arabic_of(405) == "الطريقة غير مسموحة"@,
        reason_phrase_arabic_of(408) == "انتهت مهلة الطلب"@,
        reason_phrase_arabic_of(409) == "تعارض"@,
        reason_phrase_arabic_of(429) == "طلبات كثيرة جداً"@,
        reason_phrase_arabic_of(500) == "خطأ داخلي في الخادم"@,
        reason_phrase_arabic_of(501) == "غير منفذ"@,
        reason_phrase_arabic_of(502) == "بوابة سيئة"@,
        reason_phrase_arabic_of(503) == "الخدمة غير متاحة"@,
        reason_phrase_arabic_of(504) == "انتهت مهلة البوابة"@,
        !(code == 200 || code == 201 || code == 202 || code == 204 || code == 301
            || code == 302 || code == 304 || code == 400 || code == 401 || code == 403
            || code == 404 || code == 405 || code == 408 || code == 409 || code == 429
            || code == 500 || code == 501 || code == 502 || code == 503 || code == 504)
            ==> reason_phrase_of(code) == "Unknown"@ && reason_phrase_arabic_of(code) == "غير معروف"@,
{
}

/// The kind of a message body.
#[derive(Debug, Clone, PartialEq)]
pub enum ContentType {
    Json,
    Xml,
    Html,
    Text,
    Binary,
    FormData,
    Multipart,
    UrlEncoded,
    Custom(String),
}

/// What `insert` wrote, `get` reads back under any name with the same lower
/// case, and the other headers keep their values.
pub proof fn law_header_read_after_write(
    before: HttpHeaders,
    after: HttpHeaders,
    key: Seq<char>,
    value: Seq<char>,
    probe: Seq<char>,
)
    requires
        after@ == before@.insert(lowercase_of(key), value),
    ensures
        lowercase_of(probe) == lowercase_of(key) ==> after@.contains_key(lowercase_of(probe))
            && after@[lowercase_of(probe)] == value,
        lowercase_of(probe) != lowercase_of(key) ==> (after@.contains_key(lowercase_of(probe))
            == before@.contains_key(lowercase_of(probe)) && (before@.contains_key(lowercase_of(probe))
            ==> after@[lowercase_of(probe)] == before@[lowercase_of(probe)])),
{
}

/// For ASCII names, letter case does not matter: after `insert(key, value)`,
/// `get(probe)` gives `value` whenever `key` and `probe` agree up to the case
/// of ASCII letters.
pub proof fn law_header_names_ignore_ascii_case(
    before: HttpHeaders,
    after: HttpHeaders,
    key: Seq<char>,
    value: Seq<char>,
    probe: Seq<char>,
)
    requires
        is_ascii_chars(key),
        is_ascii_chars(probe),
        ascii_lower(key) == ascii_lower(probe),
        after@ == before@.insert(ascii_lower(key), value),
    ensures
        after@.contains_key(ascii_lower(probe)),
        after@[ascii_lower(probe)] == value,
{
}

/// After `remove(key)`, no name with the same lower case is present.
pub proof fn law_header_gone_after_remove(
    before: HttpHeaders,
    after: HttpHeaders,
    key: Seq<char>,
    probe: Seq<char>,
)
    requires
        after@ == before@.remove(lowercase_of(key)),
        lowercase_of(probe) == lowercase_of(key),
    ensures
        !after@.contains_key(lowercase_of(probe)),
{
}

/// The MIME type that a content type is written as.
pub open spec fn mime_of(ct: ContentType) -> Seq<char> {
    match ct {
        ContentType::Json => "application/json"@,
        ContentType::Xml => "application/xml"@,
        ContentType::Html => "text/html"@,
        ContentType::Text => "text/plain"@,
        ContentType::Binary => "application/octet-stream"@,
        ContentType::FormData => "multipart/form-data"@,
        ContentType::Multipart => "multipart/mixed"@,
        ContentType::UrlEncoded => "application/x-www-form-urlencoded"@,
        ContentType::Custom(s) => s@,
    }
}

/// The content type that a lower-case MIME type names, when it is one of the known ones.
pub open spec fn known_mime(s: Seq<char>) -> Option<ContentType> {
    if s == "application/json"@ {
        Some(ContentType::Json)
    } else if s == "application/xml"@ || s == "text/xml"@ {
        Some(ContentType::Xml)
    } else if s == "text/html"@ {
        Some(ContentType::Html)
    } else if s == "text/plain"@ {
        Some(ContentType::Text)
    } else if s == "application/octet-stream"@ {
        Some(ContentType::Binary)
    } else if s == "multipart/form-data"@ {
        Some(ContentType::FormData)
    } else if s == "multipart/mixed"@ {
        Some(ContentType::Multipart)
    } else if s == "application/x-www-form-urlencoded"@ {
        Some(ContentType::UrlEncoded)
    } else {
        None
    }
}

/// The content type that an Arabic or English short name denotes, when it is one of the known ones.
pub open spec fn known_content_name(s: Seq<char>) -> Option<ContentType> {
    if s == "json"@ || s == "جسون"@ {
        Some(ContentType::Json)
    } else if s == "xml"@ || s == "إكس إم إل"@ {
        Some(ContentType::Xml)
    } else if s == "html"@ || s == "إتش تي إم إل"@ {
        Some(ContentType::Html)
    } else if s == "نص"@ || s == "text"@ {
        Some(ContentType::Text)
    } else if s == "ثنائي"@ || s == "binary"@ {
        Some(ContentType::Binary)
    } else {
        None
    }
}

impl ContentType {
    /// The MIME type, as written in a `Content-Type` header.
    pub fn to_mime(&self) -> (r: String)
        ensures
            r@ == mime_of(*self),
    {
        match self {
            ContentType::Json => string_of("application/json"),
            ContentType::Xml => string_of("application/xml"),
            ContentType::Html => string_of("text/html"),
            ContentType::Text => string_of("text/plain"),
            ContentType::Binary => string_of("application/octet-stream"),
            ContentType::FormData => string_of("multipart/form-data"),
            ContentType::Multipart => string_of("multipart/mixed"),
            ContentType::UrlEncoded => string_of("application/x-www-form-urlencoded"),
            ContentType::Custom(s) => s.clone(),
        }
    }

    /// The content type of a MIME type, compared without regard to case; an
    /// unknown one is kept as written.
    pub fn from_mime(mime: &str) -> (r: ContentType)
        ensures
            match known_mime(lowercase_of(mime@)) {
                Some(c) => r == c,
                None => r matches ContentType::Custom(s) && s@ == mime@,
            },
            is_ascii_chars(mime@) ==> lowercase_of(mime@) == ascii_lower(mime@),
    {
        let lower = to_lowercase(mime);
        ContentType::from_lowercase_mime(lower.as_str(), mime)
    }

    /// The content type that `lower`, a MIME type in lower case, names; an
    /// unknown one is kept as `mime`, the MIME type as written.
    pub fn from_lowercase_mime(lower: &str, mime: &str) -> (r: ContentType)
        ensures
            match known_mime(lower@) {
                Some(c) => r == c,
                None => r matches ContentType::Custom(s) && s@ == mime@,
            },
    {
        let v = chars_of(lower);
        if chars_equal(&v, "application/json") {
            ContentType::Json
        } else if chars_equal(&v, "application/xml") || chars_equal(&v, "text/xml") {
            ContentType::Xml
        } else if chars_equal(&v, "text/html") {
            ContentType::Html
        } else if chars_equal(&v, "text/plain") {
            ContentType::Text
        } else if chars_equal(&v, "application/octet-stream") {
            ContentType::Binary
        } else if chars_equal(&v, "multipart/form-data") {
            ContentType::FormData
        } else if chars_equal(&v, "multipart/mixed") {
            ContentType::Multipart
        } else if chars_equal(&v, "application/x-www-form-urlencoded") {
            ContentType::UrlEncoded
        } else {
            ContentType::Custom(string_of(mime))
        }
    }

    /// The content type of a short name (Arabic or English); another name is
    /// kept as a custom type.
    pub fn from_arabic(name: &str) -> (r: ContentType)
        ensures
            match known_content_name(name@) {
                Some(c) => r == c,
                None => r matches ContentType::Custom(s) && s@ == name@,
            },
    {
        let v = chars_of(name);
        if chars_equal(&v, "json") || chars_equal(&v, "جسون") {
            ContentType::Json
        } else if chars_equal(&v, "xml") || chars_equal(&v, "إكس إم إل") {
            ContentType::Xml
        } else if chars_equal(&v, "html") || chars_equal(&v, "إتش تي إم إل") {
            ContentType::Html
        } else if chars_equal(&v, "نص") || chars_equal(&v, "text") {
            ContentType::Text
        } else if chars_equal(&v, "ثنائي") || chars_equal(&v, "binary") {
            ContentType::Binary
        } else {
            ContentType::Custom(string_of(name))
        }
    }
}

/// Reading back the MIME type of a known content type gives that content type:
/// the MIME type is ASCII, already in lower case, and names the content type.
pub proof fn law_content_type_mime_round_trip(ct: ContentType)
    requires
        !(ct is Custom),
    ensures
        is_ascii_chars(mime_of(ct)),
        ascii_lower(mime_of(ct)) == mime_of(ct),
        known_mime(mime_of(ct)) == Some(ct),
{
    reveal_strlit("application/json");
    reveal_strlit("application/xml");
    reveal_strlit("text/xml");
    reveal_strlit("text/html");
    reveal_strlit("text/plain");
    reveal_strlit("application/octet-stream");
    reveal_strlit("multipart/form-data");
    reveal_strlit("multipart/mixed");
    reveal_strlit("application/x-www-form-urlencoded");
    assert("application/json"@.len() == 16 && "application/json"@[0] == 'a' && "application/json"@[15] == 'n');
    assert("application/xml"@.len() == 15 && "application/xml"@[0] == 'a' && "application/xml"@[14] == 'l');
    assert("text/xml"@.len() == 8 && "text/xml"@[0] == 't' && "text/xml"@[7] == 'l');
    assert("text/html"@.len() == 9 && "text/html"@[0] == 't' && "text/html"@[8] == 'l');
    assert("text/plain"@.len() == 10 && "text/plain"@[0] == 't' && "text/plain"@[9] == 'n');
    assert("application/octet-stream"@.len() == 24 && "application/octet-stream"@[0] == 'a' && "application/octet-stream"@[23] == 'm');
    assert("multipart/form-data"@.len() == 19 && "multipart/form-data"@[0] == 'm' && "multipart/form-data"@[18] == 'a');
    assert("multipart/mixed"@.len() == 15 && "multipart/mixed"@[0] == 'm' && "multipart/mixed"@[14] == 'd');
    assert("application/x-www-form-urlencoded"@.len() == 33 && "application/x-www-form-urlencoded"@[0] == 'a' && "application/x-www-form-urlencoded"@[32] == 'd');
    assert(ascii_lower(mime_of(ct)) =~= mime_of(ct));
}

/// Each short name, English or Arabic, names its content type; only JSON,
/// XML, HTML, plain text and binary data have short names.
pub proof fn law_content_type_names(s: Seq<char>)
    ensures
        known_content_name("json"@) == Some(ContentType::Json),
        known_content_name("جسون"@) == Some(ContentType::Json),
        known_content_name("xml"@) == Some(ContentType::Xml),
        known_content_name("إكس إم إل"@) == Some(ContentType::Xml),
        known_content_name("html"@) == Some(ContentType::Html),
        known_content_name("إتش تي إم إل"@) == Some(ContentType::Html),
        known_content_name("نص"@) == Some(ContentType::Text),
        known_content_name("text"@) == Some(ContentType::Text),
        known_content_name("ثنائي"@) == Some(ContentType::Binary),
        known_content_name("binary"@) == Some(ContentType::Binary),
        known_content_name(s) matches Some(c) ==> (c is Json || c is Xml || c is Html || c is Text || c is Binary),
{
    reveal_strlit("json");
    reveal_strlit("جسون");
    reveal_strlit("xml");
    reveal_strlit("إكس إم إل");
    reveal_strlit("html");
    reveal_strlit("إتش تي إم إل");
    reveal_strlit("نص");
    reveal_strlit("text");
    reveal_strlit("ثنائي");
    reveal_strlit("binary");
    assert("json"@.len() == 4 && "json"@[0] == 'j');
    assert("جسون"@.len() == 4 && "جسون"@[0] == 'ج');
    assert("xml"@.len() == 3 && "xml"@[0] == 'x');
    assert("إكس إم إل"@.len() == 9 && "إكس إم إل"@[0] == 'إ');
    assert("html"@.len() == 4 && "html"@[0] == 'h');
    assert("إتش تي إم إل"@.len() == 12 && "إتش تي إم إل"@[0] == 'إ');
    assert("نص"@.len() == 2 && "نص"@[0] == 'ن');
    assert("text"@.len() == 4 && "text"@[0] == 't');
    assert("ثنائي"@.len() == 5 && "ثنائي"@[0] == 'ث');
    assert("binary"@.len() == 6 && "binary"@[0] == 'b');
}

/// The MIME type of each content type, and the two MIME types of XML.
pub proof fn law_mime_types()
    ensures
        mime_of(ContentType::Json) == "application/json"@,
        mime_of(ContentType::Xml) == "application/xml"@,
        mime_of(ContentType::Html) == "text/html"@,
        mime_of(ContentType::Text) == "text/plain"@,
        mime_of(ContentType::Binary) == "application/octet-stream"@,
        mime_of(ContentType::FormData) == "multipart/form-data"@,
        mime_of(ContentType::Multipart) == "multipart/mixed"@,
        mime_of(ContentType::UrlEncoded) == "application/x-www-form-urlencoded"@,
        known_mime("application/json"@) == Some(ContentType::Json),
        known_mime("application/xml"@) == Some(ContentType::Xml),
        known_mime("text/html"@) == Some(ContentType::Html),
        known_mime("text/plain"@) == Some(ContentType::Text),
        known_mime("application/octet-stream"@) == Some(ContentType::Binary),
        known_mime("multipart/form-data"@) == Some(ContentType::FormData),
        known_mime("multipart/mixed"@) == Some(ContentType::Multipart),
        known_mime("application/x-www-form-urlencoded"@) == Some(ContentType::UrlEncoded),
        known_mime("text/xml"@) == Some(ContentType::Xml),
{
    law_content_type_mime_round_trip(ContentType::Json);
    law_content_type_mime_round_trip(ContentType::Xml);
    law_content_type_mime_round_trip(ContentType::Html);
    law_content_type_mime_round_trip(ContentType::Text);
    law_content_type_mime_round_trip(ContentType::Binary);
    law_content_type_mime_round_trip(ContentType::FormData);
    law_content_type_mime_round_trip(ContentType::Multipart);
    law_content_type_mime_round_trip(ContentType::UrlEncoded);
    reveal_strlit("text/xml");
    reveal_strlit("application/xml");
    reveal_strlit("application/json");
    assert("text/xml"@.len() == 8 && "text/xml"@[0] == 't' && "text/xml"@[5] == 'x');
    assert("application/json"@.len() == 16 && "application/xml"@.len() == 15);
}

/// The names of the methods: each method is named by its Arabic verb and by
/// its upper-case English name, which is also the name it is written as.
pub proof fn law_method_names()
    ensures
        method_from_name("احضر"@) == Some(HttpMethod::Get),
        method_from_name("GET"@) == Some(HttpMethod::Get),
        method_name(HttpMethod::Get) == "GET"@,
        method_from_name("ارسل"@) == Some(HttpMethod::Post),
        method_from_name("POST"@) == Some(HttpMethod::Post),
        method_name(HttpMethod::Post) == "POST"@,
        method_from_name("ضع"@) == Some(HttpMethod::Put),
        method_from_name("PUT"@) == Some(HttpMethod::Put),
        method_name(HttpMethod::Put) == "PUT"@,
        method_from_name("احذف"@) == Some(HttpMethod::Delete),
        method_from_name("DELETE"@) == Some(HttpMethod::Delete),
        method_name(HttpMethod::Delete) == "DELETE"@,
        method_from_name("عدل"@) == Some(HttpMethod::Patch),
        method_from_name("PATCH"@) == Some(HttpMethod::Patch),
        method_name(HttpMethod::Patch) == "PATCH"@,
        method_from_name("رأس"@) == Some(HttpMethod::Head),
        method_from_name("HEAD"@) == Some(HttpMethod::Head),
        method_name(HttpMethod::Head) == "HEAD"@,
        method_from_name("خيارات"@) == Some(HttpMethod::Options),
        method_from_name("OPTIONS"@) == Some(HttpMethod::Options),
        method_name(HttpMethod::Options) == "OPTIONS"@,
        method_from_name("اتصل"@) == Some(HttpMethod::Connect),
        method_from_name("CONNECT"@) == Some(HttpMethod::Connect),
        method_name(HttpMethod::Connect) == "CONNECT"@,
        method_from_name("تتبع"@) == Some(HttpMethod::Trace),
        method_from_name("TRACE"@) == Some(HttpMethod::Trace),
        method_name(HttpMethod::Trace) == "TRACE"@,
{
    law_method_name_round_trip(HttpMethod::Get);
    law_method_name_round_trip(HttpMethod::Post);
    law_method_name_round_trip(HttpMethod::Put);
    law_method_name_round_trip(HttpMethod::Delete);
    law_method_name_round_trip(HttpMethod::Patch);
    law_method_name_round_trip(HttpMethod::Head);
    law_method_name_round_trip(HttpMethod::Options);
    law_method_name_round_trip(HttpMethod::Connect);
    law_method_name_round_trip(HttpMethod::Trace);
    assert(method_from_name("احضر"@) == Some(HttpMethod::Get)) by {
        reveal_strlit("احضر");
    }
    assert(method_from_name("GET"@) == Some(HttpMethod::Get)) by {
        reveal_strlit("GET");
    }
    assert(method_from_name("ارسل"@) == Some(HttpMethod::Post)) by {
        reveal_strlit("GET");
        reveal_strlit("احضر");
        reveal_strlit("ارسل");
        assert("ارسل"@[1] == 'ر' && "احضر"@[1] == 'ح');
        assert("ارسل"@.len() == 4 && "GET"@.len() == 3);
    }
    assert(method_from_name("POST"@) == Some(HttpMethod::Post)) by {
        reveal_strlit("GET");
        reveal_strlit("POST");
        reveal_strlit("احضر");
        assert("POST"@[0] == 'P' && "احضر"@[0] == 'ا');
        assert("POST"@.len() == 4 && "GET"@.len() == 3);
    }
    assert(method_from_name("ضع"@) == Some(HttpMethod::Put)) by {
        reveal_strlit("GET");
        reveal_strlit("POST");
        reveal_strlit("احضر");
        reveal_strlit("ارسل");
        reveal_strlit("ضع");
        assert("ضع"@.len() == 2 && "احضر"@.len() == 4);
        assert("ضع"@.len() == 2 && "GET"@.len() == 3);
        assert("ضع"@.len() == 2 && "ارسل"@.len() == 4);
        assert("ضع"@.len() == 2 && "POST"@.len() == 4);
    }
    assert(method_from_name("PUT"@) == Some(HttpMethod::Put)) by {
        reveal_strlit("GET");
        reveal_strlit("POST");
        reveal_strlit("PUT");
        reveal_strlit("احضر");
        reveal_strlit("ارسل");
        assert("PUT"@.len() == 3 && "احضر"@.len() == 4);
        assert("PUT"@[0] == 'P' && "GET"@[0] == 'G');
        assert("PUT"@.len() == 3 && "ارسل"@.len() == 4);
        assert("PUT"@.len() == 3 && "POST"@.len() == 4);
    }
    assert(method_from_name("احذف"@) == Some(HttpMethod::Delete)) by {
        reveal_strlit("GET");
        reveal_strlit("POST");
        reveal_strlit("PUT");
        reveal_strlit("احذف");
        reveal_strlit("احضر");
        reveal_strlit("ارسل");
        reveal_strlit("ضع");
        assert("احذف"@[2] == 'ذ' && "احضر"@[2] == 'ض');
        assert("احذف"@.len() == 4 && "GET"@.len() == 3);
        assert("احذف"@[1] == 'ح' && "ارسل"@[1] == 'ر');
        assert("احذف"@[0] == 'ا' && "POST"@[0] == 'P');
        assert("احذف"@.len() == 4 && "ضع"@.len() == 2);
        assert("احذف"@.len() == 4 && "PUT"@.len() == 3);
    }
    assert(method_from_name("DELETE"@) == Some(HttpMethod::Delete)) by {
        reveal_strlit("DELETE");
        reveal_strlit("GET");
        reveal_strlit("POST");
        reveal_strlit("PUT");
        reveal_strlit("احضر");
        reveal_strlit("ارسل");
        reveal_strlit("ضع");
        assert("DELETE"@.len() == 6 && "احضر"@.len() == 4);
        assert("DELETE"@.len() == 6 && "GET"@.len() == 3);
        assert("DELETE"@.len() == 6 && "ارسل"@.len() == 4);
        assert("DELETE"@.len() == 6 && "POST"@.len() == 4);
        assert("DELETE"@.len() == 6 && "ضع"@.len() == 2);
        assert("DELETE"@.len() == 6 && "PUT"@.len() == 3);
    }
    assert(method_from_name("عدل"@) == Some(HttpMethod::Patch)) by {
        reveal_strlit("DELETE");
        reveal_strlit("GET");
        reveal_strlit("POST");
        reveal_strlit("PUT");
        reveal_strlit("احذف");
        reveal_strlit("احضر");
        reveal_strlit("ارسل");
        reveal_strlit("ضع");
        reveal_strlit("عدل");
        assert("عدل"@.len() == 3 && "احضر"@.len() == 4);
        assert("عدل"@[0] == 'ع' && "GET"@[0] == 'G');
        assert("عدل"@.len() == 3 && "ارسل"@.len() == 4);
        assert("عدل"@.len() == 3 && "POST"@.len() == 4);
        assert("عدل"@.len() == 3 && "ضع"@.len() == 2);
        assert("عدل"@[0] == 'ع' && "PUT"@[0] == 'P');
        assert("عدل"@.len() == 3 && "احذف"@.len() == 4);
        assert("عدل"@.len() == 3 && "DELETE"@.len() == 6);
    }
    assert(method_from_name("PATCH"@) == Some(HttpMethod::Patch)) by {
        reveal_strlit("DELETE");
        reveal_strlit("GET");
        reveal_strlit("PATCH");
        reveal_strlit("POST");
        reveal_strlit("PUT");
        reveal_strlit("احذف");
        reveal_strlit("احضر");
        reveal_strlit("ارسل");
        reveal_strlit("ضع");
        assert("PATCH"@.len() == 5 && "احضر"@.len() == 4);
        assert("PATCH"@.len() == 5 && "GET"@.len() == 3);
        assert("PATCH"@.len() == 5 && "ارسل"@.len() == 4);
        assert("PATCH"@.len() == 5 && "POST"@.len() == 4);
        assert("PATCH"@.len() == 5 && "ضع"@.len() == 2);
        assert("PATCH"@.len() == 5 && "PUT"@.len() == 3);
        assert("PATCH"@.len() == 5 && "احذف"@.len() == 4);
        assert("PATCH"@.len() == 5 && "DELETE"@.len() == 6);
    }
    assert(method_from_name("رأس"@) == Some(HttpMethod::Head)) by {
        reveal_strlit("DELETE");
        reveal_strlit("GET");
        reveal_strlit("PATCH");
        reveal_strlit("POST");
        reveal_strlit("PUT");
        reveal_strlit("احذف");
        reveal_strlit("احضر");
        reveal_strlit("ارسل");
        reveal_strlit("رأس");
        reveal_strlit("ضع");
        reveal_strlit("عدل");
        assert("رأس"@.len() == 3 && "احضر"@.len() == 4);
        assert("رأس"@[0] == 'ر' && "GET"@[0] == 'G');
        assert("رأس"@.len() == 3 && "ارسل"@.len() == 4);
        assert("رأس"@.len() == 3 && "POST"@.len() == 4);
        assert("رأس"@.len() == 3 && "ضع"@.len() == 2);
        assert("رأس"@[0] == 'ر' && "PUT"@[0] == 'P');
        assert("رأس"@.len() == 3 && "احذف"@.len() == 4);
        assert("رأس"@.len() == 3 && "DELETE"@.len() == 6);
        assert("رأس"@[0] == 'ر' && "عدل"@[0] == 'ع');
        assert("رأس"@.len() == 3 && "PATCH"@.len() == 5);
    }
    assert(method_from_name("HEAD"@) == Some(HttpMethod::Head)) by {
        reveal_strlit("DELETE");
        reveal_strlit("GET");
        reveal_strlit("HEAD");
        reveal_strlit("PATCH");
        reveal_strlit("POST");
        reveal_strlit("PUT");
        reveal_strlit("احذف");
        reveal_strlit("احضر");
        reveal_strlit("ارسل");
        reveal_strlit("ضع");
        reveal_strlit("عدل");
        assert("HEAD"@[0] == 'H' && "احضر"@[0] == 'ا');
        assert("HEAD"@.len() == 4 && "GET"@.len() == 3);
        assert("HEAD"@[0] == 'H' && "ارسل"@[0] == 'ا');
        assert("HEAD"@[0] == 'H' && "POST"@[0] == 'P');
        assert("HEAD"@.len() == 4 && "ضع"@.len() == 2);
        assert("HEAD"@.len() == 4 && "PUT"@.len() == 3);
        assert("HEAD"@[0] == 'H' && "احذف"@[0] == 'ا');
        assert("HEAD"@.len() == 4 && "DELETE"@.len() == 6);
        assert("HEAD"@.len() == 4 && "عدل"@.len() == 3);
        assert("HEAD"@.len() == 4 && "PATCH"@.len() == 5);
    }
    assert(method_from_name("خيارات"@) == Some(HttpMethod::Options)) by {
        reveal_strlit("DELETE");
        reveal_strlit("GET");
        reveal_strlit("HEAD");
        reveal_strlit("PATCH");
        reveal_strlit("POST");
        reveal_strlit("PUT");
        reveal_strlit("احذف");
        reveal_strlit("احضر");
        reveal_strlit("ارسل");
        reveal_strlit("خيارات");
        reveal_strlit("رأس");
        reveal_strlit("ضع");
        reveal_strlit("عدل");
        assert("خيارات"@.len() == 6 && "احضر"@.len() == 4);
        assert("خيارات"@.len() == 6 && "GET"@.len() == 3);
        assert("خيارات"@.len() == 6 && "ارسل"@.len() == 4);
        assert("خيارات"@.len() == 6 && "POST"@.len() == 4);
        assert("خيارات"@.len() == 6 && "ضع"@.len() == 2);
        assert("خيارات"@.len() == 6 && "PUT"@.len() == 3);
        assert("خيارات"@.len() == 6 && "احذف"@.len() == 4);
        assert("خيارات"@[0] == 'خ' && "DELETE"@[0] == 'D');
        assert("خيارات"@.len() == 6 && "عدل"@.len() == 3);
        assert("خيارات"@.len() == 6 && "PATCH"@.len() == 5);
        assert("خيارات"@.len() == 6 && "رأس"@.len() == 3);
        assert("خيارات"@.len() == 6 && "HEAD"@.len() == 4);
    }
    assert(method_from_name("OPTIONS"@) == Some(HttpMethod::Options)) by {
        reveal_strlit("DELETE");
        reveal_strlit("GET");
        reveal_strlit("HEAD");
        reveal_strlit("OPTIONS");
        reveal_strlit("PATCH");
        reveal_strlit("POST");
        reveal_strlit("PUT");
        reveal_strlit("احذف");
        reveal_strlit("احضر");
        reveal_strlit("ارسل");
        reveal_strlit("رأس");
        reveal_strlit("ضع");
        reveal_strlit("عدل");
        assert("OPTIONS"@.len() == 7 && "احضر"@.len() == 4);
        assert("OPTIONS"@.len() == 7 && "GET"@.len() == 3);
        assert("OPTIONS"@.len() == 7 && "ارسل"@.len() == 4);
        assert("OPTIONS"@.len() == 7 && "POST"@.len() == 4);
        assert("OPTIONS"@.len() == 7 && "ضع"@.len() == 2);
        assert("OPTIONS"@.len() == 7 && "PUT"@.len() == 3);
        assert("OPTIONS"@.len() == 7 && "احذف"@.len() == 4);
        assert("OPTIONS"@.len() == 7 && "DELETE"@.len() == 6);
        assert("OPTIONS"@.len() == 7 && "عدل"@.len() == 3);
        assert("OPTIONS"@.len() == 7 && "PATCH"@.len() == 5);
        assert("OPTIONS"@.len() == 7 && "رأس"@.len() == 3);
        assert("OPTIONS"@.len() == 7 && "HEAD"@.len() == 4);
    }
    assert(method_from_name("اتصل"@) == Some(HttpMethod::Connect)) by {
        reveal_strlit("DELETE");
        reveal_strlit("GET");
        reveal_strlit("HEAD");
        reveal_strlit("OPTIONS");
        reveal_strlit("PATCH");
        reveal_strlit("POST");
        reveal_strlit("PUT");
        reveal_strlit("اتصل");
        reveal_strlit("احذف");
        reveal_strlit("احضر");
        reveal_strlit("ارسل");
        reveal_strlit("خيارات");
        reveal_strlit("رأس");
        reveal_strlit("ضع");
        reveal_strlit("عدل");
        assert("اتصل"@[1] == 'ت' && "احضر"@[1] == 'ح');
        assert("اتصل"@.len() == 4 && "GET"@.len() == 3);
        assert("اتصل"@[1] == 'ت' && "ارسل"@[1] == 'ر');
        assert("اتصل"@[0] == 'ا' && "POST"@[0] == 'P');
        assert("اتصل"@.len() == 4 && "ضع"@.len() == 2);
        assert("اتصل"@.len() == 4 && "PUT"@.len() == 3);
        assert("اتصل"@[1] == 'ت' && "احذف"@[1] == 'ح');
        assert("اتصل"@.len() == 4 && "DELETE"@.len() == 6);
        assert("اتصل"@.len() == 4 && "عدل"@.len() == 3);
        assert("اتصل"@.len() == 4 && "PATCH"@.len() == 5);
        assert("اتصل"@.len() == 4 && "رأس"@.len() == 3);
        assert("اتصل"@[0] == 'ا' && "HEAD"@[0] == 'H');
        assert("اتصل"@.len() == 4 && "خيارات"@.len() == 6);
        assert("اتصل"@.len() == 4 && "OPTIONS"@.len() == 7);
    }
    assert(method_from_name("CONNECT"@) == Some(HttpMethod::Connect)) by {
        reveal_strlit("CONNECT");
        reveal_strlit("DELETE");
        reveal_strlit("GET");
        reveal_strlit("HEAD");
        reveal_strlit("OPTIONS");
        reveal_strlit("PATCH");
        reveal_strlit("POST");
        reveal_strlit("PUT");
        reveal_strlit("احذف");
        reveal_strlit("احضر");
        reveal_strlit("ارسل");
        reveal_strlit("خيارات");
        reveal_strlit("رأس");
        reveal_strlit("ضع");
        reveal_strlit("عدل");
        assert("CONNECT"@.len() == 7 && "احضر"@.len() == 4);
        assert("CONNECT"@.len() == 7 && "GET"@.len() == 3);
        assert("CONNECT"@.len() == 7 && "ارسل"@.len() == 4);
        assert("CONNECT"@.len() == 7 && "POST"@.len() == 4);
        assert("CONNECT"@.len() == 7 && "ضع"@.len() == 2);
        assert("CONNECT"@.len() == 7 && "PUT"@.len() == 3);
        assert("CONNECT"@.len() == 7 && "احذف"@.len() == 4);
        assert("CONNECT"@.len() == 7 && "DELETE"@.len() == 6);
        assert("CONNECT"@.len() == 7 && "عدل"@.len() == 3);
        assert("CONNECT"@.len() == 7 && "PATCH"@.len() == 5);
        assert("CONNECT"@.len() == 7 && "رأس"@.len() == 3);
        assert("CONNECT"@.len() == 7 && "HEAD"@.len() == 4);
        assert("CONNECT"@.len() == 7 && "خيارات"@.len() == 6);
        assert("CONNECT"@[0] == 'C' && "OPTIONS"@[0] == 'O');
    }
    assert(method_from_name("تتبع"@) == Some(HttpMethod::Trace)) by {
        reveal_strlit("CONNECT");
        reveal_strlit("DELETE");
        reveal_strlit("GET");
        reveal_strlit("HEAD");
        reveal_strlit("OPTIONS");
        reveal_strlit("PATCH");
        reveal_strlit("POST");
        reveal_strlit("PUT");
        reveal_strlit("اتصل");
        reveal_strlit("احذف");
        reveal_strlit("احضر");
        reveal_strlit("ارسل");
        reveal_strlit("تتبع");
        reveal_strlit("خيارات");
        reveal_strlit("رأس");
        reveal_strlit("ضع");
        reveal_strlit("عدل");
        assert("تتبع"@[0] == 'ت' && "احضر"@[0] == 'ا');
        assert("تتبع"@.len() == 4 && "GET"@.len() == 3);
        assert("تتبع"@[0] == 'ت' && "ارسل"@[0] == 'ا');
        assert("تتبع"@[0] == 'ت' && "POST"@[0] == 'P');
        assert("تتبع"@.len() == 4 && "ضع"@.len() == 2);
        assert("تتبع"@.len() == 4 && "PUT"@.len() == 3);
        assert("تتبع"@[0] == 'ت' && "احذف"@[0] == 'ا');
        assert("تتبع"@.len() == 4 && "DELETE"@.len() == 6);
        assert("تتبع"@.len() == 4 && "عدل"@.len() == 3);
        assert("تتبع"@.len() == 4 && "PATCH"@.len() == 5);
        assert("تتبع"@.len() == 4 && "رأس"@.len() == 3);
        assert("تتبع"@[0] == 'ت' && "HEAD"@[0] == 'H');
        assert("تتبع"@.len() == 4 && "خيارات"@.len() == 6);
        assert("تتبع"@.len() == 4 && "OPTIONS"@.len() == 7);
        assert("تتبع"@[0] == 'ت' && "اتصل"@[0] == 'ا');
        assert("تتبع"@.len() == 4 && "CONNECT"@.len() == 7);
    }
    assert(method_from_name("TRACE"@) == Some(HttpMethod::Trace)) by {
        reveal_strlit("CONNECT");
        reveal_strlit("DELETE");
        reveal_strlit("GET");
        reveal_strlit("HEAD");
        reveal_strlit("OPTIONS");
        reveal_strlit("PATCH");
        reveal_strlit("POST");
        reveal_strlit("PUT");
        reveal_strlit("TRACE");
        reveal_strlit("اتصل");
        reveal_strlit("احذف");
        reveal_strlit("احضر");
        reveal_strlit("ارسل");
        reveal_strlit("خيارات");
        reveal_strlit("رأس");
        reveal_strlit("ضع");
        reveal_strlit("عدل");
        assert("TRACE"@.len() == 5 && "احضر"@.len() == 4);
        assert("TRACE"@.len() == 5 && "GET"@.len() == 3);
        assert("TRACE"@.len() == 5 && "ارسل"@.len() == 4);
        assert("TRACE"@.len() == 5 && "POST"@.len() == 4);
        assert("TRACE"@.len() == 5 && "ضع"@.len() == 2);
        assert("TRACE"@.len() == 5 && "PUT"@.len() == 3);
        assert("TRACE"@.len() == 5 && "احذف"@.len() == 4);
        assert("TRACE"@.len() == 5 && "DELETE"@.len() == 6);
        assert("TRACE"@.len() == 5 && "عدل"@.len() == 3);
        assert("TRACE"@[0] == 'T' && "PATCH"@[0] == 'P');
        assert("TRACE"@.len() == 5 && "رأس"@.len() == 3);
        assert("TRACE"@.len() == 5 && "HEAD"@.len() == 4);
        assert("TRACE"@.len() == 5 && "خيارات"@.len() == 6);
        assert("TRACE"@.len() == 5 && "OPTIONS"@.len() == 7);
        assert("TRACE"@.len() == 5 && "اتصل"@.len() == 4);
        assert("TRACE"@.len() == 5 && "CONNECT"@.len() == 7);
    }
}

} // verus!
