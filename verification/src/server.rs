//! Requests, responses, route matching and the routing server.
use vstd::prelude::*;
use vstd::utf8::encode_utf8;

use crate::string_map::StringMap;
use crate::text::{
    chars_of, decimal, lemma_split_nonempty, lemma_split_without_sep, push_decimal, push_str, split_on,
    string_of,
};
use crate::{
    method_name, mime_of, reason_phrase_of, ContentType, HttpHeaders, HttpMethod, StatusCode,
};

verus! {

/// An incoming HTTP request.
#[derive(Debug, Clone)]
pub struct HttpRequest {
    pub method: HttpMethod,
    pub path: String,
    pub query: StringMap<String>,
    pub headers: HttpHeaders,
    pub body: String,
    pub remote_addr: Option<String>,
    pub cookies: StringMap<String>,
}

impl HttpRequest {
    /// A request with the given method and path, and nothing else.
    pub fn new(method: HttpMethod, path: String) -> (r: Self)
        ensures
            r.method == method,
            r.path@ == path@,
            r.query@ == Map::<Seq<char>, String>::empty(),
            r.headers@ == Map::<Seq<char>, Seq<char>>::empty(),
            r.body@ == Seq::<char>::empty(),
            r.remote_addr is None,
            r.cookies@ == Map::<Seq<char>, String>::empty(),
    {
        HttpRequest {
            method,
            path,
            query: StringMap::new(),
            headers: HttpHeaders::new(),
            body: String::new(),
            remote_addr: None,
            cookies: StringMap::new(),
        }
    }

    /// The query parameter `key`.
    pub fn query(&self, key: &str) -> (r: Option<&String>)
        ensures
            r.is_some() == self.query@.contains_key(key@),
            r matches Some(v) ==> *v == self.query@[key@],
    {
        self.query.get(key)
    }

    /// The header `key`, compared without regard to case.
    pub fn header(&self, key: &str) -> (r: Option<&String>)
        ensures
            r.is_some() == self.headers@.contains_key(crate::text::lowercase_of(key@)),
            r matches Some(v) ==> v@ == self.headers@[crate::text::lowercase_of(key@)],
    {
        self.headers.get(key)
    }

    /// The cookie `name`.
    pub fn cookie(&self, name: &str) -> (r: Option<&String>)
        ensures
            r.is_some() == self.cookies@.contains_key(name@),
            r matches Some(v) ==> *v == self.cookies@[name@],
    {
        self.cookies.get(name)
    }
}

/// An outgoing HTTP response under construction.
#[derive(Debug, Clone)]
pub struct HttpResponseBuilder {
    pub status: StatusCode,
    pub headers: HttpHeaders,
    pub body: String,
    pub content_type: ContentType,
}

/// A fresh response: 200, no headers, an empty plain-text body.
pub open spec fn is_fresh_response(r: HttpResponseBuilder) -> bool {
    &&& r.status.0 == 200
    &&& r.headers@ == Map::<Seq<char>, Seq<char>>::empty()
    &&& r.body@ == Seq::<char>::empty()
    &&& r.content_type == ContentType::Text
}

/// The answer to a request that no route takes: a fresh response turned into
/// a 404 with the body "غير موجود".
pub open spec fn is_not_found_response(r: HttpResponseBuilder) -> bool {
    &&& r.status.0 == 404
    &&& r.headers@ == Map::<Seq<char>, Seq<char>>::empty()
    &&& r.body@ == "غير موجود"@
    &&& r.content_type == ContentType::Text
}

/// `"{name}: {value}\r\n"` for each header, in entry order.
pub open spec fn header_lines(entries: Seq<(Seq<char>, Seq<char>)>) -> Seq<char>
    decreases entries.len(),
{
    if entries.len() == 0 {
        Seq::empty()
    } else {
        header_lines(entries.drop_last()) + entries.last().0 + ": "@ + entries.last().1 + "\r\n"@
    }
}

/// The wire text of a response: the status line, the content type, the
/// content length in bytes, the header lines, a blank line and the body.
pub open spec fn response_text(r: HttpResponseBuilder) -> Seq<char> {
    "HTTP/1.1 "@ + decimal(r.status.0 as nat) + " "@ + reason_phrase_of(r.status.0) + "\r\n"@
        + "Content-Type: "@ + mime_of(r.content_type) + "\r\n"@ + "Content-Length: "@ + decimal(
        (encode_utf8(r.body@).len() as usize) as nat,
    ) + "\r\n"@ + header_lines(r.headers.entries()) + "\r\n\r\n"@ + r.body@
}

impl HttpResponseBuilder {
    /// A fresh response: 200, no headers, an empty plain-text body.
    pub fn new() -> (r: Self)
        ensures
            is_fresh_response(r),
    {
        HttpResponseBuilder {
            status: StatusCode::OK(),
            headers: HttpHeaders::new(),
            body: String::new(),
            content_type: ContentType::Text,
        }
    }

    /// Sets the status.
    pub fn status(self, status: StatusCode) -> (r: Self)
        ensures
            r == (HttpResponseBuilder { status: status, ..self }),
    {
        let mut r = self;
        r.status = status;
        r
    }

    /// Sets the body.
    pub fn body(self, body: String) -> (r: Self)
        ensures
            r == (HttpResponseBuilder { body: body, ..self }),
    {
        let mut r = self;
        r.body = body;
        r
    }

    /// Sets the content type.
    pub fn content_type(self, ct: ContentType) -> (r: Self)
        ensures
            r == (HttpResponseBuilder { content_type: ct, ..self }),
    {
        let mut r = self;
        r.content_type = ct;
        r
    }

    /// Sets a header.
    pub fn header(self, key: String, value: String) -> (r: Self)
        ensures
            r.status == self.status,
            r.body == self.body,
            r.content_type == self.content_type,
            r.headers@ == self.headers@.insert(crate::text::lowercase_of(key@), value@),
    {
        let mut r = self;
        r.headers.insert(key, value);
        r
    }

    /// Sets an already serialised JSON body and the JSON content type.
    pub fn json_text(self, json: String) -> (r: Self)
        ensures
            r == (HttpResponseBuilder { body: json, content_type: ContentType::Json, ..self }),
    {
        let mut r = self;
        r.body = json;
        r.content_type = ContentType::Json;
        r
    }

    /// Sets an HTML body and the HTML content type.
    pub fn html(self, html: String) -> (r: Self)
        ensures
            r == (HttpResponseBuilder { body: html, content_type: ContentType::Html, ..self }),
    {
        let mut r = self;
        r.body = html;
        r.content_type = ContentType::Html;
        r
    }

    /// Sets a plain-text body and the plain-text content type.
    pub fn text(self, text: String) -> (r: Self)
        ensures
            r == (HttpResponseBuilder { body: text, content_type: ContentType::Text, ..self }),
    {
        let mut r = self;
        r.body = text;
        r.content_type = ContentType::Text;
        r
    }

    /// Redirects to `url`: status 302 and a `Location` header.
    pub fn redirect(self, url: &str) -> (r: Self)
        ensures
            r.status.0 == 302,
            r.body == self.body,
            r.content_type == self.content_type,
            r.headers@ == self.headers@.insert(crate::text::lowercase_of("Location"@), url@),
    {
        let mut r = self;
        r.status = StatusCode::FOUND();
        r.headers.insert(string_of("Location"), string_of(url));
        r
    }

    /// Turns the response into a 404 with the body "غير موجود".
    pub fn not_found(self) -> (r: Self)
        ensures
            r.status.0 == 404,
            r.body@ == "غير موجود"@,
            r.headers == self.headers,
            r.content_type == self.content_type,
    {
        let mut r = self;
        r.status = StatusCode::NOT_FOUND();
        r.body = string_of("غير موجود");
        r
    }

    /// Turns the response into a 500 with `message` as the body.
    pub fn internal_error(self, message: &str) -> (r: Self)
        ensures
            r.status.0 == 500,
            r.body@ == message@,
            r.headers == self.headers,
            r.content_type == self.content_type,
    {
        let mut r = self;
        r.status = StatusCode::INTERNAL_SERVER_ERROR();
        r.body = string_of(message);
        r
    }

    /// The response as HTTP/1.1 wire text.
    pub fn build(self) -> (r: String)
        ensures
            r@ == response_text(self),
    {
        let mut out = String::new();
        push_str(&mut out, "HTTP/1.1 ");
        push_decimal(&mut out, self.status.0 as u128);
        push_str(&mut out, " ");
        push_str(&mut out, self.status.reason_phrase());
        push_str(&mut out, "\r\n");
        push_str(&mut out, "Content-Type: ");
        let mime = self.content_type.to_mime();
        push_str(&mut out, mime.as_str());
        push_str(&mut out, "\r\n");
        push_str(&mut out, "Content-Length: ");
        push_decimal(&mut out, self.body.as_str().len() as u128);
        push_str(&mut out, "\r\n");
        let ghost prefix = out@;
        let m = self.headers.as_map();
        let n = m.len();
        let mut i: usize = 0;
        while i < n
            invariant
                m.wf(),
                n == m.spec_len(),
                0 <= i <= n,
                text_entries_len(*m) == n,
                out@ == prefix + header_lines(crate::text_entries(*m).take(i as int)),
            decreases n - i,
        {
            let ghost before = out@;
            let k = m.key_at(i);
            let v = m.value_at(i);
            push_str(&mut out, k.as_str());
            push_str(&mut out, ": ");
            push_str(&mut out, v.as_str());
            push_str(&mut out, "\r\n");
            proof {
                let es = crate::text_entries(*m);
                assert(es.take(i + 1).drop_last() =~= es.take(i as int));
                assert(es.take(i + 1).last() == es[i as int]);
                assert(out@ =~= prefix + header_lines(es.take(i + 1)));
            }
            i = i + 1;
        }
        proof {
            let es = crate::text_entries(*m);
            assert(es.take(n as int) =~= es);
        }
        push_str(&mut out, "\r\n\r\n");
        push_str(&mut out, self.body.as_str());
        proof {
            let es = crate::text_entries(*m);
            assert(es == self.headers.entries());
            assert(out@ =~= response_text(self));
        }
        out
    }
}

/// The number of entries of a map, as its entry sequence counts them.
pub open spec fn text_entries_len(m: StringMap<String>) -> nat {
    crate::text_entries(m).len()
}

impl Default for HttpResponseBuilder {
    fn default() -> (r: Self)
        ensures
            is_fresh_response(r),
    {
        HttpResponseBuilder::new()
    }
}

/// What answers the requests of a route: for a closure
/// `Fn(&HttpRequest) -> HttpResponseBuilder`, that closure.
pub trait Handler: Send + Sync {
    /// The handler may be called on `req`.
    spec fn accepts(&self, req: HttpRequest) -> bool;

    /// `res` is a response that the handler may give to `req`.
    spec fn produces(&self, req: HttpRequest, res: HttpResponseBuilder) -> bool;

    /// Answers a request.
    fn call(&self, req: &HttpRequest) -> (res: HttpResponseBuilder)
        requires
            self.accepts(*req),
        ensures
            self.produces(*req, res),
    ;
}

impl<F: Fn(&HttpRequest) -> HttpResponseBuilder + Send + Sync> Handler for F {
    open spec fn accepts(&self, req: HttpRequest) -> bool {
        call_requires(*self, (&req,))
    }

    open spec fn produces(&self, req: HttpRequest, res: HttpResponseBuilder) -> bool {
        call_ensures(*self, (&req,), res)
    }

    fn call(&self, req: &HttpRequest) -> (res: HttpResponseBuilder) {
        (self)(req)
    }
}

/// What works on a response after its route has produced it: for a closure
/// `Fn(&HttpRequest, &mut HttpResponseBuilder)`, that closure.
pub trait Middleware: Send + Sync {
    /// The middleware may be applied to any request and response.
    spec fn ready(&self) -> bool;

    /// Applying the middleware to `req` may turn `before` into `after`.
    spec fn transforms(&self, req: HttpRequest, before: HttpResponseBuilder, after: HttpResponseBuilder) -> bool;

    /// Works on a response.
    fn apply(&mut self, req: &HttpRequest, res: &mut HttpResponseBuilder)
        requires
            old(self).ready(),
        ensures
            final(self).ready(),
            old(self).transforms(*req, *old(res), *final(res)),
            forall|q: HttpRequest, a: HttpResponseBuilder, b: HttpResponseBuilder|
                #[trigger] final(self).transforms(q, a, b) == old(self).transforms(q, a, b),
    ;
}

/// A closure middleware. What the closure does to the response is not stated:
/// it is the closure's own code.
impl<F: Fn(&HttpRequest, &mut HttpResponseBuilder) + Send + Sync> Middleware for F {
    open spec fn ready(&self) -> bool {
        forall|req: HttpRequest, res: &mut HttpResponseBuilder| call_requires(*self, (&req, res))
    }

    open spec fn transforms(&self, req: HttpRequest, before: HttpResponseBuilder, after: HttpResponseBuilder) -> bool {
        true
    }

    /// Calls the closure on `req` and the response.
    fn apply(&mut self, req: &HttpRequest, res: &mut HttpResponseBuilder)
        ensures
            *final(self) == *old(self),
            exists|r: &mut HttpResponseBuilder|
                *r == *old(res) && *final(r) == *final(res) && #[trigger] call_ensures(*old(self), (req, r), ()),
    {
        (self)(req, res)
    }
}

/// A boxed route handler.
pub type RouteHandler = Box<dyn Handler>;

/// A boxed middleware.
pub type MiddlewareFn = Box<dyn Middleware>;

/// A route: a method, a path pattern and the handler of its requests.
pub struct Route {
    pub method: HttpMethod,
    pub pattern: String,
    pub handler: RouteHandler,
}

/// Whether `seg` is a parameter segment such as `:id`.
pub open spec fn is_param_segment(seg: Seq<char>) -> bool {
    seg.len() > 0 && seg[0] == ':'
}

/// Whether the path `path` matches the pattern `pattern`: they are equal, or
/// they have as many `/`-separated segments and each segment of the pattern is
/// a parameter or equals the segment of the path.
pub open spec fn pattern_matches(pattern: Seq<char>, path: Seq<char>) -> bool {
    ||| pattern == path
    ||| {
        let ps = split_on(pattern, '/');
        let xs = split_on(path, '/');
        &&& ps.len() == xs.len()
        &&& forall|i: int| 0 <= i < ps.len() ==> is_param_segment(#[trigger] ps[i]) || ps[i] == xs[i]
    }
}

/// The text that a sequence of segments joins into, `/` between neighbours.
pub open spec fn join_segments(segs: Seq<Seq<char>>) -> Seq<char>
    decreases segs.len(),
{
    if segs.len() <= 1 {
        if segs.len() == 1 {
            segs[0]
        } else {
            Seq::empty()
        }
    } else {
        join_segments(segs.drop_last()) + seq!['/'] + segs.last()
    }
}

/// Joining the segments of a text gives the text back.
proof fn lemma_join_split(s: Seq<char>)
    ensures
        join_segments(split_on(s, '/')) == s,
    decreases s.len(),
{
    if s.len() > 0 {
        let prev = split_on(s.drop_last(), '/');
        lemma_join_split(s.drop_last());
        lemma_split_nonempty(s.drop_last(), '/');
        if s.last() == '/' {
            assert(split_on(s, '/') == prev.push(Seq::<char>::empty()));
            assert(split_on(s, '/').drop_last() =~= prev);
            assert(s.drop_last() + seq!['/'] + Seq::<char>::empty() =~= s);
        } else {
            let cur = split_on(s, '/');
            assert(cur == prev.update(prev.len() - 1, prev.last().push(s.last())));
            if prev.len() == 1 {
                assert(cur[0] =~= prev[0].push(s.last()));
                assert(s.drop_last().push(s.last()) =~= s);
            } else {
                assert(cur.drop_last() =~= prev.drop_last());
                assert(join_segments(prev) == join_segments(prev.drop_last()) + seq!['/'] + prev.last());
                assert(join_segments(cur) =~= join_segments(prev).push(s.last()));
                assert(s.drop_last().push(s.last()) =~= s);
            }
        }
    }
}

/// Splitting `x/y` gives the segments of `x` followed by those of `y`.
proof fn lemma_split_concat(x: Seq<char>, y: Seq<char>)
    ensures
        split_on(x + seq!['/'] + y, '/') == split_on(x, '/') + split_on(y, '/'),
    decreases y.len(),
{
    let s = x + seq!['/'] + y;
    lemma_split_nonempty(x, '/');
    if y.len() == 0 {
        assert(s.drop_last() =~= x);
        assert(split_on(y, '/') =~= seq![Seq::<char>::empty()]);
        assert(split_on(s, '/') =~= split_on(x, '/') + split_on(y, '/'));
    } else {
        lemma_split_concat(x, y.drop_last());
        lemma_split_nonempty(y.drop_last(), '/');
        assert(s.drop_last() =~= x + seq!['/'] + y.drop_last());
        assert(s.last() == y.last());
        let a = split_on(x, '/');
        let b = split_on(y.drop_last(), '/');
        if y.last() == '/' {
            assert(split_on(s, '/') =~= a + split_on(y, '/'));
        } else {
            assert((a + b).update((a + b).len() - 1, (a + b).last().push(y.last())) =~= a + b.update(
                b.len() - 1,
                b.last().push(y.last()),
            ));
            assert(split_on(s, '/') =~= a + split_on(y, '/'));
        }
    }
}

/// A pattern without a parameter segment matches its own path and no other.
pub proof fn law_static_pattern_matches_only_itself(pattern: Seq<char>, path: Seq<char>)
    requires
        forall|i: int| 0 <= i < split_on(pattern, '/').len() ==> !is_param_segment(#[trigger] split_on(pattern, '/')[i]),
    ensures
        pattern_matches(pattern, path) <==> pattern == path,
{
    if pattern_matches(pattern, path) && pattern != path {
        let ps = split_on(pattern, '/');
        let xs = split_on(path, '/');
        assert(ps =~= xs) by {
            assert forall|i: int| 0 <= i < ps.len() implies ps[i] == xs[i] by {
                assert(!is_param_segment(ps[i]));
            }
        }
        lemma_join_split(pattern);
        lemma_join_split(path);
    }
}

/// A parameter segment stands for any one segment: `pre/:name/rest` matches
/// `pre/value/rest`, and `pre/:name` matches `pre/value`, for every `value`
/// without `/`.
pub proof fn law_param_segment_matches_any(pre: Seq<char>, name: Seq<char>, value: Seq<char>, rest: Seq<char>)
    requires
        !name.contains('/'),
        !value.contains('/'),
    ensures
        pattern_matches(pre + "/:"@ + name + "/"@ + rest, pre + "/"@ + value + "/"@ + rest),
        pattern_matches(pre + "/:"@ + name, pre + "/"@ + value),
{
    reveal_strlit("/:");
    reveal_strlit("/");
    let param = seq![':'] + name;
    assert(!param.contains('/')) by {
        if param.contains('/') {
            let i = choose|i: int| 0 <= i < param.len() && param[i] == '/';
            assert(name[i - 1] == '/');
        }
    }
    lemma_split_without_sep(param, '/');
    lemma_split_without_sep(value, '/');
    assert(is_param_segment(param));
    // pre/:name/rest against pre/value/rest
    lemma_split_concat(param, rest);
    lemma_split_concat(value, rest);
    lemma_split_concat(pre, param + seq!['/'] + rest);
    lemma_split_concat(pre, value + seq!['/'] + rest);
    assert(pre + "/:"@ + name + "/"@ + rest =~= pre + seq!['/'] + (param + seq!['/'] + rest));
    assert(pre + "/"@ + value + "/"@ + rest =~= pre + seq!['/'] + (value + seq!['/'] + rest));
    let a = split_on(pre, '/');
    let r = split_on(rest, '/');
    let ps = a + (seq![param] + r);
    let xs = a + (seq![value] + r);
    assert forall|i: int| 0 <= i < ps.len() implies is_param_segment(#[trigger] ps[i]) || ps[i] == xs[i] by {
        if i == a.len() {
            assert(ps[i] == param);
        } else if i < a.len() {
            assert(ps[i] == a[i] && xs[i] == a[i]);
        } else {
            assert(ps[i] == r[i - a.len() - 1] && xs[i] == r[i - a.len() - 1]);
        }
    }
    // pre/:name against pre/value
    lemma_split_concat(pre, param);
    lemma_split_concat(pre, value);
    assert(pre + "/:"@ + name =~= pre + seq!['/'] + param);
    assert(pre + "/"@ + value =~= pre + seq!['/'] + value);
    let ps2 = a + seq![param];
    let xs2 = a + seq![value];
    assert forall|i: int| 0 <= i < ps2.len() implies is_param_segment(#[trigger] ps2[i]) || ps2[i] == xs2[i] by {
        if i < a.len() {
            assert(ps2[i] == a[i] && xs2[i] == a[i]);
        }
    }
}

/// Whether `route` takes `req`.
pub open spec fn route_takes(route: Route, req: HttpRequest) -> bool {
    route.method == req.method && pattern_matches(route.pattern@, req.path@)
}

/// Whether applying the middleware `mws`, in order, to `req` may turn `a`
/// into `b`.
pub open spec fn passes_through(mws: Seq<MiddlewareFn>, req: HttpRequest, a: HttpResponseBuilder, b: HttpResponseBuilder) -> bool
    decreases mws.len(),
{
    if mws.len() == 0 {
        a == b
    } else {
        exists|m: HttpResponseBuilder|
            passes_through(mws.drop_last(), req, a, m) && #[trigger] mws.last().transforms(req, m, b)
    }
}

/// The segments of `s` between `/` characters, as character vectors.
fn segments(s: &Vec<char>) -> (r: Vec<Vec<char>>)
    ensures
        r@.len() == split_on(s@, '/').len(),
        forall|i: int| 0 <= i < r@.len() ==> #[trigger] r@[i]@ == split_on(s@, '/')[i],
{
    let mut r: Vec<Vec<char>> = Vec::new();
    let mut cur: Vec<char> = Vec::new();
    let mut i: usize = 0;
    proof {
        assert(s@.take(0) =~= Seq::<char>::empty());
    }
    while i < s.len()
        invariant
            0 <= i <= s@.len(),
            r@.len() + 1 == split_on(s@.take(i as int), '/').len(),
            forall|j: int| 0 <= j < r@.len() ==> #[trigger] r@[j]@ == split_on(s@.take(i as int), '/')[j],
            cur@ == split_on(s@.take(i as int), '/').last(),
        decreases s@.len() - i,
    {
        let c = s[i];
        proof {
            assert(s@.take(i + 1).drop_last() =~= s@.take(i as int));
            assert(s@.take(i + 1).last() == c);
            crate::text::lemma_split_nonempty(s@.take(i as int), '/');
        }
        if c == '/' {
            let ghost r0 = r@;
            r.push(cur);
            cur = Vec::new();
            proof {
                assert forall|j: int| 0 <= j < r@.len() implies #[trigger] r@[j]@ == split_on(s@.take(i + 1), '/')[j] by {
                    if j < r0.len() {
                        assert(r@[j] == r0[j]);
                    }
                }
                assert(cur@ =~= split_on(s@.take(i + 1), '/').last());
            }
        } else {
            cur.push(c);
            proof {
                assert forall|j: int| 0 <= j < r@.len() implies #[trigger] r@[j]@ == split_on(s@.take(i + 1), '/')[j] by {
                }
                assert(cur@ =~= split_on(s@.take(i + 1), '/').last());
            }
        }
        i = i + 1;
    }
    proof {
        assert(s@.take(s@.len() as int) =~= s@);
        crate::text::lemma_split_nonempty(s@, '/');
    }
    let ghost r0 = r@;
    r.push(cur);
    proof {
        assert forall|j: int| 0 <= j < r@.len() implies #[trigger] r@[j]@ == split_on(s@, '/')[j] by {
            if j < r0.len() {
                assert(r@[j] == r0[j]);
            }
        }
    }
    r
}

fn vec_chars_equal(a: &Vec<char>, b: &Vec<char>) -> (r: bool)
    ensures
        r == (a@ == b@),
{
    if a.len() != b.len() {
        return false;
    }
    let mut i: usize = 0;
    while i < a.len()
        invariant
            a@.len() == b@.len(),
            0 <= i <= a@.len(),
            forall|j: int| 0 <= j < i ==> a@[j] == b@[j],
        decreases a@.len() - i,
    {
        if a[i] != b[i] {
            return false;
        }
        i = i + 1;
    }
    assert(a@ =~= b@);
    true
}

/// Whether `path` matches `pattern` (see `pattern_matches`).
pub fn match_pattern(pattern: &str, path: &str) -> (r: bool)
    ensures
        r == pattern_matches(pattern@, path@),
{
    let pv = chars_of(pattern);
    let xv = chars_of(path);
    if vec_chars_equal(&pv, &xv) {
        return true;
    }
    let ps = segments(&pv);
    let xs = segments(&xv);
    if ps.len() != xs.len() {
        return false;
    }
    let mut i: usize = 0;
    while i < ps.len()
        invariant
            ps@.len() == xs@.len(),
            ps@.len() == split_on(pattern@, '/').len(),
            xs@.len() == split_on(path@, '/').len(),
            forall|j: int| 0 <= j < ps@.len() ==> #[trigger] ps@[j]@ == split_on(pattern@, '/')[j],
            forall|j: int| 0 <= j < xs@.len() ==> #[trigger] xs@[j]@ == split_on(path@, '/')[j],
            0 <= i <= ps@.len(),
            forall|j: int| 0 <= j < i ==> is_param_segment(#[trigger] split_on(pattern@, '/')[j]) || split_on(pattern@, '/')[j] == split_on(path@, '/')[j],
        decreases ps@.len() - i,
    {
        let p = &ps[i];
        let is_param = p.len() > 0 && p[0] == ':';
        if !is_param {
            if !vec_chars_equal(p, &xs[i]) {
                proof {
                    assert(ps@[i as int]@ == split_on(pattern@, '/')[i as int]);
                    assert(xs@[i as int]@ == split_on(path@, '/')[i as int]);
                    assert(!is_param_segment(split_on(pattern@, '/')[i as int]));
                }
                return false;
            }
        }
        proof {
            assert(ps@[i as int]@ == split_on(pattern@, '/')[i as int]);
            assert(xs@[i as int]@ == split_on(path@, '/')[i as int]);
        }
        i = i + 1;
    }
    true
}

/// The HTTP listener's own settings: where it listens.
pub struct RealHttpServer {
    pub port: u16,
    pub host: String,
}

impl RealHttpServer {
    /// Listens on 0.0.0.0:8080.
    pub fn new() -> (s: Self)
        ensures
            s.port == 8080,
            s.host@ == "0.0.0.0"@,
    {
        RealHttpServer { port: 8080, host: string_of("0.0.0.0") }
    }

    /// Sets the port.
    pub fn port(self, port: u16) -> (s: Self)
        ensures
            s.port == port,
            s.host == self.host,
    {
        let mut s = self;
        s.port = port;
        s
    }

    /// Sets the host.
    pub fn host(self, host: &str) -> (s: Self)
        ensures
            s.port == self.port,
            s.host@ == host@,
    {
        let mut s = self;
        s.host = string_of(host);
        s
    }
}

impl Default for RealHttpServer {
    fn default() -> (s: Self)
        ensures
            s.port == 8080,
            s.host@ == "0.0.0.0"@,
    {
        RealHttpServer::new()
    }
}

/// The routing server: routes tried in the order they were added, and
/// middleware applied in order to the response of the route that answers.
pub struct HttpServer {
    pub port: u16,
    pub host: String,
    routes: Vec<Route>,
    middleware: Vec<MiddlewareSlot>,
}

fn make_route<F: Fn(&HttpRequest) -> HttpResponseBuilder + Send + Sync + 'static>(method: HttpMethod, pattern: &str, handler: F) -> (r: Route)
    ensures
        r.method == method,
        r.pattern@ == pattern@,
        forall|req: HttpRequest| r.handler.accepts(req) <==> call_requires(handler, (&req,)),
        forall|req: HttpRequest, res: HttpResponseBuilder| r.handler.produces(req, res) <==> call_ensures(handler, (&req,), res),
{
    let h: RouteHandler = Box::new(handler);
    Route { method, pattern: string_of(pattern), handler: h }
}

/// A middleware as the server holds it.
pub struct MiddlewareSlot {
    pub middleware: MiddlewareFn,
}

fn make_middleware<M: Middleware + 'static>(mw: M) -> (r: MiddlewareSlot)
    ensures
        r.middleware.ready() == mw.ready(),
        forall|req: HttpRequest, x: HttpResponseBuilder, y: HttpResponseBuilder| r.middleware.transforms(req, x, y) == mw.transforms(req, x, y),
{
    let boxed: MiddlewareFn = Box::new(mw);
    MiddlewareSlot { middleware: boxed }
}

impl HttpServer {
    /// Every route accepts every request and every middleware is ready.
    pub closed spec fn wf(&self) -> bool {
        &&& forall|i: int, req: HttpRequest| 0 <= i < self.routes@.len() ==> #[trigger] self.routes@[i].handler.accepts(req)
        &&& forall|i: int| 0 <= i < self.middleware@.len() ==> #[trigger] self.middleware@[i].middleware.ready()
    }

    /// The port to listen on.
    pub closed spec fn listen_port(&self) -> u16 {
        self.port
    }

    /// The host to listen on.
    pub closed spec fn listen_host(&self) -> Seq<char> {
        self.host@
    }

    /// The routes, in the order they were added.
    pub closed spec fn route_seq(&self) -> Seq<Route> {
        self.routes@
    }

    /// The middleware, in the order it was added.
    pub closed spec fn middleware_seq(&self) -> Seq<MiddlewareFn> {
        self.middleware@.map_values(|m: MiddlewareSlot| m.middleware)
    }

    /// A server for 0.0.0.0:8080 with no routes and no middleware.
    pub fn new() -> (s: Self)
        ensures
            s.wf(),
            s.listen_port() == 8080,
            s.listen_host() == "0.0.0.0"@,
            s.route_seq().len() == 0,
            s.middleware_seq().len() == 0,
    {
        HttpServer {
            port: 8080,
            host: string_of("0.0.0.0"),
            routes: Vec::new(),
            middleware: Vec::new(),
        }
    }

    /// Sets the port.
    pub fn port(self, port: u16) -> (s: Self)
        requires
            self.wf(),
        ensures
            s.wf(),
            s.listen_port() == port,
            s.listen_host() == self.listen_host(),
            s.route_seq() == self.route_seq(),
            s.middleware_seq() == self.middleware_seq(),
    {
        let mut s = self;
        s.port = port;
        s
    }

    /// Sets the host.
    pub fn host(self, host: &str) -> (s: Self)
        requires
            self.wf(),
        ensures
            s.wf(),
            s.listen_port() == self.listen_port(),
            s.listen_host() == host@,
            s.route_seq() == self.route_seq(),
            s.middleware_seq() == self.middleware_seq(),
    {
        let mut s = self;
        s.host = string_of(host);
        s
    }

    /// The listener settings: the server's port and host.
    pub fn real_server(&self) -> (r: RealHttpServer)
        ensures
            r.port == self.listen_port(),
            r.host@ == self.listen_host(),
    {
        RealHttpServer::new().port(self.port).host(self.host.as_str())
    }

    fn add_route<F: Fn(&HttpRequest) -> HttpResponseBuilder + Send + Sync + 'static>(&mut self, method: HttpMethod, pattern: &str, handler: F)
        requires
            old(self).wf(),
            forall|req: HttpRequest| call_requires(handler, (&req,)),
        ensures
            final(self).wf(),
            final(self).listen_port() == old(self).listen_port(),
            final(self).listen_host() == old(self).listen_host(),
            final(self).middleware_seq() == old(self).middleware_seq(),
            final(self).route_seq().len() == old(self).route_seq().len() + 1,
            final(self).route_seq().drop_last() == old(self).route_seq(),
            final(self).route_seq().last().method == method,
            final(self).route_seq().last().pattern@ == pattern@,
            forall|req: HttpRequest, res: HttpResponseBuilder| final(self).route_seq().last().handler.produces(req, res) <==> call_ensures(handler, (&req,), res),
    {
        let route = make_route(method, pattern, handler);
        self.routes.push(route);
        assert(self.routes@.drop_last() =~= old(self).routes@);
    }

    /// Adds a GET route.
    pub fn get<F: Fn(&HttpRequest) -> HttpResponseBuilder + Send + Sync + 'static>(&mut self, pattern: &str, handler: F)
        requires
            old(self).wf(),
            forall|req: HttpRequest| call_requires(handler, (&req,)),
        ensures
            final(self).wf(),
            final(self).listen_port() == old(self).listen_port(),
            final(self).listen_host() == old(self).listen_host(),
            final(self).middleware_seq() == old(self).middleware_seq(),
            final(self).route_seq().drop_last() == old(self).route_seq(),
            final(self).route_seq().len() == old(self).route_seq().len() + 1,
            final(self).route_seq().last().method == HttpMethod::Get,
            final(self).route_seq().last().pattern@ == pattern@,
            forall|req: HttpRequest, res: HttpResponseBuilder| final(self).route_seq().last().handler.produces(req, res) <==> call_ensures(handler, (&req,), res),
    {
        self.add_route(HttpMethod::Get, pattern, handler);
    }

    /// Adds a POST route.
    pub fn post<F: Fn(&HttpRequest) -> HttpResponseBuilder + Send + Sync + 'static>(&mut self, pattern: &str, handler: F)
        requires
            old(self).wf(),
            forall|req: HttpRequest| call_requires(handler, (&req,)),
        ensures
            final(self).wf(),
            final(self).listen_port() == old(self).listen_port(),
            final(self).listen_host() == old(self).listen_host(),
            final(self).middleware_seq() == old(self).middleware_seq(),
            final(self).route_seq().drop_last() == old(self).route_seq(),
            final(self).route_seq().len() == old(self).route_seq().len() + 1,
            final(self).route_seq().last().method == HttpMethod::Post,
            final(self).route_seq().last().pattern@ == pattern@,
            forall|req: HttpRequest, res: HttpResponseBuilder| final(self).route_seq().last().handler.produces(req, res) <==> call_ensures(handler, (&req,), res),
    {
        self.add_route(HttpMethod::Post, pattern, handler);
    }

    /// Adds a PUT route.
    pub fn put<F: Fn(&HttpRequest) -> HttpResponseBuilder + Send + Sync + 'static>(&mut self, pattern: &str, handler: F)
        requires
            old(self).wf(),
            forall|req: HttpRequest| call_requires(handler, (&req,)),
        ensures
            final(self).wf(),
            final(self).listen_port() == old(self).listen_port(),
            final(self).listen_host() == old(self).listen_host(),
            final(self).middleware_seq() == old(self).middleware_seq(),
            final(self).route_seq().drop_last() == old(self).route_seq(),
            final(self).route_seq().len() == old(self).route_seq().len() + 1,
            final(self).route_seq().last().method == HttpMethod::Put,
            final(self).route_seq().last().pattern@ == pattern@,
            forall|req: HttpRequest, res: HttpResponseBuilder| final(self).route_seq().last().handler.produces(req, res) <==> call_ensures(handler, (&req,), res),
    {
        self.add_route(HttpMethod::Put, pattern, handler);
    }

    /// Adds a DELETE route.
    pub fn delete<F: Fn(&HttpRequest) -> HttpResponseBuilder + Send + Sync + 'static>(&mut self, pattern: &str, handler: F)
        requires
            old(self).wf(),
            forall|req: HttpRequest| call_requires(handler, (&req,)),
        ensures
            final(self).wf(),
            final(self).listen_port() == old(self).listen_port(),
            final(self).listen_host() == old(self).listen_host(),
            final(self).middleware_seq() == old(self).middleware_seq(),
            final(self).route_seq().drop_last() == old(self).route_seq(),
            final(self).route_seq().len() == old(self).route_seq().len() + 1,
            final(self).route_seq().last().method == HttpMethod::Delete,
            final(self).route_seq().last().pattern@ == pattern@,
            forall|req: HttpRequest, res: HttpResponseBuilder| final(self).route_seq().last().handler.produces(req, res) <==> call_ensures(handler, (&req,), res),
    {
        self.add_route(HttpMethod::Delete, pattern, handler);
    }

    /// Adds a middleware, applied after those added before it.
    pub fn use_middleware<M: Middleware + 'static>(&mut self, middleware: M)
        requires
            old(self).wf(),
            middleware.ready(),
        ensures
            final(self).wf(),
            final(self).listen_port() == old(self).listen_port(),
            final(self).listen_host() == old(self).listen_host(),
            final(self).route_seq() == old(self).route_seq(),
            final(self).middleware_seq().len() == old(self).middleware_seq().len() + 1,
            final(self).middleware_seq().drop_last() == old(self).middleware_seq(),
            forall|req: HttpRequest, a: HttpResponseBuilder, b: HttpResponseBuilder|
                final(self).middleware_seq().last().transforms(req, a, b) == middleware.transforms(req, a, b),
    {
        let m = make_middleware(middleware);
        self.middleware.push(m);
        assert(self.middleware@.drop_last() =~= old(self).middleware@);
        assert(self.middleware_seq().drop_last() =~= old(self).middleware_seq());
    }

    /// Whether `path` matches `pattern`.
    pub fn match_pattern(&self, pattern: &str, path: &str) -> (r: bool)
        ensures
            r == pattern_matches(pattern@, path@),
    {
        match_pattern(pattern, path)
    }

    /// Answers a request: the first route that takes it produces the
    /// response and each middleware, in order, works on it; with no such route
    /// the answer is a 404.
    pub fn handle(&mut self, request: &HttpRequest) -> (r: HttpResponseBuilder)
        requires
            old(self).wf(),
        ensures
            final(self).wf(),
            final(self).listen_port() == old(self).listen_port(),
            final(self).listen_host() == old(self).listen_host(),
            final(self).route_seq() == old(self).route_seq(),
            final(self).middleware_seq().len() == old(self).middleware_seq().len(),
            forall|k: int, q: HttpRequest, a: HttpResponseBuilder, b: HttpResponseBuilder|
                0 <= k < old(self).middleware_seq().len() ==> #[trigger] final(self).middleware_seq()[k].transforms(q, a, b)
                    == old(self).middleware_seq()[k].transforms(q, a, b),
            (forall|i: int| 0 <= i < old(self).route_seq().len() ==> !route_takes(#[trigger] old(self).route_seq()[i], *request))
                ==> is_not_found_response(r) && *final(self) == *old(self),
            forall|i: int|
                0 <= i < old(self).route_seq().len() && route_takes(#[trigger] old(self).route_seq()[i], *request)
                    && (forall|j: int| 0 <= j < i ==> !route_takes(old(self).route_seq()[j], *request))
                    ==> exists|r0: HttpResponseBuilder|
                        old(self).route_seq()[i].handler.produces(*request, r0) && passes_through(
                            old(self).middleware_seq(),
                            *request,
                            r0,
                            r,
                        ),
    {
        let mut i: usize = 0;
        while i < self.routes.len()
            invariant
                self.wf(),
                *self == *old(self),
                0 <= i <= self.routes@.len(),
                forall|j: int| 0 <= j < i ==> !route_takes(self.routes@[j], *request),
            decreases self.routes@.len() - i,
        {
            let taken = self.routes[i].method == request.method && match_pattern(
                self.routes[i].pattern.as_str(),
                request.path.as_str(),
            );
            if taken {
                proof {
                    assert(route_takes(old(self).route_seq()[i as int], *request));
                }
                let mut response = self.routes[i].handler.call(request);
                let ghost r0 = response;
                let ghost mws = self.middleware_seq();
                let mut j: usize = 0;
                proof {
                    assert(mws.take(0) =~= Seq::<MiddlewareFn>::empty());
                }
                while j < self.middleware.len()
                    invariant
                        self.routes@ == old(self).routes@,
                        self.port == old(self).port,
                        self.host == old(self).host,
                        self.middleware@.len() == mws.len(),
                        mws == old(self).middleware_seq(),
                        0 <= j <= mws.len(),
                        forall|k: int| j <= k < mws.len() ==> #[trigger] self.middleware@[k].middleware == mws[k],
                        forall|k: int| 0 <= k < mws.len() ==> #[trigger] self.middleware@[k].middleware.ready(),
                        forall|k: int| 0 <= k < mws.len() ==> #[trigger] mws[k].ready(),
                        forall|k: int, q: HttpRequest, a: HttpResponseBuilder, b: HttpResponseBuilder|
                            0 <= k < j ==> #[trigger] self.middleware@[k].middleware.transforms(q, a, b)
                                == mws[k].transforms(q, a, b),
                        passes_through(mws.take(j as int), *request, r0, response),
                    decreases mws.len() - j,
                {
                    let ghost before = response;
                    let ghost ms = self.middleware@;
                    self.middleware[j].middleware.apply(request, &mut response);
                    proof {
                        assert(mws.take(j + 1).drop_last() =~= mws.take(j as int));
                        assert(mws.take(j + 1).last() == mws[j as int]);
                        assert(mws[j as int].transforms(*request, before, response));
                        assert forall|k: int| j + 1 <= k < mws.len() implies #[trigger] self.middleware@[k].middleware == mws[k] by {
                            assert(self.middleware@[k] == ms[k]);
                        }
                        assert forall|k: int| 0 <= k < mws.len() implies #[trigger] self.middleware@[k].middleware.ready() by {
                            if k != j {
                                assert(self.middleware@[k] == ms[k]);
                            }
                        }
                        assert forall|k: int, q: HttpRequest, a: HttpResponseBuilder, b: HttpResponseBuilder|
                            0 <= k < j + 1 implies #[trigger] self.middleware@[k].middleware.transforms(q, a, b)
                                == mws[k].transforms(q, a, b) by {
                            if k < j {
                                assert(self.middleware@[k] == ms[k]);
                            } else {
                                assert(ms[k].middleware == mws[k]);
                            }
                        }
                    }
                    j = j + 1;
                }
                proof {
                    assert(mws.take(mws.len() as int) =~= mws);
                    assert(self.middleware_seq().len() == mws.len());
                    assert forall|k: int, q: HttpRequest, a: HttpResponseBuilder, b: HttpResponseBuilder|
                        0 <= k < mws.len() implies #[trigger] self.middleware_seq()[k].transforms(q, a, b)
                            == mws[k].transforms(q, a, b) by {
                        assert(self.middleware_seq()[k] == self.middleware@[k].middleware);
                    }
                }
                return response;
            }
            i = i + 1;
        }
        HttpResponseBuilder::new().not_found()
    }
}

impl Default for HttpServer {
    fn default() -> (s: Self)
        ensures
            s.wf(),
            s.listen_port() == 8080,
            s.listen_host() == "0.0.0.0"@,
            s.route_seq().len() == 0,
            s.middleware_seq().len() == 0,
    {
        HttpServer::new()
    }
}

/// A new server (see `HttpServer::new`).
pub fn new_server() -> (s: HttpServer)
    ensures
        s.wf(),
        s.listen_port() == 8080,
        s.listen_host() == "0.0.0.0"@,
        s.route_seq().len() == 0,
        s.middleware_seq().len() == 0,
{
    HttpServer::new()
}

/// A new response (see `HttpResponseBuilder::new`).
pub fn new_response() -> (r: HttpResponseBuilder)
    ensures
        is_fresh_response(r),
{
    HttpResponseBuilder::new()
}

} // verus!
