//! Ready-made middleware: authentication check, CORS headers, compression
//! marker, rate limiting, and the text of a request log line.
use std::time::Instant;
use vstd::prelude::*;

use crate::clock::{nanos_since, reference_now};
use crate::server::{HttpRequest, HttpResponseBuilder, Middleware};
use crate::string_map::StringMap;
use crate::text::{lowercase_of, push_str, string_of};
use crate::{method_name, StatusCode};

verus! {

/// The body of the answer to a request without credentials.
pub open spec fn auth_required_body() -> Seq<char> {
    "{\"خطأ\": \"مطلوب مصادقة\"}"@
}

/// The body of the answer to a request over the rate limit.
pub open spec fn rate_limited_body() -> Seq<char> {
    "{\"خطأ\": \"تجاوزت الحد الأقصى للطلبات\"}"@
}

/// Rejects a request without an `Authorization` header: the response
/// becomes a 401 with a JSON error body. A request with the header leaves the
/// response as it was.
pub fn auth_checker(req: &HttpRequest, res: &mut HttpResponseBuilder)
    ensures
        req.headers@.contains_key(lowercase_of("Authorization"@)) ==> *final(res) == *old(res),
        !req.headers@.contains_key(lowercase_of("Authorization"@)) ==> {
            &&& final(res).status.0 == 401
            &&& final(res).body@ == auth_required_body()
            &&& final(res).headers == old(res).headers
            &&& final(res).content_type == old(res).content_type
        },
{
    if !req.headers.contains("Authorization") {
        res.status = StatusCode::UNAUTHORIZED();
        res.body = string_of("{\"خطأ\": \"مطلوب مصادقة\"}");
    }
}

/// Marks the response as gzip-encoded.
pub fn gzip(_req: &HttpRequest, res: &mut HttpResponseBuilder)
    ensures
        final(res).status == old(res).status,
        final(res).body == old(res).body,
        final(res).content_type == old(res).content_type,
        final(res).headers@ == old(res).headers@.insert(lowercase_of("Content-Encoding"@), "gzip"@),
{
    res.headers.insert(string_of("Content-Encoding"), string_of("gzip"));
}

/// The headers that CORS adds for the allowed origin `origin`.
pub open spec fn with_cors_headers(h: Map<Seq<char>, Seq<char>>, origin: Seq<char>) -> Map<Seq<char>, Seq<char>> {
    h.insert(lowercase_of("Access-Control-Allow-Origin"@), origin).insert(
        lowercase_of("Access-Control-Allow-Methods"@),
        "GET, POST, PUT, DELETE, OPTIONS"@,
    ).insert(lowercase_of("Access-Control-Allow-Headers"@), "Content-Type, Authorization"@)
}

/// CORS middleware for one allowed origin.
pub struct Cors {
    pub origin: String,
}

/// CORS middleware that allows `origin`.
pub fn cors(origin: &str) -> (c: Cors)
    ensures
        c.origin@ == origin@,
{
    Cors { origin: string_of(origin) }
}

impl Cors {
    /// Adds the CORS headers to a response.
    pub fn add_headers(&self, res: &mut HttpResponseBuilder)
        ensures
            final(res).status == old(res).status,
            final(res).body == old(res).body,
            final(res).content_type == old(res).content_type,
            final(res).headers@ == with_cors_headers(old(res).headers@, self.origin@),
    {
        res.headers.insert(string_of("Access-Control-Allow-Origin"), self.origin.clone());
        res.headers.insert(
            string_of("Access-Control-Allow-Methods"),
            string_of("GET, POST, PUT, DELETE, OPTIONS"),
        );
        res.headers.insert(
            string_of("Access-Control-Allow-Headers"),
            string_of("Content-Type, Authorization"),
        );
    }
}

impl Middleware for Cors {
    open spec fn ready(&self) -> bool {
        true
    }

    open spec fn transforms(&self, req: HttpRequest, before: HttpResponseBuilder, after: HttpResponseBuilder) -> bool {
        &&& after.status == before.status
        &&& after.body == before.body
        &&& after.content_type == before.content_type
        &&& after.headers@ == with_cors_headers(before.headers@, self.origin@)
    }

    /// Adds the CORS headers; the allowed origin stays as it is.
    fn apply(&mut self, req: &HttpRequest, res: &mut HttpResponseBuilder)
        ensures
            *final(self) == *old(self),
    {
        self.add_headers(res);
    }
}

/// The time from `earlier` to `now`, zero when `now` comes first.
pub open spec fn age(earlier: u128, now: u128) -> nat {
    if now >= earlier {
        (now - earlier) as nat
    } else {
        0
    }
}

/// The stamps of `stamps` younger than `window` at `now`, in order.
pub open spec fn keep_recent(stamps: Seq<u128>, now: u128, window: nat) -> Seq<u128>
    decreases stamps.len(),
{
    if stamps.len() == 0 {
        stamps
    } else {
        let rest = keep_recent(stamps.drop_last(), now, window);
        if age(stamps.last(), now) < window {
            rest.push(stamps.last())
        } else {
            rest
        }
    }
}

proof fn lemma_keep_recent_len(stamps: Seq<u128>, now: u128, window: nat)
    ensures
        keep_recent(stamps, now, window).len() <= stamps.len(),
    decreases stamps.len(),
{
    if stamps.len() > 0 {
        lemma_keep_recent_len(stamps.drop_last(), now, window);
    }
}

/// The stamps on record for `ip`, none when it has no record.
pub open spec fn stamps_of(m: Map<Seq<char>, Seq<u128>>, ip: Seq<char>) -> Seq<u128> {
    if m.contains_key(ip) {
        m[ip]
    } else {
        Seq::empty()
    }
}

/// What checking a request from `ip` at `now` does to a record: the stamps
/// older than `window` are dropped; the request is admitted when fewer than
/// `limit` remain, and then its stamp is added. Gives whether it was admitted
/// and the new record.
pub open spec fn check_outcome(
    rec: Map<Seq<char>, Seq<u128>>,
    ip: Seq<char>,
    now: u128,
    window: nat,
    limit: usize,
) -> (bool, Map<Seq<char>, Seq<u128>>) {
    let kept = keep_recent(stamps_of(rec, ip), now, window);
    let admitted = kept.len() < limit;
    (admitted, rec.insert(ip, if admitted { kept.push(now) } else { kept }))
}

/// A limit of `max_requests` requests per client within `window_secs`
/// seconds. Request times are nanoseconds on the monotonic clock from the
/// limiter's creation.
pub struct RateLimiter {
    requests: StringMap<Vec<u128>>,
    max_requests: usize,
    window_secs: u64,
    origin: Instant,
}

impl RateLimiter {
    /// The record is well formed and no client has more than `max_requests`
    /// stamps on record.
    pub closed spec fn wf(&self) -> bool {
        &&& self.requests.wf()
        &&& forall|k: Seq<char>| #[trigger] self.requests@.contains_key(k) ==> self.requests@[k]@.len() <= self.max_requests
    }

    /// The request times on record for each client.
    pub closed spec fn record(&self) -> Map<Seq<char>, Seq<u128>> {
        self.requests@.map_values(|v: Vec<u128>| v@)
    }

    /// The most requests admitted per window.
    pub closed spec fn limit(&self) -> usize {
        self.max_requests
    }

    /// The window in nanoseconds.
    pub closed spec fn window(&self) -> nat {
        (self.window_secs * 1_000_000_000) as nat
    }

    /// A limiter with no record.
    pub fn new(max_requests: usize, window_secs: u64) -> (r: Self)
        ensures
            r.wf(),
            r.record() == Map::<Seq<char>, Seq<u128>>::empty(),
            r.limit() == max_requests,
            r.window() == window_secs * 1_000_000_000,
    {
        let r = RateLimiter {
            requests: StringMap::new(),
            max_requests,
            window_secs,
            origin: reference_now(),
        };
        assert(r.record() =~= Map::<Seq<char>, Seq<u128>>::empty());
        r
    }

    /// Records a request from `ip` at `now` nanoseconds after the limiter's
    /// creation, if it is admitted. The stamps older than the window are
    /// dropped; the request is admitted when fewer than `max_requests`
    /// remain, and then its stamp is added.
    pub fn check_at(&mut self, ip: &str, now: u128) -> (admitted: bool)
        requires
            old(self).wf(),
        ensures
            final(self).wf(),
            final(self).limit() == old(self).limit(),
            final(self).window() == old(self).window(),
            (admitted, final(self).record()) == check_outcome(old(self).record(), ip@, now, old(self).window(), old(self).limit()),
    {
        let ghost old_stamps = stamps_of(old(self).record(), ip@);
        let window: u128 = (self.window_secs as u128) * 1_000_000_000;
        let stamps = match self.requests.remove(ip) {
            Some(v) => v,
            None => Vec::new(),
        };
        assert(stamps@ == old_stamps);
        let mut kept: Vec<u128> = Vec::new();
        let mut i: usize = 0;
        proof {
            assert(stamps@.take(0) =~= Seq::<u128>::empty());
        }
        while i < stamps.len()
            invariant
                0 <= i <= stamps@.len(),
                window == old(self).window(),
                kept@ == keep_recent(stamps@.take(i as int), now, window as nat),
            decreases stamps@.len() - i,
        {
            let t = stamps[i];
            let elapsed: u128 = if now >= t {
                now - t
            } else {
                0
            };
            proof {
                assert(stamps@.take(i + 1).drop_last() =~= stamps@.take(i as int));
                assert(stamps@.take(i + 1).last() == t);
            }
            if elapsed < window {
                kept.push(t);
            }
            i = i + 1;
        }
        proof {
            assert(stamps@.take(stamps@.len() as int) =~= stamps@);
            lemma_keep_recent_len(stamps@, now, window as nat);
            if old(self).requests@.contains_key(ip@) {
                assert(old_stamps.len() <= old(self).max_requests);
            }
        }
        let admitted = kept.len() < self.max_requests;
        if admitted {
            kept.push(now);
        }
        let ghost list = kept@;
        self.requests.insert(string_of(ip), kept);
        proof {
            assert(self.record() =~= old(self).record().insert(ip@, list));
        }
        admitted
    }

    /// Records a request from `ip` now, if it is admitted (see `check_at`).
    pub fn check(&mut self, ip: &str) -> (admitted: bool)
        requires
            old(self).wf(),
        ensures
            final(self).wf(),
            final(self).limit() == old(self).limit(),
            final(self).window() == old(self).window(),
            exists|t: u128| (admitted, final(self).record()) == #[trigger] check_outcome(old(self).record(), ip@, t, old(self).window(), old(self).limit()),
    {
        let now = nanos_since(&self.origin);
        self.check_at(ip, now)
    }
}

proof fn lemma_keep_recent_all(stamps: Seq<u128>, now: u128, window: nat)
    ensures
        forall|i: int| 0 <= i < keep_recent(stamps, now, window).len() ==> age(#[trigger] keep_recent(stamps, now, window)[i], now) < window,
    decreases stamps.len(),
{
    if stamps.len() > 0 {
        lemma_keep_recent_len(stamps.drop_last(), now, window);
        lemma_keep_recent_all(stamps.drop_last(), now, window);
    }
}

proof fn lemma_keep_recent_of_recent(stamps: Seq<u128>, now: u128, window: nat)
    requires
        forall|i: int| 0 <= i < stamps.len() ==> age(#[trigger] stamps[i], now) < window,
    ensures
        keep_recent(stamps, now, window) == stamps,
    decreases stamps.len(),
{
    if stamps.len() > 0 {
        assert forall|i: int| 0 <= i < stamps.drop_last().len() implies age(#[trigger] stamps.drop_last()[i], now) < window by {
            assert(stamps.drop_last()[i] == stamps[i]);
        }
        lemma_keep_recent_of_recent(stamps.drop_last(), now, window);
        assert(age(stamps[stamps.len() - 1], now) < window);
        assert(stamps.drop_last().push(stamps.last()) =~= stamps);
    }
}

/// The limiter never lets a client exceed its limit: after a check at `now`,
/// the client's requests within the window before `now` number at most
/// `max_requests`, whether this one was admitted or not.
pub proof fn law_rate_limit_bound(before: RateLimiter, after: RateLimiter, ip: Seq<char>, now: u128, admitted: bool)
    requires
        before.wf(),
        (admitted, after.record()) == check_outcome(before.record(), ip, now, before.window(), before.limit()),
    ensures
        keep_recent(after.record()[ip], now, before.window()).len() <= before.limit(),
{
    let w = before.window();
    let old_stamps = stamps_of(before.record(), ip);
    let kept = keep_recent(old_stamps, now, w);
    lemma_keep_recent_len(old_stamps, now, w);
    lemma_keep_recent_all(old_stamps, now, w);
    lemma_keep_recent_of_recent(kept, now, w);
    if before.record().contains_key(ip) {
        assert(before.requests@.contains_key(ip));
        assert(old_stamps.len() <= before.limit());
    }
    if admitted {
        let list = kept.push(now);
        assert(list.drop_last() =~= kept);
        lemma_keep_recent_len(list, now, w);
    }
}

/// The record after checks of the requests `0..i` of a history, made one after
/// the other on a limiter with no record: request `j` comes from `keys[j]` at
/// `times[j]`.
pub open spec fn replay(keys: Seq<Seq<char>>, times: Seq<u128>, window: nat, limit: usize, i: nat) -> Map<Seq<char>, Seq<u128>>
    decreases i,
{
    if i == 0 {
        Map::empty()
    } else {
        check_outcome(replay(keys, times, window, limit, (i - 1) as nat), keys[i - 1], times[i - 1], window, limit).1
    }
}

/// Whether request `i` of a history is admitted.
pub open spec fn admitted_in(keys: Seq<Seq<char>>, times: Seq<u128>, window: nat, limit: usize, i: nat) -> bool {
    check_outcome(replay(keys, times, window, limit, i), keys[i as int], times[i as int], window, limit).0
}

/// The times of the requests among `0..i` that came from `k` and were
/// admitted, in order.
pub open spec fn admitted_times(keys: Seq<Seq<char>>, times: Seq<u128>, window: nat, limit: usize, k: Seq<char>, i: nat) -> Seq<u128>
    decreases i,
{
    if i == 0 {
        Seq::empty()
    } else {
        let p = admitted_times(keys, times, window, limit, k, (i - 1) as nat);
        if keys[i - 1] == k && admitted_in(keys, times, window, limit, (i - 1) as nat) {
            p.push(times[i - 1])
        } else {
            p
        }
    }
}

proof fn lemma_keep_recent_contains(stamps: Seq<u128>, now: u128, window: nat, x: u128)
    requires
        keep_recent(stamps, now, window).contains(x),
    ensures
        stamps.contains(x),
    decreases stamps.len(),
{
    if stamps.len() > 0 {
        let rest = keep_recent(stamps.drop_last(), now, window);
        if rest.contains(x) {
            lemma_keep_recent_contains(stamps.drop_last(), now, window, x);
            let j = choose|j: int| 0 <= j < stamps.drop_last().len() && stamps.drop_last()[j] == x;
            assert(stamps[j] == x);
        } else {
            assert(x == stamps.last());
            assert(stamps[stamps.len() - 1] == x);
        }
    }
}

/// Keeping what is recent at `earlier`, then what is recent at `later`, keeps
/// what is recent at `later`, for stamps no later than `earlier`.
proof fn lemma_keep_recent_twice(stamps: Seq<u128>, earlier: u128, later: u128, window: nat)
    requires
        earlier <= later,
        forall|i: int| 0 <= i < stamps.len() ==> #[trigger] stamps[i] <= earlier,
    ensures
        keep_recent(keep_recent(stamps, earlier, window), later, window) == keep_recent(stamps, later, window),
    decreases stamps.len(),
{
    if stamps.len() > 0 {
        let d = stamps.drop_last();
        assert forall|i: int| 0 <= i < d.len() implies #[trigger] d[i] <= earlier by {
            assert(d[i] == stamps[i]);
        }
        lemma_keep_recent_twice(d, earlier, later, window);
        let x = stamps.last();
        assert(x == stamps[stamps.len() - 1]);
        let r = keep_recent(d, earlier, window);
        if age(x, earlier) < window {
            assert(keep_recent(stamps, earlier, window) == r.push(x));
            assert(r.push(x).drop_last() =~= r);
        }
    }
}

proof fn lemma_replay(keys: Seq<Seq<char>>, times: Seq<u128>, window: nat, limit: usize, i: nat)
    requires
        i <= keys.len(),
        keys.len() == times.len(),
        forall|a: int, b: int| 0 <= a <= b < times.len() ==> times[a] <= times[b],
    ensures
        forall|k: Seq<char>, x: u128| #[trigger] stamps_of(replay(keys, times, window, limit, i), k).contains(x)
            ==> i > 0 && x <= times[i - 1],
        forall|k: Seq<char>, t: u128| (i == 0 || times[i - 1] <= t) ==> #[trigger] keep_recent(
            stamps_of(replay(keys, times, window, limit, i), k),
            t,
            window,
        ) == keep_recent(admitted_times(keys, times, window, limit, k, i), t, window),
    decreases i,
{
    if i > 0 {
        let j = (i - 1) as nat;
        lemma_replay(keys, times, window, limit, j);
        let rec = replay(keys, times, window, limit, j);
        let c = keys[j as int];
        let now = times[j as int];
        let s0 = stamps_of(rec, c);
        let kept = keep_recent(s0, now, window);
        let adm = admitted_in(keys, times, window, limit, j);
        let list = if adm { kept.push(now) } else { kept };
        assert(replay(keys, times, window, limit, i) == rec.insert(c, list));
        assert forall|k: Seq<char>, x: u128| #[trigger] stamps_of(replay(keys, times, window, limit, i), k).contains(x)
            implies i > 0 && x <= times[i - 1] by {
            if k == c {
                if kept.contains(x) {
                    lemma_keep_recent_contains(s0, now, window, x);
                    if j > 0 {
                        assert(times[j - 1] <= times[j as int]);
                    }
                } else {
                    let q = choose|q: int| 0 <= q < list.len() && list[q] == x;
                    assert(q == kept.len() ==> x == now);
                    if q < kept.len() {
                        assert(kept.contains(x));
                    }
                }
            } else {
                assert(stamps_of(rec, k).contains(x));
                if j > 0 {
                    assert(times[j - 1] <= times[j as int]);
                }
            }
        }
        assert forall|k: Seq<char>, t: u128| (i == 0 || times[i - 1] <= t) implies #[trigger] keep_recent(
            stamps_of(replay(keys, times, window, limit, i), k),
            t,
            window,
        ) == keep_recent(admitted_times(keys, times, window, limit, k, i), t, window) by {
            if j > 0 {
                assert(times[j - 1] <= times[j as int]);
            }
            let p = admitted_times(keys, times, window, limit, k, j);
            let newrec = replay(keys, times, window, limit, i);
            assert(keep_recent(stamps_of(rec, k), t, window) == keep_recent(p, t, window));
            if k == c {
                assert(stamps_of(newrec, k) == list);
                assert forall|q: int| 0 <= q < s0.len() implies #[trigger] s0[q] <= now by {
                    assert(s0.contains(s0[q]));
                }
                lemma_keep_recent_twice(s0, now, t, window);
                assert(keep_recent(kept, t, window) == keep_recent(p, t, window));
                if adm {
                    assert(admitted_times(keys, times, window, limit, k, i) == p.push(now));
                    assert(list.drop_last() =~= kept);
                    assert(p.push(now).drop_last() =~= p);
                    assert(keep_recent(list, t, window) == keep_recent(p.push(now), t, window));
                } else {
                    assert(admitted_times(keys, times, window, limit, k, i) == p);
                }
            } else {
                assert(stamps_of(newrec, k) == stamps_of(rec, k));
                assert(admitted_times(keys, times, window, limit, k, i) == p);
            }
        }
    }
}

/// The rate limit over a history: when a limiter with no record checks
/// requests one after the other at times that never go back, a request is
/// admitted exactly when fewer than `limit` earlier requests from the same
/// client were admitted within the window before it. Refused requests do not
/// count. (`rate_limit` answers a refused request with a 429, see
/// `rate_checked`.)
pub proof fn law_rate_limit_over_history(keys: Seq<Seq<char>>, times: Seq<u128>, window: nat, limit: usize)
    requires
        keys.len() == times.len(),
        forall|a: int, b: int| 0 <= a <= b < times.len() ==> times[a] <= times[b],
    ensures
        forall|i: nat| i < keys.len() ==> (#[trigger] admitted_in(keys, times, window, limit, i) <==> keep_recent(
            admitted_times(keys, times, window, limit, keys[i as int], i),
            times[i as int],
            window,
        ).len() < limit),
{
    assert forall|i: nat| i < keys.len() implies (#[trigger] admitted_in(keys, times, window, limit, i) <==> keep_recent(
        admitted_times(keys, times, window, limit, keys[i as int], i),
        times[i as int],
        window,
    ).len() < limit) by {
        lemma_replay(keys, times, window, limit, i);
        if i > 0 {
            assert(times[i - 1] <= times[i as int]);
        }
        assert(keep_recent(stamps_of(replay(keys, times, window, limit, i), keys[i as int]), times[i as int], window)
            == keep_recent(admitted_times(keys, times, window, limit, keys[i as int], i), times[i as int], window));
    }
}

/// Rate-limiting middleware: a request over the limit of its client (by
/// remote address, "unknown" when there is none) gets a 429 with a JSON error
/// body.
pub struct RateLimit {
    pub limiter: RateLimiter,
}

/// Rate-limiting middleware with `max_requests` requests per `window_secs`
/// seconds for each client.
pub fn rate_limit(max_requests: usize, window_secs: u64) -> (m: RateLimit)
    ensures
        m.limiter.wf(),
        m.limiter.record() == Map::<Seq<char>, Seq<u128>>::empty(),
        m.limiter.limit() == max_requests,
        m.limiter.window() == window_secs * 1_000_000_000,
{
    RateLimit { limiter: RateLimiter::new(max_requests, window_secs) }
}

/// The response after a rate check: as it was when the request is admitted,
/// else a 429 with the rate-limit body.
pub open spec fn rate_checked(admitted: bool, before: HttpResponseBuilder, after: HttpResponseBuilder) -> bool {
    if admitted {
        after == before
    } else {
        &&& after.status.0 == 429
        &&& after.body@ == rate_limited_body()
        &&& after.headers == before.headers
        &&& after.content_type == before.content_type
    }
}

/// The client that a request is counted against: its remote address, or
/// "unknown" when it has none.
pub open spec fn client_key(req: HttpRequest) -> Seq<char> {
    match req.remote_addr {
        Some(a) => a@,
        None => "unknown"@,
    }
}

/// Checking `req` at `now` turns the limiter `before` into `after` and the
/// response `res0` into `res1`: the request's client is checked as
/// `check_outcome` says, and a request over the limit gets a 429.
pub open spec fn rate_limited_at(
    before: RateLimiter,
    after: RateLimiter,
    req: HttpRequest,
    res0: HttpResponseBuilder,
    res1: HttpResponseBuilder,
    now: u128,
) -> bool {
    let outcome = check_outcome(before.record(), client_key(req), now, before.window(), before.limit());
    &&& rate_checked(outcome.0, res0, res1)
    &&& after.record() == outcome.1
}

/// Each client has its own limit, keyed by its remote address: checking a
/// request from address `addr` is decided by the requests on record for
/// `addr` alone, records the check under `addr`, and leaves the record of
/// every other client as it was.
pub proof fn law_rate_limit_per_client(
    before: RateLimiter,
    after: RateLimiter,
    req: HttpRequest,
    res0: HttpResponseBuilder,
    res1: HttpResponseBuilder,
    now: u128,
    addr: Seq<char>,
    other: Seq<char>,
)
    requires
        rate_limited_at(before, after, req, res0, res1, now),
        req.remote_addr matches Some(a) && a@ == addr,
        other != addr,
    ensures
        after.record().contains_key(addr),
        stamps_of(after.record(), other) == stamps_of(before.record(), other),
        keep_recent(stamps_of(before.record(), addr), now, before.window()).len() < before.limit() ==> res1 == res0,
        keep_recent(stamps_of(before.record(), addr), now, before.window()).len() >= before.limit() ==> res1.status.0 == 429,
{
}

/// A request without a remote address is counted against the client
/// "unknown".
pub proof fn law_rate_limit_unknown_client(
    before: RateLimiter,
    after: RateLimiter,
    req: HttpRequest,
    res0: HttpResponseBuilder,
    res1: HttpResponseBuilder,
    now: u128,
    other: Seq<char>,
)
    requires
        rate_limited_at(before, after, req, res0, res1, now),
        req.remote_addr is None,
        other != "unknown"@,
    ensures
        after.record().contains_key("unknown"@),
        stamps_of(after.record(), other) == stamps_of(before.record(), other),
{
}

impl RateLimit {
    /// Checks the request at `now` nanoseconds after the limiter's creation
    /// and answers a request over the limit with a 429.
    pub fn apply_at(&mut self, req: &HttpRequest, res: &mut HttpResponseBuilder, now: u128)
        requires
            old(self).limiter.wf(),
        ensures
            final(self).limiter.wf(),
            final(self).limiter.limit() == old(self).limiter.limit(),
            final(self).limiter.window() == old(self).limiter.window(),
            rate_limited_at(old(self).limiter, final(self).limiter, *req, *old(res), *final(res), now),
    {
        let ip = match &req.remote_addr {
            Some(a) => a.clone(),
            None => string_of("unknown"),
        };
        if !self.limiter.check_at(ip.as_str(), now) {
            res.status = StatusCode::TOO_MANY_REQUESTS();
            res.body = string_of("{\"خطأ\": \"تجاوزت الحد الأقصى للطلبات\"}");
        }
    }
}

impl Middleware for RateLimit {
    open spec fn ready(&self) -> bool {
        self.limiter.wf()
    }

    open spec fn transforms(&self, req: HttpRequest, before: HttpResponseBuilder, after: HttpResponseBuilder) -> bool {
        rate_checked(true, before, after) || rate_checked(false, before, after)
    }

    /// Checks the request now (see `apply_at`).
    fn apply(&mut self, req: &HttpRequest, res: &mut HttpResponseBuilder)
        ensures
            final(self).limiter.limit() == old(self).limiter.limit(),
            final(self).limiter.window() == old(self).limiter.window(),
            exists|t: u128| #[trigger] rate_limited_at(old(self).limiter, final(self).limiter, *req, *old(res), *final(res), t),
    {
        let now = nanos_since(&self.limiter.origin);
        self.apply_at(req, res, now);
    }
}

/// The log line of a request: `[timestamp] METHOD path`.
pub open spec fn log_line_text(timestamp: Seq<char>, req: HttpRequest) -> Seq<char> {
    "["@ + timestamp + "] "@ + method_name(req.method) + " "@ + req.path@
}

/// The log line of a request at the given timestamp text.
pub fn log_line(timestamp: &str, req: &HttpRequest) -> (r: String)
    ensures
        r@ == log_line_text(timestamp@, *req),
{
    let mut out = String::new();
    push_str(&mut out, "[");
    push_str(&mut out, timestamp);
    push_str(&mut out, "] ");
    push_str(&mut out, req.method.as_str());
    push_str(&mut out, " ");
    push_str(&mut out, req.path.as_str());
    assert(out@ =~= log_line_text(timestamp@, *req));
    out
}

} // verus!
