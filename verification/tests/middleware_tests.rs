use almarjaa_network::{
    auth_checker, cors, gzip, log_line, rate_limit, HttpMethod, HttpRequest, HttpResponseBuilder,
    HttpServer, Middleware, RateLimiter, StatusCode,
};

#[test]
fn auth_checker_rejects_missing_credentials() {
    let req = HttpRequest::new(HttpMethod::Get, "/".to_string());
    let mut res = HttpResponseBuilder::new().text("ok".to_string());
    auth_checker(&req, &mut res);
    assert_eq!(res.status, StatusCode::UNAUTHORIZED());
    assert_eq!(res.body, r#"{"خطأ": "مطلوب مصادقة"}"#);
}

#[test]
fn auth_checker_accepts_credentials() {
    let mut req = HttpRequest::new(HttpMethod::Get, "/".to_string());
    req.headers.insert("authorization".to_string(), "Bearer t".to_string());
    let mut res = HttpResponseBuilder::new().text("ok".to_string());
    auth_checker(&req, &mut res);
    assert_eq!(res.status, StatusCode::OK());
    assert_eq!(res.body, "ok");
}

#[test]
fn gzip_marks_encoding() {
    let req = HttpRequest::new(HttpMethod::Get, "/".to_string());
    let mut res = HttpResponseBuilder::new();
    gzip(&req, &mut res);
    assert_eq!(res.headers.get("Content-Encoding"), Some(&"gzip".to_string()));
}

#[test]
fn cors_adds_headers() {
    let req = HttpRequest::new(HttpMethod::Get, "/".to_string());
    let mut res = HttpResponseBuilder::new();
    let mut c = cors("https://example.com");
    c.apply(&req, &mut res);
    assert_eq!(
        res.headers.get("Access-Control-Allow-Origin"),
        Some(&"https://example.com".to_string())
    );
    assert_eq!(
        res.headers.get("Access-Control-Allow-Methods"),
        Some(&"GET, POST, PUT, DELETE, OPTIONS".to_string())
    );
    assert_eq!(
        res.headers.get("Access-Control-Allow-Headers"),
        Some(&"Content-Type, Authorization".to_string())
    );
}

#[test]
fn rate_limiter_window() {
    let mut rl = RateLimiter::new(2, 1);
    assert!(rl.check_at("1.2.3.4", 0));
    assert!(rl.check_at("1.2.3.4", 10));
    assert!(!rl.check_at("1.2.3.4", 20));
    assert!(rl.check_at("5.6.7.8", 20));
    assert!(!rl.check_at("1.2.3.4", 999_999_999));
    assert!(rl.check_at("1.2.3.4", 1_000_000_005));
    assert!(!rl.check_at("1.2.3.4", 1_000_000_006));
}

#[test]
fn rate_limiter_zero_limit() {
    let mut rl = RateLimiter::new(0, 60);
    assert!(!rl.check("a"));
    let mut rl = RateLimiter::new(1, 60);
    assert!(rl.check("a"));
    assert!(!rl.check("a"));
}

#[test]
fn rate_limit_middleware() {
    let mut rl = rate_limit(1, 60);
    let req = HttpRequest::new(HttpMethod::Get, "/".to_string());
    let mut first = HttpResponseBuilder::new();
    rl.apply(&req, &mut first);
    assert_eq!(first.status, StatusCode::OK());
    let mut second = HttpResponseBuilder::new();
    rl.apply(&req, &mut second);
    assert_eq!(second.status, StatusCode::TOO_MANY_REQUESTS());
    assert_eq!(second.body, r#"{"خطأ": "تجاوزت الحد الأقصى للطلبات"}"#);
}

#[test]
fn middleware_runs_in_order_in_server() {
    let mut server = HttpServer::new();
    server.get("/", |_req: &HttpRequest| HttpResponseBuilder::new().text("hi".to_string()));
    server.use_middleware(gzip);
    server.use_middleware(auth_checker);
    server.use_middleware(|_req: &HttpRequest, res: &mut HttpResponseBuilder| {
        res.body.push('!');
    });
    let req = HttpRequest::new(HttpMethod::Get, "/".to_string());
    let res = server.handle(&req);
    assert_eq!(res.status, StatusCode::UNAUTHORIZED());
    assert_eq!(res.body, r#"{"خطأ": "مطلوب مصادقة"}!"#);
    assert_eq!(res.headers.get("content-encoding"), Some(&"gzip".to_string()));
}

#[test]
fn log_line_text() {
    let req = HttpRequest::new(HttpMethod::Post, "/api/x".to_string());
    assert_eq!(log_line("2024-01-01 00:00:00", &req), "[2024-01-01 00:00:00] POST /api/x");
}

#[test]
fn rate_limiter_history_counts_only_admitted_recent_requests() {
    let window: u128 = 1_000_000_000;
    let limit = 3;
    let mut rl = RateLimiter::new(limit, 1);
    let keys = ["a", "b", "a", "a", "a", "b", "a", "a", "b", "a", "a", "a"];
    let mut admitted: Vec<(usize, u128, bool)> = Vec::new();
    let mut t: u128 = 0;
    for (i, k) in keys.iter().enumerate() {
        t += [0u128, 100, 400_000_000, 300_000_000, 1][i % 5];
        let recent = admitted
            .iter()
            .filter(|(j, s, ok)| *ok && keys[*j] == *k && t - *s < window)
            .count();
        let got = rl.check_at(k, t);
        assert_eq!(got, recent < limit, "request {} from {} at {}", i, k, t);
        admitted.push((i, t, got));
    }
    assert!(admitted.iter().any(|(_, _, ok)| !ok));
}
