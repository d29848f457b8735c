use almarjaa_network::client::{response_from_parts, response_with_text};
use almarjaa_network::{
    new_client, HttpClient, HttpClientConfig, HttpHeaders, HttpMethod, HttpResponse, RetryStep,
    StatusCode, TimeSpan,
};

#[test]
fn default_config() {
    let c = HttpClientConfig::new();
    assert_eq!(c.timeout, TimeSpan::from_secs(30));
    assert_eq!(c.connect_timeout, TimeSpan::from_secs(10));
    assert_eq!(c.max_retries, 3);
    assert_eq!(c.retry_delay, TimeSpan::from_millis(500));
    assert!(c.keep_alive);
    assert_eq!(c.max_connections, 10);
    assert!(c.follow_redirects);
    assert_eq!(c.max_redirects, 10);
    assert!(c.verify_ssl);
    assert_eq!(c.proxy, None);
    assert!(c.default_headers.is_empty());
    assert_eq!(c.user_agent, "AlMarjaa/3.2.0");
}

#[test]
fn config_builders() {
    let c = HttpClientConfig::new()
        .with_timeout(5)
        .with_connect_timeout(2)
        .with_max_retries(7)
        .with_proxy("http://proxy:8080".to_string())
        .with_user_agent("test/1".to_string())
        .insecure();
    assert_eq!(c.timeout, TimeSpan::from_secs(5));
    assert_eq!(c.connect_timeout, TimeSpan::from_secs(2));
    assert_eq!(c.max_retries, 7);
    assert_eq!(c.proxy, Some("http://proxy:8080".to_string()));
    assert_eq!(c.user_agent, "test/1");
    assert!(!c.verify_ssl);
}

#[test]
fn prepare_sendable_request() {
    let client = HttpClient::new();
    let mut h = HttpHeaders::new();
    h.insert("X-Token".to_string(), "t".to_string());
    let p = client
        .prepare(HttpMethod::Post, "http://x/y", Some("body"), Some(&h))
        .unwrap();
    assert_eq!(p.method, HttpMethod::Post);
    assert_eq!(p.url, "http://x/y");
    assert_eq!(p.body, Some("body".to_string()));
    assert_eq!(p.headers, vec![("x-token".to_string(), "t".to_string())]);
    assert_eq!(p.timeout, TimeSpan::from_secs(30));
    assert_eq!(p.connect_timeout, TimeSpan::from_secs(10));
    assert_eq!(p.user_agent, "AlMarjaa/3.2.0");
    assert!(p.default_headers.is_empty());
    assert_eq!(p.proxy, None);
    assert_eq!(p.redirect_limit, Some(10));
    assert!(!p.accept_invalid_certs);

    let insecure = HttpClient::with_config(HttpClientConfig::new().insecure());
    assert!(insecure.prepare(HttpMethod::Get, "u", None, None).unwrap().accept_invalid_certs);
}

#[test]
fn prepare_unsupported_methods() {
    let client = new_client();
    match client.prepare(HttpMethod::Options, "u", None, None) {
        Err(e) => assert_eq!(e, "الطريقة غير مدعومة: Options"),
        Ok(_) => panic!("OPTIONS is not sent"),
    }
    assert!(client.prepare(HttpMethod::Trace, "u", None, None).is_err());
    assert!(client.prepare(HttpMethod::Connect, "u", None, None).is_err());
    assert!(client.prepare(HttpMethod::Head, "u", None, None).is_ok());
}

#[test]
fn retry_steps() {
    let client = HttpClient::with_config(HttpClientConfig::new().with_max_retries(2));
    assert_eq!(
        client.retry_step(0, true),
        RetryStep::Retry { delay: TimeSpan::from_millis(500) }
    );
    assert_eq!(
        client.retry_step(1, true),
        RetryStep::Retry { delay: TimeSpan::from_millis(500) }
    );
    assert_eq!(client.retry_step(2, true), RetryStep::Done);
    assert_eq!(client.retry_step(0, false), RetryStep::Done);
}

fn response(code: u16, bytes: Option<Vec<u8>>) -> HttpResponse {
    HttpResponse {
        status: StatusCode(code),
        headers: HttpHeaders::new(),
        body: String::new(),
        body_bytes: bytes,
        response_time: TimeSpan::from_nanos(0),
        final_url: None,
    }
}

#[test]
fn response_status_checks() {
    assert!(response(200, None).is_success());
    assert!(!response(200, None).is_error());
    assert!(response(404, None).is_error());
    assert!(response(503, None).is_error());
    assert!(!response(302, None).is_error());
    assert_eq!(response(200, None).bytes(), &[] as &[u8]);
    assert_eq!(response(200, Some(vec![1, 2])).bytes(), &[1, 2]);
}

#[test]
fn download_payloads() {
    assert_eq!(response(200, Some(vec![9])).download_bytes(), Ok(vec![9]));
    assert_eq!(
        response(404, Some(vec![9])).download_bytes(),
        Err("فشل التحميل: 404".to_string())
    );
    assert_eq!(
        response(204, None).download_bytes(),
        Err("لا يوجد محتوى".to_string())
    );
}

#[test]
fn response_from_wire_parts() {
    let r = response_from_parts(
        201,
        "https://example.org/final".to_string(),
        vec![
            ("Content-Type".to_string(), "text/plain".to_string()),
            ("X-A".to_string(), "1".to_string()),
            ("x-a".to_string(), "2".to_string()),
        ],
        "مرحبا".as_bytes().to_vec(),
    );
    assert_eq!(r.status, StatusCode::CREATED());
    assert_eq!(r.text(), Ok("مرحبا"));
    assert_eq!(r.headers.get("x-a"), Some(&"2".to_string()));
    assert_eq!(r.headers.len(), 2);
    assert_eq!(r.response_time, TimeSpan::from_nanos(0));
    assert_eq!(r.final_url, Some("https://example.org/final".to_string()));

    let lossy = response_from_parts(200, "u".to_string(), vec![], vec![b'a', 0xff, b'b']);
    assert_eq!(lossy.body, "a\u{fffd}b");
    assert_eq!(lossy.body_bytes, Some(vec![b'a', 0xff, b'b']));
}

#[test]
fn finish_sets_time() {
    let done = HttpClient::finish(Ok(response(200, None)), TimeSpan::from_millis(3)).unwrap();
    assert_eq!(done.response_time, TimeSpan::from_millis(3));
    assert_eq!(
        HttpClient::finish(Err("e".to_string()), TimeSpan::from_millis(3)).unwrap_err(),
        "e"
    );
}

/// Runs the retry decisions over attempts whose outcomes are given, and
/// counts the attempts made.
fn attempts(client: &HttpClient, failed: &[bool]) -> usize {
    let mut made = 1;
    let mut retries: u32 = 0;
    while let RetryStep::Retry { .. } = client.retry_step(retries, failed[made - 1]) {
        retries += 1;
        made += 1;
    }
    made
}

#[test]
fn retries_stop_at_the_limit_or_on_success() {
    let client = HttpClient::with_config(HttpClientConfig::new().with_max_retries(3));
    assert_eq!(attempts(&client, &[true, true, true, true, true]), 4);
    assert_eq!(attempts(&client, &[true, false, true, true]), 2);
    assert_eq!(attempts(&client, &[false]), 1);
    let none = HttpClient::with_config(HttpClientConfig::new().with_max_retries(0));
    assert_eq!(attempts(&none, &[true]), 1);
}

#[test]
fn response_with_given_text() {
    let r = response_with_text(
        404,
        "http://h/p".to_string(),
        vec![("Retry-After".to_string(), "5".to_string())],
        vec![1, 2, 3],
        "نص".to_string(),
    );
    assert_eq!(r.status, StatusCode::NOT_FOUND());
    assert_eq!(r.body, "نص");
    assert_eq!(r.final_url, Some("http://h/p".to_string()));
    assert_eq!(r.bytes(), &[1, 2, 3]);
    assert_eq!(r.headers.get("RETRY-AFTER"), Some(&"5".to_string()));
    assert!(r.is_error());
}

#[test]
fn prepare_uses_the_client_settings() {
    let mut config = HttpClientConfig::new()
        .with_timeout(5)
        .with_connect_timeout(2)
        .with_user_agent("Agent/1".to_string())
        .with_proxy("http://proxy:3128".to_string());
    config.default_headers.insert("Accept".to_string(), "text/plain".to_string());
    config.follow_redirects = false;
    let client = HttpClient::with_config(config);
    let p = client.prepare(HttpMethod::Get, "http://x", None, None).unwrap();
    assert_eq!(p.timeout, TimeSpan::from_secs(5));
    assert_eq!(p.connect_timeout, TimeSpan::from_secs(2));
    assert_eq!(p.user_agent, "Agent/1");
    assert_eq!(p.default_headers, vec![("accept".to_string(), "text/plain".to_string())]);
    assert_eq!(p.proxy, Some("http://proxy:3128".to_string()));
    assert_eq!(p.redirect_limit, None);
    assert!(p.headers.is_empty());
}

#[test]
fn response_text_reads_the_body() {
    let mut r = response(200, None);
    r.body = "جسم".to_string();
    let t: Result<&str, String> = r.text();
    assert_eq!(t, Ok("جسم"));
}
